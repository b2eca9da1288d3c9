//! A program to run with its arguments, and the variables of the build
//! environment that shape command lines.
use vstd::prelude::*;
use crate::text::{opt_chars, strings};

verus! {

/// A program to run and its arguments, in order.
#[derive(Debug)]
pub struct CommandLine {
    pub program: String,
    pub args: Vec<String>,
}

/// The model of a command line.
pub struct CommandLineView {
    pub program: Seq<char>,
    pub args: Seq<Seq<char>>,
}

impl View for CommandLine {
    type V = CommandLineView;

    open spec fn view(&self) -> CommandLineView {
        CommandLineView { program: self.program@, args: strings(self.args@) }
    }
}

/// The values of the environment variables that the build reads, each
/// `None` where the variable is not set.
#[derive(Debug)]
pub struct BuildVars {
    /// `OPT_LEVEL`: the optimisation level Cargo asks for.
    pub opt_level: Option<String>,
    /// `DEBUG`: `"true"` where Cargo asks for debug information.
    pub debug: Option<String>,
    /// `AR_ASM`: the MASM assembler.
    pub assembler: Option<String>,
    /// `AR`: the archiver.
    pub archiver: Option<String>,
}

/// The model of the build variables.
pub struct BuildVarsView {
    pub opt_level: Option<Seq<char>>,
    pub debug: Option<Seq<char>>,
    pub assembler: Option<Seq<char>>,
    pub archiver: Option<Seq<char>>,
}

impl View for BuildVars {
    type V = BuildVarsView;

    open spec fn view(&self) -> BuildVarsView {
        BuildVarsView {
            opt_level: opt_chars(self.opt_level),
            debug: opt_chars(self.debug),
            assembler: opt_chars(self.assembler),
            archiver: opt_chars(self.archiver),
        }
    }
}

} // verus!
