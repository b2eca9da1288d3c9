//! Compiling C and assembly sources into a static library for a Cargo build
//! script: the compiler's command lines, the names of objects and archives,
//! and the directives for Cargo, computed from a build description.

pub mod builder;
pub mod command;
pub mod error;
pub mod flags;
pub mod library;
pub mod path;
pub mod plan;
pub mod text;
pub mod tool;

pub use builder::Build;
pub use command::{BuildVars, CommandLine};
pub use error::Error;
pub use tool::{CompilerSearch, SearchStep, Tool};
