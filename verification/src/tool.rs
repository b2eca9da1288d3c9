//! The C compiler driver: what it is, and how one is found.
use vstd::prelude::*;
use crate::error::Error;
use crate::path::{
    file_name, file_name_outcome, final_component, portable_path, starts_with_two_separators,
    windows_final_component,
};
use crate::text::{
    ascii_lower, chars_contain, chars_eq, chars_of, contains_seq, lower_chars, lower_contains,
    opt_chars, str_eq, strings,
};

verus! {

/// A compiler driver: the program to run, and whether it takes MSVC-style flags.
#[derive(Debug, Clone)]
pub struct Tool {
    path: String,
    msvc: bool,
}

/// The model of a `Tool`.
pub struct ToolView {
    pub path: Seq<char>,
    pub msvc: bool,
}

impl View for Tool {
    type V = ToolView;

    closed spec fn view(&self) -> ToolView {
        ToolView { path: self.path@, msvc: self.msvc }
    }
}

/// A file name, in lower case, of a driver that takes MSVC-style flags.
pub open spec fn msvc_driver_name(lower_name: Seq<char>) -> bool {
    lower_name == "cl"@ || lower_name == "cl.exe"@ || contains_seq(lower_name, "clang-cl"@)
}

/// A file name of a Clang driver, in any case.
pub open spec fn clang_driver_name(name: Option<Seq<char>>) -> bool {
    match name {
        Some(n) => contains_seq(ascii_lower(n), "clang"@),
        None => false,
    }
}

/// The driver found by running the candidate `candidate`.
pub open spec fn candidate_view(candidate: Seq<char>, msvc: bool) -> ToolView {
    ToolView {
        path: candidate,
        msvc: msvc || candidate == "cl"@ || contains_seq(candidate, "clang-cl"@),
    }
}

/// The drivers tried, in order, where none is configured.
pub open spec fn candidates_for(msvc: bool, cpp: bool) -> Seq<Seq<char>> {
    if msvc {
        seq!["cl"@, "clang-cl"@]
    } else if cpp {
        seq!["c++"@, "g++"@, "clang++"@, "cc"@, "gcc"@, "clang"@]
    } else {
        seq!["cc"@, "gcc"@, "clang"@, "cl"@]
    }
}

/// The message when no driver is found.
pub open spec fn no_compiler_message() -> Seq<char> {
    "no C compiler found; set CC to the compiler executable"@
}

impl Tool {
    /// A copy of this driver.
    fn copy(&self) -> (r: Tool)
        ensures
            r@ == self@,
    {
        Tool { path: self.path.clone(), msvc: self.msvc }
    }

    /// The program to run.
    pub fn path(&self) -> (r: &str)
        ensures
            r@ == self@.path,
    {
        self.path.as_str()
    }

    /// Whether the driver takes MSVC-style flags.
    pub fn is_like_msvc(&self) -> (r: bool)
        ensures
            r == self@.msvc,
    {
        self.msvc
    }

    /// Whether the driver takes GNU-style flags.
    pub fn is_like_gnu(&self) -> (r: bool)
        ensures
            r == !self@.msvc,
    {
        !self.msvc
    }

    /// Whether the driver's file name names Clang, in any case.
    pub fn is_like_clang(&self) -> (r: bool)
        ensures
            exists|n: Option<Seq<char>>|
                #[trigger] file_name_outcome(self@.path, n) && r == clang_driver_name(n),
            portable_path(self@.path) ==> r == clang_driver_name(final_component(self@.path)),
            !starts_with_two_separators(self@.path) ==> (r == clang_driver_name(
                final_component(self@.path),
            ) || r == clang_driver_name(windows_final_component(self@.path))),
    {
        let name = file_name(self.path.as_str());
        let r = match &name {
            Some(n) => is_clang_name(n.as_str()),
            None => false,
        };
        assert(file_name_outcome(self@.path, opt_chars(name)));
        r
    }
}

/// Whether the file name `name` names Clang, in any case.
pub fn is_clang_name(name: &str) -> (r: bool)
    ensures
        r == contains_seq(ascii_lower(name@), "clang"@),
{
    lower_contains(name, "clang")
}

/// Whether the file name `name`, taken in lower case, is that of an MSVC-style driver.
pub fn is_msvc_name(name: &str) -> (r: bool)
    ensures
        r == msvc_driver_name(ascii_lower(name@)),
{
    let lower = lower_chars(&chars_of(name));
    chars_eq(&lower, &chars_of("cl")) || chars_eq(&lower, &chars_of("cl.exe")) || chars_contain(
        &lower,
        &chars_of("clang-cl"),
    )
}

/// Whether the target's environment, as Cargo gives it, is MSVC.
pub fn target_is_msvc(target_env: Option<&str>) -> (r: bool)
    ensures
        r == (target_env matches Some(e) && e@ == "msvc"@),
{
    match target_env {
        Some(e) => str_eq(e, "msvc"),
        None => false,
    }
}

/// The file name that a configured driver is judged by: its final component,
/// in lower case, or nothing.
pub open spec fn judged_name(n: Option<Seq<char>>) -> Seq<char> {
    match n {
        Some(m) => ascii_lower(m),
        None => Seq::empty(),
    }
}

/// The driver that the value `cc` of the variable `CC` configures, if it is
/// set and not empty; `msvc` says whether the target's environment is MSVC.
pub fn configured_compiler(cc: Option<&str>, msvc: bool) -> (r: Option<Tool>)
    ensures
        r is None <==> (cc is None || cc.unwrap()@.len() == 0),
        r matches Some(t) ==> {
            &&& t@.path == cc.unwrap()@
            &&& exists|n: Option<Seq<char>>| #[trigger]
                file_name_outcome(cc.unwrap()@, n) && t@.msvc == (msvc || msvc_driver_name(
                    judged_name(n),
                ))
            &&& portable_path(cc.unwrap()@) ==> t@.msvc == (msvc || msvc_driver_name(
                judged_name(final_component(cc.unwrap()@)),
            ))
            &&& !starts_with_two_separators(cc.unwrap()@) ==> (t@.msvc == (msvc
                || msvc_driver_name(judged_name(final_component(cc.unwrap()@)))) || t@.msvc == (
            msvc || msvc_driver_name(judged_name(windows_final_component(cc.unwrap()@)))))
        },
{
    match cc {
        None => None,
        Some(cc) => {
            if cc.unicode_len() == 0 {
                return None;
            }
            let name = file_name(cc);
            let named = match &name {
                Some(n) => is_msvc_name(n.as_str()),
                None => is_msvc_name(""),
            };
            proof {
                reveal_strlit("");
                assert(file_name_outcome(cc@, opt_chars(name)));
                assert(ascii_lower(""@) =~= Seq::<char>::empty());
            }
            Some(Tool { path: String::from_str(cc), msvc: msvc || named })
        },
    }
}

/// The driver that the candidate program `candidate` is taken as.
pub fn candidate_tool(candidate: &str, msvc: bool) -> (r: Tool)
    ensures
        r@ == candidate_view(candidate@, msvc),
{
    let cl = msvc || str_eq(candidate, "cl") || chars_contain(
        &chars_of(candidate),
        &chars_of("clang-cl"),
    );
    Tool { path: String::from_str(candidate), msvc: cl }
}

/// The drivers tried, in order, where none is configured.
pub fn compiler_candidates(msvc: bool, cpp: bool) -> (r: Vec<String>)
    ensures
        strings(r@) == candidates_for(msvc, cpp),
{
    let mut r: Vec<String> = Vec::new();
    if msvc {
        r.push(String::from_str("cl"));
        r.push(String::from_str("clang-cl"));
    } else if cpp {
        r.push(String::from_str("c++"));
        r.push(String::from_str("g++"));
        r.push(String::from_str("clang++"));
        r.push(String::from_str("cc"));
        r.push(String::from_str("gcc"));
        r.push(String::from_str("clang"));
    } else {
        r.push(String::from_str("cc"));
        r.push(String::from_str("gcc"));
        r.push(String::from_str("clang"));
        r.push(String::from_str("cl"));
    }
    assert(strings(r@) =~= candidates_for(msvc, cpp));
    r
}

/// The search for a driver: a configured one if there is one, else the first
/// candidate that runs. The caller runs the programs that it names.
pub struct CompilerSearch {
    msvc: bool,
    configured: Option<Tool>,
    candidates: Vec<String>,
    next: usize,
}

/// The model of a search.
pub struct SearchView {
    pub msvc: bool,
    pub configured: Option<ToolView>,
    pub candidates: Seq<Seq<char>>,
    pub next: nat,
}

/// What the search asks for, or how it ended.
#[derive(Debug)]
pub enum SearchStep {
    /// Run this candidate program to see whether it works.
    Probe(String),
    /// The driver to use.
    Found(Tool),
    /// No driver was found.
    Failed(Error),
}

/// The model of a search step.
pub enum SearchStepView {
    Probe(Seq<char>),
    Found(ToolView),
    Failed(Seq<char>),
}

impl View for CompilerSearch {
    type V = SearchView;

    closed spec fn view(&self) -> SearchView {
        SearchView {
            msvc: self.msvc,
            configured: match self.configured {
                Some(t) => Some(t@),
                None => None,
            },
            candidates: strings(self.candidates@),
            next: self.next as nat,
        }
    }
}

impl View for SearchStep {
    type V = SearchStepView;

    open spec fn view(&self) -> SearchStepView {
        match self {
            SearchStep::Probe(c) => SearchStepView::Probe(c@),
            SearchStep::Found(t) => SearchStepView::Found(t@),
            SearchStep::Failed(e) => SearchStepView::Failed(e@),
        }
    }
}

/// The state at the start of a search.
pub open spec fn search_start(msvc: bool, cpp: bool, configured: Option<ToolView>) -> SearchView {
    SearchView { msvc, configured, candidates: candidates_for(msvc, cpp), next: 0 }
}

/// What the search asks for in state `s`.
pub open spec fn search_step(s: SearchView) -> SearchStepView {
    match s.configured {
        Some(t) => SearchStepView::Found(t),
        None => if s.next < s.candidates.len() {
            SearchStepView::Probe(s.candidates[s.next as int])
        } else {
            SearchStepView::Failed(no_compiler_message())
        },
    }
}

/// Whether the search in state `s` waits for a probe's result.
pub open spec fn search_waits(s: SearchView) -> bool {
    s.configured is None && s.next < s.candidates.len()
}

/// The state after the probe of the current candidate, which `works` or not.
pub open spec fn search_after(s: SearchView, works: bool) -> SearchView {
    if works {
        s
    } else {
        SearchView { next: s.next + 1, ..s }
    }
}

/// What the search answers the probe of the current candidate with.
pub open spec fn search_answer(s: SearchView, works: bool) -> SearchStepView {
    if works {
        SearchStepView::Found(candidate_view(s.candidates[s.next as int], s.msvc))
    } else {
        search_step(search_after(s, false))
    }
}

/// How a search from state `s` ends when the probes answer `probes` in turn,
/// or what it still asks for when they run out.
pub open spec fn search_run(s: SearchView, probes: Seq<bool>) -> SearchStepView
    decreases probes.len(),
{
    if search_waits(s) && probes.len() > 0 {
        if probes[0] {
            search_answer(s, true)
        } else {
            search_run(search_after(s, false), probes.drop_first())
        }
    } else {
        search_step(s)
    }
}

impl CompilerSearch {
    /// The search for a driver for a target whose environment is MSVC or not,
    /// for C++ or C, with the driver that `CC` configures, if any.
    pub fn new(msvc: bool, cpp: bool, configured: Option<Tool>) -> (r: CompilerSearch)
        ensures
            r@ == search_start(
                msvc,
                cpp,
                match configured {
                    Some(t) => Some(t@),
                    None => None,
                },
            ),
    {
        CompilerSearch { msvc, configured, candidates: compiler_candidates(msvc, cpp), next: 0 }
    }

    /// What the search asks for now, or how it ended.
    pub fn step(&self) -> (r: SearchStep)
        ensures
            r@ == search_step(self@),
    {
        match &self.configured {
            Some(t) => SearchStep::Found(t.copy()),
            None => {
                if self.next < self.candidates.len() {
                    SearchStep::Probe(self.candidates[self.next].clone())
                } else {
                    SearchStep::Failed(Error::new(
                        "no C compiler found; set CC to the compiler executable",
                    ))
                }
            },
        }
    }

    /// Takes the result of running the candidate that the search asked for:
    /// whether it `works`. Answers with what the search asks for next.
    pub fn report(&mut self, works: bool) -> (r: SearchStep)
        requires
            search_waits(old(self)@),
        ensures
            final(self)@ == search_after(old(self)@, works),
            r@ == search_answer(old(self)@, works),
    {
        let count = self.candidates.len();
        assert(self@.candidates.len() == count);
        if works {
            SearchStep::Found(candidate_tool(self.candidates[self.next].as_str(), self.msvc))
        } else {
            self.next = self.next + 1;
            self.step()
        }
    }
}

/// Where no driver is configured and the probes of the first `k` candidates
/// fail while that of the next one works, the search finds that candidate.
pub proof fn lemma_search_finds_first_working(s: SearchView, probes: Seq<bool>, k: nat)
    requires
        s.configured is None,
        s.next + k < s.candidates.len(),
        k < probes.len(),
        probes[k as int],
        forall|j: int| 0 <= j < k ==> !probes[j],
    ensures
        search_run(s, probes) == SearchStepView::Found(
            candidate_view(s.candidates[(s.next + k) as int], s.msvc),
        ),
    decreases k,
{
    if k > 0 {
        let rest = probes.drop_first();
        assert forall|j: int| 0 <= j < (k - 1) as nat implies !rest[j] by {
            assert(rest[j] == probes[j + 1]);
        }
        lemma_search_finds_first_working(search_after(s, false), rest, (k - 1) as nat);
    }
}

/// Where no driver is configured and every candidate's probe fails, the
/// search fails with its message.
pub proof fn lemma_search_fails_when_none_works(s: SearchView, probes: Seq<bool>)
    requires
        s.configured is None,
        s.next <= s.candidates.len(),
        probes.len() >= s.candidates.len() - s.next,
        forall|j: int| 0 <= j < probes.len() ==> !probes[j],
    ensures
        search_run(s, probes) == SearchStepView::Failed(no_compiler_message()),
    decreases s.candidates.len() - s.next,
{
    if s.next < s.candidates.len() {
        let rest = probes.drop_first();
        assert forall|j: int| 0 <= j < rest.len() implies !rest[j] by {
            assert(rest[j] == probes[j + 1]);
        }
        lemma_search_fails_when_none_works(search_after(s, false), rest);
    }
}

/// A configured driver is found at once, whatever the probes would say.
pub proof fn lemma_configured_driver_wins(s: SearchView, probes: Seq<bool>)
    requires
        s.configured is Some,
    ensures
        search_run(s, probes) == SearchStepView::Found(s.configured.unwrap()),
{
}

/// For a target whose environment is not MSVC, a driver found by probing is
/// MSVC-like only where its name is `cl` or holds `clang-cl`.
pub proof fn lemma_probed_driver_gnu_unless_cl(candidate: Seq<char>)
    ensures
        candidate_view(candidate, false).msvc ==> (candidate == "cl"@ || contains_seq(
            candidate,
            "clang-cl"@,
        )),
        candidate_view(candidate, false).path == candidate,
{
}

/// For a target whose environment is not MSVC, every candidate driver other
/// than `cl` is GNU-like: `cc`, `gcc`, `clang`, `c++`, `g++` and `clang++`.
pub proof fn lemma_gnu_target_candidates_are_gnu(cpp: bool)
    ensures
        forall|i: int|
            0 <= i < candidates_for(false, cpp).len() && candidates_for(false, cpp)[i] != "cl"@
                ==> !(#[trigger] candidate_view(candidates_for(false, cpp)[i], false)).msvc,
{
    reveal_strlit("clang-cl");
    reveal_strlit("c++");
    reveal_strlit("g++");
    reveal_strlit("clang++");
    reveal_strlit("cc");
    reveal_strlit("gcc");
    reveal_strlit("clang");
    reveal_strlit("cl");
    let cands = candidates_for(false, cpp);
    assert forall|i: int| 0 <= i < cands.len() && cands[i] != "cl"@ implies !(#[trigger] candidate_view(cands[i], false)).msvc by {
        let c = cands[i];
        assert(c.len() < "clang-cl"@.len());
        if contains_seq(c, "clang-cl"@) {
            let j = choose|j: int| 0 <= j && j + "clang-cl"@.len() <= c.len() && #[trigger] c.subrange(j, j + "clang-cl"@.len()) == "clang-cl"@;
            assert(false);
        }
    }
}

} // verus!
