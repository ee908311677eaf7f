//! Diagnostics: located problems of three severities.
use vstd::prelude::*;

verus! {

/// The severity of a problem, ordered `Lint < Warning < Error`. Only an `Error` makes a
/// compilation fail.
#[derive(Debug, Clone, Copy, PartialEq, Eq, PartialOrd, Ord, Hash, Structural)]
pub enum ProblemClass {
    Lint,
    Warning,
    Error,
}

/// The rank of a severity in the order `Lint < Warning < Error`.
pub open spec fn severity_rank(c: ProblemClass) -> int {
    match c {
        ProblemClass::Lint => 0,
        ProblemClass::Warning => 1,
        ProblemClass::Error => 2,
    }
}

impl ProblemClass {
    /// The word a report prints for this severity.
    pub fn label(&self) -> (r: &'static str)
        ensures
            r@ == match *self {
                ProblemClass::Lint => "lint"@,
                ProblemClass::Warning => "warning"@,
                ProblemClass::Error => "error"@,
            },
    {
        match self {
            ProblemClass::Lint => "lint",
            ProblemClass::Warning => "warning",
            ProblemClass::Error => "error",
        }
    }

    /// Whether this severity is at least as severe as `level`.
    pub fn at_least(&self, level: &ProblemClass) -> (r: bool)
        ensures
            r == (severity_rank(*self) >= severity_rank(*level)),
    {
        let a: u8 = match self {
            ProblemClass::Lint => 0,
            ProblemClass::Warning => 1,
            ProblemClass::Error => 2,
        };
        let b: u8 = match level {
            ProblemClass::Lint => 0,
            ProblemClass::Warning => 1,
            ProblemClass::Error => 2,
        };
        a >= b
    }
}

/// A located diagnostic: severity, message, hint, and the zero-based line and word it concerns.
#[derive(Debug, Clone, PartialEq, Eq)]
pub struct CompilerProblem {
    pub class: ProblemClass,
    pub message: String,
    pub hint: String,
    pub line: usize,
    pub word_index: usize,
}

/// What a problem holds, with its texts as characters.
pub struct ProblemView {
    pub class: ProblemClass,
    pub message: Seq<char>,
    pub hint: Seq<char>,
    pub line: usize,
    pub word: usize,
}

impl View for CompilerProblem {
    type V = ProblemView;

    open spec fn view(&self) -> ProblemView {
        ProblemView {
            class: self.class,
            message: self.message@,
            hint: self.hint@,
            line: self.line,
            word: self.word_index,
        }
    }
}

/// The problem with the given parts.
pub open spec fn problem(
    class: ProblemClass,
    message: Seq<char>,
    hint: Seq<char>,
    line: usize,
    word: usize,
) -> ProblemView {
    ProblemView { class, message, hint, line, word }
}

/// The view of an optional problem.
pub open spec fn opt_problem_view(p: Option<CompilerProblem>) -> Option<ProblemView> {
    match p {
        Some(q) => Some(q@),
        None => None,
    }
}

/// The views of a sequence of problems.
pub open spec fn problem_views(v: Seq<CompilerProblem>) -> Seq<ProblemView> {
    v.map_values(|p: CompilerProblem| p@)
}

/// Whether a sequence of problems holds an `Error`.
pub open spec fn has_error(ps: Seq<ProblemView>) -> bool {
    exists|i: int| 0 <= i < ps.len() && (#[trigger] ps[i]).class == ProblemClass::Error
}

impl CompilerProblem {
    pub fn new(class: ProblemClass, msg: &str, hint: &str, line: usize, word: usize) -> (r:
        CompilerProblem)
        ensures
            r@ == problem(class, msg@, hint@, line, word),
    {
        CompilerProblem {
            class,
            message: String::from_str(msg),
            hint: String::from_str(hint),
            line,
            word_index: word,
        }
    }

    /// A problem whose message is already built.
    pub fn with_message(class: ProblemClass, msg: String, hint: &str, line: usize, word: usize) -> (r:
        CompilerProblem)
        ensures
            r@ == problem(class, msg@, hint@, line, word),
    {
        CompilerProblem { class, message: msg, hint: String::from_str(hint), line, word_index: word }
    }

    /// A problem whose message and hint are already built.
    pub fn with_texts(class: ProblemClass, msg: String, hint: String, line: usize, word: usize) -> (r:
        CompilerProblem)
        ensures
            r@ == problem(class, msg@, hint@, line, word),
    {
        CompilerProblem { class, message: msg, hint, line, word_index: word }
    }

    /// Whether this problem is an `Error`.
    pub fn is_error(&self) -> (r: bool)
        ensures
            r == (self.class == ProblemClass::Error),
    {
        match self.class {
            ProblemClass::Error => true,
            _ => false,
        }
    }
}

/// Whether none of the problems is an `Error`, so that compilation may go on.
pub fn is_error_free(problems: &Vec<CompilerProblem>) -> (r: bool)
    ensures
        r == !has_error(problem_views(problems@)),
{
    let mut i: usize = 0;
    while i < problems.len()
        invariant
            i <= problems@.len(),
            forall|j: int| 0 <= j < i ==> problems@[j].class != ProblemClass::Error,
        decreases problems@.len() - i,
    {
        if problems[i].is_error() {
            assert(problem_views(problems@)[i as int].class == ProblemClass::Error);
            return false;
        }
        i = i + 1;
    }
    assert forall|j: int| 0 <= j < problems@.len() implies (#[trigger] problem_views(
        problems@,
    )[j]).class != ProblemClass::Error by {}
    true
}

} // verus!
