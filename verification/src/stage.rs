//! A stage of the chain: one compiled pattern and whether it narrows.

use vstd::prelude::*;
use vstd::string::StringExecFns;
use regex::Regex;
use crate::engine::{
    capture_names, compile, compiles, describe, group_names, names_view, source, source_text,
};

verus! {

/// The name of the capture group whose text a narrowing stage hands on.
pub const CAPTURE_GROUP: &'static str = "out";

/// Whether one of the group names is `group`.
pub open spec fn declares(names: Seq<Option<Seq<char>>>, group: Seq<char>) -> bool {
    exists|i: int| 0 <= i < names.len() && #[trigger] names[i] == Some(group)
}

/// Whether a pattern narrows: it declares a capture group named `out`.
pub open spec fn narrowing(pattern: Seq<char>) -> bool {
    declares(group_names(pattern), CAPTURE_GROUP@)
}

/// Decides whether one of the names is `group`.
pub fn declares_group(names: &Vec<Option<String>>, group: &str) -> (b: bool)
    ensures
        b == declares(names_view(names@), group@),
{
    let wanted = String::from_str(group);
    let mut i: usize = 0;
    while i < names.len()
        invariant
            i <= names.len(),
            wanted@ == group@,
            forall|k: int| 0 <= k < i ==> names_view(names@)[k] != Some(group@),
        decreases names.len() - i,
    {
        match &names[i] {
            Some(name) => {
                if *name == wanted {
                    assert(names_view(names@)[i as int] == Some(group@));
                    return true;
                }
            },
            None => {},
        }
        i += 1;
    }
    false
}

/// Why a pattern was refused.
#[derive(Debug)]
pub struct PatternError {
    /// What the engine said of the pattern.
    pub message: String,
}

/// Why a list of patterns was refused.
#[derive(Debug)]
pub struct ChainError {
    /// The place in the list of the first pattern that was refused.
    pub index: usize,
    /// What the engine said of that pattern.
    pub message: String,
}

/// One compiled pattern together with its "narrows" flag, which is computed
/// once, when the stage is built.
pub struct Stage {
    regex: Regex,
    narrows: bool,
}

impl View for Stage {
    type V = Seq<char>;

    /// A stage is modelled by the text of its pattern.
    closed spec fn view(&self) -> Seq<char> {
        source_text(self.regex)
    }
}

impl Stage {
    /// The flag says what the pattern's group names say.
    #[verifier::type_invariant]
    spec fn flag_is_static(self) -> bool {
        self.narrows == narrowing(source_text(self.regex))
    }

    /// Compiles a pattern and records whether it narrows. Fails exactly on
    /// the patterns that the engine does not compile.
    pub fn new(pattern: &str) -> (r: Result<Stage, PatternError>)
        ensures
            r is Ok <==> compiles(pattern@),
            r matches Ok(stage) ==> stage@ == pattern@,
    {
        match compile(pattern) {
            Ok(regex) => {
                let names = capture_names(&regex);
                let narrows = declares_group(&names, CAPTURE_GROUP);
                Ok(Stage { regex, narrows })
            },
            Err(err) => Err(PatternError { message: describe(&err) }),
        }
    }

    /// The text of the pattern.
    pub fn pattern(&self) -> (r: &str)
        ensures
            r@ == self@,
    {
        source(&self.regex)
    }

    /// Whether the stage narrows.
    pub fn narrows(&self) -> (b: bool)
        ensures
            b == narrowing(self@),
    {
        proof {
            use_type_invariant(self);
        }
        self.narrows
    }

    /// The compiled expression, for the search.
    pub(crate) fn regex(&self) -> (r: &Regex)
        ensures
            source_text(*r) == self@,
    {
        &self.regex
    }
}

/// The patterns of a list of stages.
pub open spec fn patterns_of(stages: Seq<Stage>) -> Seq<Seq<char>> {
    stages.map_values(|s: Stage| s@)
}

/// The texts of a list of strings.
pub open spec fn texts_of(strings: Seq<String>) -> Seq<Seq<char>> {
    strings.map_values(|s: String| s@)
}

/// Builds the chain from the pattern texts, in their order. Succeeds exactly
/// when the engine compiles every pattern; otherwise the error names the
/// first pattern that it does not compile.
pub fn compile_stages(patterns: &Vec<String>) -> (r: Result<Vec<Stage>, ChainError>)
    ensures
        r is Ok <==> forall|k: int| 0 <= k < patterns.len() ==> compiles(#[trigger] patterns[k]@),
        r matches Ok(stages) ==> patterns_of(stages@) == texts_of(patterns@),
        r matches Err(e) ==> e.index < patterns.len() && !compiles(patterns[e.index as int]@),
        r matches Err(e) ==> forall|k: int| 0 <= k < e.index ==> compiles(#[trigger] patterns[k]@),
{
    let mut stages: Vec<Stage> = Vec::new();
    let mut i: usize = 0;
    while i < patterns.len()
        invariant
            i <= patterns.len(),
            stages.len() == i,
            forall|k: int| 0 <= k < i ==> compiles(#[trigger] patterns[k]@),
            forall|k: int| 0 <= k < i ==> (#[trigger] stages[k])@ == patterns[k]@,
        decreases patterns.len() - i,
    {
        match Stage::new(patterns[i].as_str()) {
            Ok(stage) => {
                stages.push(stage);
            },
            Err(e) => {
                return Err(ChainError { index: i, message: e.message });
            },
        }
        i += 1;
    }
    assert(patterns_of(stages@) =~= texts_of(patterns@));
    Ok(stages)
}

} // verus!
