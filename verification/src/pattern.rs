//! Recipient patterns: regular expressions, compiled once and then tried
//! against addresses.

use crate::text::texts;
use vstd::prelude::*;

verus! {

#[verifier::external_type_specification]
#[verifier::external_body]
pub struct ExRegex(regex::Regex);

#[verifier::external_type_specification]
#[verifier::external_body]
pub struct ExRegexError(regex::Error);

/// The pattern text that a compiled expression holds. Of an expression that
/// `regex::Regex::new` returned, it is the text that was handed to
/// `Regex::new`; nothing else is claimed of it.
pub uninterp spec fn pattern_source(pattern: regex::Regex) -> Seq<char>;

/// Whether the regular expression that `regex::Regex::new` makes of `source`
/// finds a match anywhere in `text`, as `regex::Regex::is_match` decides it.
pub uninterp spec fn pattern_matches(source: Seq<char>, text: Seq<char>) -> bool;

/// Whether `regex::Regex::new` accepts the text `source` as a regular
/// expression.
pub uninterp spec fn pattern_compiles(source: Seq<char>) -> bool;

/// Calls `regex::Regex::new`. Trusted: whether a text compiles depends on the
/// text alone, and an expression that comes back holds the text it was built
/// from.
#[verifier::external_body]
fn compile_source(source: &str) -> (r: Result<regex::Regex, regex::Error>)
    ensures
        r is Ok <==> pattern_compiles(source@),
        r matches Ok(p) ==> pattern_source(p) == source@,
{
    regex::Regex::new(source)
}

/// Calls `regex::Regex::is_match`. Trusted: the answer depends on the
/// expression and on `text` alone, and two expressions that `Regex::new` made
/// of the same pattern text give the same answer.
#[verifier::external_body]
fn is_match(pattern: &regex::Regex, text: &str) -> (hit: bool)
    ensures
        hit == pattern_matches(pattern_source(*pattern), text@),
{
    pattern.is_match(text)
}

/// Why a list of pattern texts could not be compiled.
#[derive(Clone, Copy, Debug, PartialEq, Eq)]
pub struct PatternError {
    /// Position of the first text that is not a regular expression.
    pub index: usize,
}

/// An ordered list of compiled recipient patterns.
pub struct PatternSet {
    compiled: Vec<regex::Regex>,
}

impl View for PatternSet {
    type V = Seq<Seq<char>>;

    /// The pattern texts, in order.
    closed spec fn view(&self) -> Seq<Seq<char>> {
        Seq::new(self.compiled@.len(), |i: int| pattern_source(self.compiled@[i]))
    }
}

/// The pattern texts of `outcomes`, in order, where all of them compiled.
pub open spec fn compiled_sources(
    outcomes: Seq<Result<regex::Regex, regex::Error>>,
) -> Seq<Seq<char>> {
    Seq::new(outcomes.len(), |i: int| pattern_source(outcomes[i]->Ok_0))
}

/// Every text of `outcomes` compiled.
pub open spec fn all_compiled(outcomes: Seq<Result<regex::Regex, regex::Error>>) -> bool {
    forall|i: int| 0 <= i < outcomes.len() ==> outcomes[i] is Ok
}

/// `i` is the position of the first failure in `outcomes`.
pub open spec fn first_failure_at(
    outcomes: Seq<Result<regex::Regex, regex::Error>>,
    i: int,
) -> bool {
    &&& 0 <= i < outcomes.len()
    &&& outcomes[i] is Err
    &&& forall|j: int| 0 <= j < i ==> outcomes[j] is Ok
}

impl PatternSet {
    /// The empty list.
    pub fn empty() -> (set: PatternSet)
        ensures
            set@ == Seq::<Seq<char>>::empty(),
    {
        let set = PatternSet { compiled: Vec::new() };
        assert(set@ =~= Seq::<Seq<char>>::empty());
        set
    }

    /// Builds the list from the outcome of compiling each text: all of them
    /// where every one compiled, else the position of the first that did not.
    pub fn assemble(outcomes: Vec<Result<regex::Regex, regex::Error>>) -> (r: Result<
        PatternSet,
        PatternError,
    >)
        ensures
            match r {
                Ok(set) => all_compiled(outcomes@) && set@ == compiled_sources(outcomes@),
                Err(e) => first_failure_at(outcomes@, e.index as int),
            },
    {
        let ghost all = outcomes@;
        let n = outcomes.len();
        let mut compiled: Vec<regex::Regex> = Vec::new();
        let mut i: usize = 0;
        for outcome in it: outcomes
            invariant
                it.seq() == all,
                all.len() == n,
                i == it.index(),
                compiled@.len() == i,
                forall|j: int| 0 <= j < i ==> all[j] is Ok,
                forall|j: int| 0 <= j < i ==> compiled@[j] == all[j]->Ok_0,
        {
            match outcome {
                Ok(p) => {
                    compiled.push(p);
                },
                Err(_) => {
                    return Err(PatternError { index: i });
                },
            }
            i += 1;
        }
        let set = PatternSet { compiled };
        assert(set@ =~= compiled_sources(all));
        Ok(set)
    }

    /// Compiles each text of `sources`, in order.
    ///
    /// Succeeds exactly where every text is a regular expression, and the
    /// list then holds exactly the given texts. A failure names the first
    /// text that is none.
    pub fn compile(sources: &Vec<String>) -> (r: Result<PatternSet, PatternError>)
        ensures
            r is Ok <==> forall|i: int|
                0 <= i < sources@.len() ==> pattern_compiles(#[trigger] sources@[i]@),
            r matches Ok(set) ==> set@ == texts(sources@),
            r matches Err(e) ==> e.index < sources@.len() && !pattern_compiles(
                sources@[e.index as int]@,
            ) && forall|j: int| 0 <= j < e.index ==> pattern_compiles(#[trigger] sources@[j]@),
    {
        let mut outcomes: Vec<Result<regex::Regex, regex::Error>> = Vec::new();
        let mut i: usize = 0;
        while i < sources.len()
            invariant
                i <= sources@.len(),
                outcomes@.len() == i,
                forall|j: int|
                    0 <= j < i ==> (#[trigger] outcomes@[j] matches Ok(p) ==> pattern_source(p)
                        == sources@[j]@),
                forall|j: int|
                    0 <= j < i ==> (#[trigger] outcomes@[j] is Ok <==> pattern_compiles(
                        sources@[j]@,
                    )),
            decreases sources@.len() - i,
        {
            let outcome = compile_source(sources[i].as_str());
            outcomes.push(outcome);
            i += 1;
        }
        let ghost made = outcomes@;
        let r = PatternSet::assemble(outcomes);
        proof {
            if r is Ok {
                assert(r->Ok_0@ =~= texts(sources@));
                assert forall|i: int| 0 <= i < sources@.len() implies pattern_compiles(
                    #[trigger] sources@[i]@,
                ) by {
                    assert(made[i] is Ok);
                }
            } else {
                let at = r->Err_0.index as int;
                assert(made[at] is Err);
                assert forall|j: int| 0 <= j < at implies pattern_compiles(
                    #[trigger] sources@[j]@,
                ) by {
                    assert(made[j] is Ok);
                }
            }
        }
        r
    }

    /// How many patterns the list holds.
    pub fn len(&self) -> (n: usize)
        ensures
            n == self@.len(),
    {
        self.compiled.len()
    }

    /// Whether pattern number `index` finds a match in `text`.
    pub fn matches(&self, index: usize, text: &str) -> (hit: bool)
        requires
            index < self@.len(),
        ensures
            hit == pattern_matches(self@[index as int], text@),
    {
        is_match(&self.compiled[index], text)
    }
}

} // verus!
