//! Identifier patterns, checked with the `regex` crate.
use vstd::prelude::*;

verus! {

/// What `regex::Regex::new(pattern)` and then `is_match(text)` on the
/// compiled expression give: `None` where the pattern does not compile.
pub uninterp spec fn regex_match(pattern: Seq<char>, text: Seq<char>) -> Option<bool>;

/// Compiles `pattern` with `regex::Regex::new` and, where that succeeds,
/// asks `Regex::is_match` whether `text` matches. The contract claims only
/// that the outcome is a function of the two texts, named `regex_match`.
#[verifier::external_body]
fn regex_is_match(pattern: &str, text: &str) -> (r: Option<bool>)
    ensures
        r == regex_match(pattern@, text@),
{
    regex::Regex::new(pattern).ok().map(|re| re.is_match(text))
}

/// The pattern of step and stage identifiers: one to fifty word characters.
pub open spec fn id_pattern() -> Seq<char> {
    "^[\\w]{1,50}$"@
}

/// The pattern of task identifiers: one or more word characters.
pub open spec fn task_id_pattern() -> Seq<char> {
    "^[\\w]+$"@
}

/// Whether `s` is a valid step or stage identifier.
pub open spec fn spec_id_valid(s: Seq<char>) -> bool {
    regex_match(id_pattern(), s) == Some(true)
}

/// Whether `s` is a valid task identifier.
pub open spec fn spec_task_id_valid(s: Seq<char>) -> bool {
    regex_match(task_id_pattern(), s) == Some(true)
}

/// Checks `s` against the identifier pattern.
pub fn id_valid(s: &str) -> (b: bool)
    ensures
        b == spec_id_valid(s@),
{
    match regex_is_match("^[\\w]{1,50}$", s) {
        Some(m) => m,
        None => false,
    }
}

/// Checks `s` against the task identifier pattern.
pub fn task_id_valid(s: &str) -> (b: bool)
    ensures
        b == spec_task_id_valid(s@),
{
    match regex_is_match("^[\\w]+$", s) {
        Some(m) => m,
        None => false,
    }
}

} // verus!
