//! Points of a case: what identifies one, whether a text can be rendered
//! once for every case, and how a condition is asked of the templates.
use vstd::prelude::*;

use crate::error::Error;
use crate::text::{concat3, contains, contains_text, owned};
use crate::value::{str_eq, Value};

verus! {

/// The identity of a point of a case.
pub trait PointId {
    fn point_id(&self) -> &str;
}

/// The outcome of a point: the value it gave, the value it failed on, or
/// an error.
#[derive(Debug)]
pub enum PointState {
    Success(Value),
    Fail(Value),
    Error(Error),
}

/// Whether a text renders the same for every case: it names none of the
/// case's `data`, `dyn` or `res` entries.
pub open spec fn shared_text(text: Seq<char>) -> bool {
    !contains_text(text, "{{data."@) && !contains_text(text, "{{dyn."@) && !contains_text(text, "{{res."@)
}

/// Whether `text` renders the same for every case; see `shared_text`.
pub fn is_shared(text: &str) -> (b: bool)
    ensures
        b == shared_text(text@),
{
    if contains(text, "{{data.") {
        return false;
    }
    if contains(text, "{{dyn.") {
        return false;
    }
    if contains(text, "{{res.") {
        return false;
    }
    true
}

/// The template that renders `true` where `condition` holds and `false`
/// where it does not.
pub open spec fn assert_template_of(condition: Seq<char>) -> Seq<char> {
    "{{#if "@ + condition + "}}true{{else}}false{{/if}}"@
}

/// The template that asks `condition`; see `assert_template_of`.
pub fn assert_template(condition: &str) -> (r: String)
    ensures
        r@ == assert_template_of(condition@),
{
    concat3("{{#if ", condition, "}}true{{else}}false{{/if}}")
}

/// What asking a condition gives, from what its template rendered to: it
/// holds where the template rendered exactly `true`; a failed rendering
/// does not hold.
pub fn assert_holds(rendered: &Result<String, String>) -> (b: bool)
    ensures
        b == (rendered matches Ok(t) && t@ == "true"@),
{
    match rendered {
        Ok(t) => str_eq(t.as_str(), "true"),
        Err(_) => false,
    }
}

/// The error of a template that did not render: code `tpl` and the
/// rendering's message.
pub fn render_error(message: String) -> (e: Error)
    ensures
        e.code_view() == "tpl"@,
        e.message_view() == message@,
{
    Error::new(owned("tpl"), message)
}

} // verus!
