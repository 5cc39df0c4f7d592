//! The error of the loaders: a code that says where it arose, a message, and
//! the text of the error that caused it, where there was one.
use vstd::prelude::*;

use crate::text::concat3;

verus! {

/// The text of an error without a cause.
pub open spec fn error_text(code: Seq<char>, message: Seq<char>) -> Seq<char> {
    "{ code: "@ + code + ", message: "@ + message + " }"@
}

/// An error with a code, a message and, where it has one, the text of its
/// cause.
#[derive(Debug)]
pub struct Error {
    code: String,
    message: String,
    cause: Option<String>,
}

impl Error {
    pub fn new(code: String, message: String) -> (r: Error)
        ensures
            r.code_view() == code@,
            r.message_view() == message@,
            r.cause_view() == None::<Seq<char>>,
    {
        Error { code, message, cause: None }
    }

    /// An error caused by another, of which it keeps the text.
    pub fn cause(code: String, message: String, cause: String) -> (r: Error)
        ensures
            r.code_view() == code@,
            r.message_view() == message@,
            r.cause_view() == Some(cause@),
    {
        Error { code, message, cause: Some(cause) }
    }

    /// The text of the cause, where there is one.
    pub closed spec fn cause_view(&self) -> Option<Seq<char>> {
        match self.cause {
            Some(c) => Some(c@),
            None => None,
        }
    }

    /// The code.
    pub closed spec fn code_view(&self) -> Seq<char> {
        self.code@
    }

    /// The message.
    pub closed spec fn message_view(&self) -> Seq<char> {
        self.message@
    }

    pub fn code(&self) -> (r: &str)
        ensures
            r@ == self.code_view(),
    {
        self.code.as_str()
    }

    pub fn message(&self) -> (r: &str)
        ensures
            r@ == self.message_view(),
    {
        self.message.as_str()
    }

    /// The text of the error: `{ code: C, message: M }`, followed by a line
    /// break and the text of the cause where there is one.
    pub fn to_string(&self) -> (r: String)
        ensures
            r@ == match self.cause_view() {
                None => error_text(self.code_view(), self.message_view()),
                Some(c) => error_text(self.code_view(), self.message_view()) + "\n"@ + c,
            },
    {
        let head = concat3("{ code: ", self.code.as_str(), ", message: ");
        let r = concat3(head.as_str(), self.message.as_str(), " }");
        match &self.cause {
            None => r,
            Some(c) => concat3(r.as_str(), "\n", c.as_str()),
        }
    }
}

} // verus!
