//! The answers of the orchestrator's HTTP interface.

use vstd::prelude::*;
use vstd::string::*;
use crate::failure::Failure;
use crate::keymap::KeyMap;
use crate::wire::Field;

pub mod apply;
pub mod claws;
pub mod configs;
pub mod cost;
pub mod logs;
pub mod tenants;

verus! {

/// What an answer carries.
pub enum AnswerBody<T> {
    Empty,
    Text(String),
    /// A JSON object.
    Fields(KeyMap<Field>),
    /// A value, sent as JSON.
    Value(T),
}

/// An answer to a request.
pub struct Answer<T> {
    pub status: u16,
    pub body: AnswerBody<T>,
}

/// The answer is a text under a status.
pub open spec fn says<T>(a: Answer<T>, status: u16, text: Seq<char>) -> bool {
    a.status == status && (a.body matches AnswerBody::Text(s) && s@ == text)
}

/// A text under a status.
pub fn say<T>(status: u16, text: String) -> (r: Answer<T>)
    ensures
        says(r, status, text@),
{
    Answer { status, body: AnswerBody::Text(text) }
}

/// The answer that reports a value, or a failure of the server with its
/// message.
pub open spec fn reports<T>(r: Result<T, Failure>, a: Answer<T>) -> bool {
    match r {
        Ok(v) => a.status == 200 && a.body == AnswerBody::Value(v),
        Err(f) => says(a, 500, f@.message),
    }
}

/// Reports a value, or a failure of the server with its message.
pub fn report<T>(r: Result<T, Failure>) -> (a: Answer<T>)
    ensures
        reports(r, a),
{
    match r {
        Ok(v) => Answer { status: 200, body: AnswerBody::Value(v) },
        Err(f) => say(500, f.message),
    }
}

/// The answer to the question whether the orchestrator is alive.
pub fn healthz() -> (r: String)
    ensures
        r@ == "ok"@,
{
    "ok".to_owned()
}

} // verus!
