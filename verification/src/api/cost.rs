//! Costs of the fleet and of one claw.

use vstd::prelude::*;
use vstd::string::*;
use crate::api;
use crate::api::{Answer, AnswerBody};

verus! {

/// The answer to the question for a claw's costs where the cache knows nothing
/// of it: what a fresh poll brought, or that the claw did not answer.
pub fn per_claw<S>(polled: Result<S, String>) -> (r: Answer<S>)
    ensures
        match polled {
            Ok(s) => r.status == 200 && r.body == AnswerBody::Value(s),
            Err(e) => api::says(r, 502, e@),
        },
{
    match polled {
        Ok(s) => Answer { status: 200, body: AnswerBody::Value(s) },
        Err(e) => api::say(502, e),
    }
}

} // verus!
