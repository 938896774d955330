//! What a filter ends with.
use vstd::prelude::*;
use crate::errors::FilterError;
use crate::forward::Forwarding;
use crate::request::RequestState;
use crate::values::{Tuple, Value};

verus! {

/// The three ways a filter ends.
#[derive(Debug)]
pub enum Outcome {
    /// It matched, with these values.
    Success(Tuple),
    /// It failed; nothing but a recovery for the error's type goes on from here.
    Error(FilterError),
    /// It did not match; `input` is the input it was given, unchanged.
    Forward { input: Tuple, forwarding: Forwarding },
}

impl Outcome {
    /// A success with exactly the values `s`.
    pub open spec fn is_success_of(&self, s: Seq<Value>) -> bool {
        match self {
            Outcome::Success(t) => t@ == s,
            _ => false,
        }
    }

    /// A forward that hands back `input`, for the reason `fw`.
    pub open spec fn is_forward_of(&self, input: Seq<Value>, fw: Forwarding) -> bool {
        match self {
            Outcome::Forward { input: i, forwarding } => i@ == input && *forwarding == fw,
            _ => false,
        }
    }

    /// A forward for not finding the resource, handing back an empty input.
    pub fn not_found() -> (r: Outcome)
        ensures
            r.is_forward_of(Seq::<Value>::empty(), Forwarding::NotFound),
    {
        Outcome::Forward { input: Tuple::new(), forwarding: Forwarding::NotFound }
    }

    /// A success with no values.
    pub fn empty_success() -> (r: Outcome)
        ensures
            r.is_success_of(Seq::<Value>::empty()),
    {
        Outcome::Success(Tuple::new())
    }
}

/// An outcome, with the request state handed back whatever the outcome.
#[derive(Debug)]
pub struct RequestOutcome {
    pub request_state: RequestState,
    pub outcome: Outcome,
}

} // verus!
