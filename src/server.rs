//! The entry point that resolves whole requests.
use vstd::prelude::*;
use crate::filter::{AsyncTryFn, Filter};
use crate::outcome::{Outcome, RequestOutcome};
use crate::request::{Request, RequestState};
use crate::values::Tuple;

verus! {

/// Resolves requests with one filter, which takes no input.
pub struct Server<H> {
    pub filter: Filter<H>,
}

impl<H> Server<H> {
    pub fn new(filter: Filter<H>) -> (r: Server<H>)
        ensures
            r.filter == filter,
    {
        Server { filter }
    }
}

/// A server for `filter`; the same as [`Server::new`].
pub fn serve<H>(filter: Filter<H>) -> (r: Server<H>)
    ensures
        r.filter == filter,
{
    Server::new(filter)
}

impl<H: AsyncTryFn> Server<H> {
    /// Runs one request through the filter with an empty input, and hands
    /// back the state and the outcome.
    pub fn evaluate(&self, request: &Request, state: RequestState) -> (r: (RequestState, Outcome))
        requires
            request.wf(),
            state.wf(request),
        ensures
            crate::filter::evaluates(self.filter, *request, state, Seq::<crate::values::Value>::empty(), (RequestOutcome {
                request_state: r.0,
                outcome: r.1,
            })),
            r.0.wf(request),
            r.1 matches Outcome::Forward { input, .. } ==> input@.len() == 0,
    {
        let out = self.filter.execute(request, state, Tuple::new());
        let ghost g = out;
        let r = (out.request_state, out.outcome);
        assert((RequestOutcome { request_state: r.0, outcome: r.1 }) == g);
        r
    }
}

} // verus!
