//! The HTTP version of a request.
use vstd::prelude::*;
use crate::filter::Filter;

verus! {

/// A filter taking the HTTP version of the request.
pub fn version<H>() -> (r: Filter<H>)
    ensures
        r is Version,
{
    Filter::Version
}

} // verus!
