//! The request URI.
use vstd::prelude::*;
use crate::filter::Filter;

verus! {

/// A filter taking the request URI (path and query).
pub fn uri<H>() -> (r: Filter<H>)
    ensures
        r is Uri,
{
    Filter::Uri
}

} // verus!
