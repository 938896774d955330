//! The address of the client.
use vstd::prelude::*;
use crate::filter::Filter;

verus! {

/// A filter taking the address of the client.
pub fn remote_addr<H>() -> (r: Filter<H>)
    ensures
        r is RemoteAddr,
{
    Filter::RemoteAddr
}

} // verus!
