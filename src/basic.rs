//! Filters that do not look at the request.
use vstd::prelude::*;
use crate::filter::Filter;
use crate::values::Value;

verus! {

/// A filter that always succeeds with no values.
pub fn any<H>() -> (r: Filter<H>)
    ensures
        r is Any,
{
    Filter::Any
}

/// A filter that always forwards as not found.
pub fn never<H>() -> (r: Filter<H>)
    ensures
        r is Never,
{
    Filter::Never
}

/// A filter that succeeds with a copy of `t` on every request.
pub fn borrowing<H>(t: Value) -> (r: Filter<H>)
    ensures
        r == Filter::<H>::Borrowing(t),
{
    Filter::Borrowing(t)
}

/// A filter that succeeds with a copy of `t` on every request.
pub fn cloning<H>(t: Value) -> (r: Filter<H>)
    ensures
        r == Filter::<H>::Borrowing(t),
{
    Filter::Borrowing(t)
}

} // verus!
