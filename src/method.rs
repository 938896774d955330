//! Filters on the request method.
use vstd::prelude::*;
use crate::filter::Filter;
use crate::forward::Method;

verus! {

/// Succeeds on a `GET` request; otherwise forwards with `GET` as attempted.
pub fn get<H>() -> (r: Filter<H>)
    ensures
        r == Filter::<H>::Method(Method::Get),
{
    Filter::Method(Method::Get)
}

/// Succeeds on a `POST` request; otherwise forwards with `POST` as attempted.
pub fn post<H>() -> (r: Filter<H>)
    ensures
        r == Filter::<H>::Method(Method::Post),
{
    Filter::Method(Method::Post)
}

/// Succeeds on a `PUT` request; otherwise forwards with `PUT` as attempted.
pub fn put<H>() -> (r: Filter<H>)
    ensures
        r == Filter::<H>::Method(Method::Put),
{
    Filter::Method(Method::Put)
}

/// Succeeds on a `DELETE` request; otherwise forwards with `DELETE` as attempted.
pub fn delete<H>() -> (r: Filter<H>)
    ensures
        r == Filter::<H>::Method(Method::Delete),
{
    Filter::Method(Method::Delete)
}

/// Succeeds on a `HEAD` request; otherwise forwards with `HEAD` as attempted.
pub fn head<H>() -> (r: Filter<H>)
    ensures
        r == Filter::<H>::Method(Method::Head),
{
    Filter::Method(Method::Head)
}

/// Succeeds on an `OPTIONS` request; otherwise forwards with `OPTIONS` as attempted.
pub fn options<H>() -> (r: Filter<H>)
    ensures
        r == Filter::<H>::Method(Method::Options),
{
    Filter::Method(Method::Options)
}

/// Succeeds on a `CONNECT` request; otherwise forwards with `CONNECT` as attempted.
pub fn connect<H>() -> (r: Filter<H>)
    ensures
        r == Filter::<H>::Method(Method::Connect),
{
    Filter::Method(Method::Connect)
}

/// Succeeds on a `PATCH` request; otherwise forwards with `PATCH` as attempted.
pub fn patch<H>() -> (r: Filter<H>)
    ensures
        r == Filter::<H>::Method(Method::Patch),
{
    Filter::Method(Method::Patch)
}

/// Succeeds on a `TRACE` request; otherwise forwards with `TRACE` as attempted.
pub fn trace<H>() -> (r: Filter<H>)
    ensures
        r == Filter::<H>::Method(Method::Trace),
{
    Filter::Method(Method::Trace)
}

/// A filter taking the request method.
pub fn method<H>() -> (r: Filter<H>)
    ensures
        r is RequestMethod,
{
    Filter::RequestMethod
}

} // verus!
