//! Conditional requests.
use vstd::prelude::*;
use crate::errors::FilterError;
use crate::filter::Filter;
use crate::forward::{Forwarding, Method};
use crate::outcome::Outcome;
use crate::request::{header_lookup, header_views, Request};
use crate::response::Response;
use crate::values::{Tuple, Value};

verus! {

/// `if-modified-since`
pub open spec fn if_modified_since_name() -> Seq<u8> {
    seq![105u8, 102, 45, 109, 111, 100, 105, 102, 105, 101, 100, 45, 115, 105, 110, 99, 101]
}

fn if_modified_since_bytes() -> (r: Vec<u8>)
    ensures
        r@ == if_modified_since_name(),
{
    let r = vec![105u8, 102, 45, 109, 111, 100, 105, 102, 105, 101, 100, 45, 115, 105, 110, 99, 101];
    assert(r@ =~= if_modified_since_name());
    r
}

/// The time an HTTP date names, in whole seconds since the Unix epoch.
pub uninterp spec fn http_date_seconds(b: Seq<u8>) -> Option<u64>;

/// Relies on `httpdate::parse_http_date` (after `std::str::from_utf8`): the
/// date depends on the bytes alone; it is handed back as whole seconds since
/// the Unix epoch.
#[verifier::external_body]
fn parse_http_date(b: &[u8]) -> (r: Option<u64>)
    ensures
        r == http_date_seconds(b@),
{
    std::str::from_utf8(b)
        .ok()
        .and_then(|s| httpdate::parse_http_date(s).ok())
        .and_then(|t| t.duration_since(std::time::UNIX_EPOCH).ok())
        .map(|d| d.as_secs())
}

/// The input of the conditional filter: one time, the last modification.
pub open spec fn modified_time(input: Seq<Value>) -> Option<u64> {
    if input.len() == 1 && input[0] is Time {
        Some(input[0]->Time_0)
    } else {
        None
    }
}

/// A filter answering 304 Not Modified to a `GET` or `HEAD` whose
/// `If-Modified-Since` date is later than the modification time it gets as
/// input; it forwards otherwise, and fails on a date it cannot read.
pub fn if_unmodified_since<H>() -> (r: Filter<H>)
    ensures
        r is IfUnmodifiedSince,
{
    Filter::IfUnmodifiedSince
}

/// What the conditional step does.
pub open spec fn if_unmodified_result(request: Request, input: Seq<Value>, o: Outcome) -> bool {
    let h = header_lookup(header_views(request.headers@), if_modified_since_name());
    let m = modified_time(input);
    if !(request.method == Method::Get || request.method == Method::Head) || h is None || m is None {
        o.is_forward_of(input, Forwarding::NotFound)
    } else if !crate::security::origin::visible(h.unwrap()) || http_date_seconds(h.unwrap()) is None {
        o matches Outcome::Error(FilterError::InvalidIfUnmodifiedSince { value }) && value@ == h.unwrap()
    } else if http_date_seconds(h.unwrap()).unwrap() > m.unwrap() {
        o matches Outcome::Success(t) && t@.len() == 1 && (t@[0] matches Value::Response(x) && x.status == 304
            && x.headers@.len() == 0 && x.body@.len() == 0)
    } else {
        o.is_forward_of(input, Forwarding::NotFound)
    }
}

/// The conditional step itself.
pub fn match_if_unmodified_since(request: &Request, input: Tuple) -> (o: Outcome)
    ensures
        if_unmodified_result(*request, input@, o),
{
    let modified: Option<u64> = if input.len() == 1 {
        match &input.items[0] {
            Value::Time(t) => Some(*t),
            _ => None,
        }
    } else {
        None
    };
    let not_found = Outcome::Forward { input, forwarding: Forwarding::NotFound };
    if !(request.method == Method::Get || request.method == Method::Head) {
        return not_found;
    }
    let modified = match modified {
        Some(t) => t,
        None => return not_found,
    };
    let name = if_modified_since_bytes();
    match request.header(name.as_slice()) {
        None => not_found,
        Some(value) => {
            let parsed = if crate::security::origin::is_visible(value) {
                parse_http_date(value)
            } else {
                None
            };
            match parsed {
                None => Outcome::Error(FilterError::InvalidIfUnmodifiedSince { value: vstd::slice::slice_to_vec(value) }),
                Some(cached) => {
                    if cached > modified {
                        Outcome::Success(Tuple::one(Value::Response(Response::with_status(304))))
                    } else {
                        not_found
                    }
                },
            }
        },
    }
}

} // verus!
