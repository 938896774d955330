//! Security policies.
pub mod hsts;
pub mod origin;

use vstd::prelude::*;
use crate::filter::Filter;

verus! {

/// `x-content-type-options`
pub open spec fn x_content_type_options_name() -> Seq<u8> {
    seq![120u8, 45, 99, 111, 110, 116, 101, 110, 116, 45, 116, 121, 112, 101, 45, 111, 112, 116, 105, 111, 110, 115]
}

/// `nosniff`
pub open spec fn nosniff() -> Seq<u8> {
    seq![110u8, 111, 115, 110, 105, 102, 102]
}

/// A filter setting `X-Content-Type-Options: nosniff` on the response it
/// gets as input.
pub fn x_content_type_options<H>() -> (r: Filter<H>)
    ensures
        r matches Filter::SetHeader(n, v) && n@ == x_content_type_options_name() && v@ == nosniff(),
{
    let n = vec![120u8, 45, 99, 111, 110, 116, 101, 110, 116, 45, 116, 121, 112, 101, 45, 111, 112, 116, 105, 111, 110, 115];
    let v = vec![110u8, 111, 115, 110, 105, 102, 102];
    assert(n@ =~= x_content_type_options_name());
    assert(v@ =~= nosniff());
    Filter::SetHeader(n, v)
}

} // verus!
