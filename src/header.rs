//! Filters on request headers.
use vstd::prelude::*;
use crate::filter::Filter;
use crate::security::origin::{is_header_name, lower_name};

verus! {

/// A filter taking the value of the first header named `name` (in any ASCII
/// case); it forwards as not found when there is none.
pub fn value<H>(name: &str) -> (r: Filter<H>)
    requires
        is_header_name(vstd::utf8::encode_utf8(name@)),
    ensures
        r matches Filter::Header(n) && n@ == lower_name(vstd::utf8::encode_utf8(name@)),
{
    Filter::Header(crate::security::origin::lowercase(name.as_bytes()))
}

} // verus!
