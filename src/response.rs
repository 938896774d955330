//! Responses handed back to the transport.
use vstd::prelude::*;
use crate::forward::{allow_value, Forwarding};
use crate::outcome::Outcome;
use crate::values::Value;

verus! {

/// A response: status code, headers (name and value bytes) and body bytes.
#[derive(Debug)]
pub struct Response {
    pub status: u16,
    pub headers: Vec<(Vec<u8>, Vec<u8>)>,
    pub body: Vec<u8>,
}

/// The headers without those named `name` (in any ASCII case).
pub open spec fn without_name(hs: Seq<(Seq<u8>, Seq<u8>)>, name: Seq<u8>) -> Seq<(Seq<u8>, Seq<u8>)>
    decreases hs.len(),
{
    if hs.len() == 0 {
        hs
    } else if crate::request::same_name(hs.last().0, name) {
        without_name(hs.drop_last(), name)
    } else {
        without_name(hs.drop_last(), name).push(hs.last())
    }
}

impl Response {
    /// A response with `status`, no headers and an empty body.
    pub fn with_status(status: u16) -> (r: Response)
        ensures
            r.status == status,
            r.headers@.len() == 0,
            r.body@.len() == 0,
    {
        Response { status, headers: Vec::new(), body: Vec::new() }
    }

    /// Adds a header after the existing ones.
    pub fn add_header(self, name: Vec<u8>, value: Vec<u8>) -> (r: Response)
        ensures
            r.status == self.status,
            r.body == self.body,
            r.headers@ == self.headers@.push((name, value)),
    {
        let mut headers = self.headers;
        headers.push((name, value));
        Response { status: self.status, headers, body: self.body }
    }

    /// Sets a header: existing headers of that name (in any ASCII case) are
    /// removed, and the new one goes last.
    pub fn set_header(self, name: Vec<u8>, value: Vec<u8>) -> (r: Response)
        ensures
            r.status == self.status,
            r.body == self.body,
            crate::request::header_views(r.headers@) == without_name(crate::request::header_views(self.headers@), name@).push(
                (name@, value@),
            ),
    {
        let ghost hs = crate::request::header_views(self.headers@);
        let mut kept: Vec<(Vec<u8>, Vec<u8>)> = Vec::new();
        let mut old_headers = self.headers;
        let mut i: usize = 0;
        while i < old_headers.len()
            invariant
                0 <= i <= old_headers@.len(),
                hs == crate::request::header_views(old_headers@),
                crate::request::header_views(kept@) == without_name(hs.subrange(0, i as int), name@),
            decreases old_headers@.len() - i,
        {
            let same = crate::request::names_match(old_headers[i].0.as_slice(), name.as_slice());
            proof {
                assert(hs.subrange(0, i + 1).drop_last() =~= hs.subrange(0, i as int));
                assert(hs.subrange(0, i + 1).last() == hs[i as int]);
            }
            if !same {
                let ghost before = kept@;
                let h = (old_headers[i].0.clone(), old_headers[i].1.clone());
                assert(h.0@ =~= old_headers@[i as int].0@);
                assert(h.1@ =~= old_headers@[i as int].1@);
                kept.push(h);
                assert(crate::request::header_views(kept@) =~= crate::request::header_views(before).push(hs[i as int]));
            }
            i += 1;
        }
        assert(hs.subrange(0, hs.len() as int) =~= hs);
        let ghost before = kept@;
        kept.push((name, value));
        assert(crate::request::header_views(kept@) =~= crate::request::header_views(before).push((name@, value@)));
        Response { status: self.status, headers: kept, body: self.body }
    }

    /// A second response holding the same data.
    pub fn duplicate(&self) -> (r: Response)
        ensures
            r.status == self.status,
            crate::request::header_views(r.headers@) == crate::request::header_views(self.headers@),
            r.body@ == self.body@,
    {
        let mut headers: Vec<(Vec<u8>, Vec<u8>)> = Vec::new();
        let mut i: usize = 0;
        while i < self.headers.len()
            invariant
                0 <= i <= self.headers@.len(),
                headers@.len() == i,
                forall|j: int| 0 <= j < i ==> (#[trigger] headers@[j]).0@ == self.headers@[j].0@
                    && headers@[j].1@ == self.headers@[j].1@,
            decreases self.headers@.len() - i,
        {
            let name = self.headers[i].0.clone();
            let value = self.headers[i].1.clone();
            assert(name@ =~= self.headers@[i as int].0@);
            assert(value@ =~= self.headers@[i as int].1@);
            headers.push((name, value));
            i += 1;
        }
        assert(crate::request::header_views(headers@) =~= crate::request::header_views(self.headers@));
        let body = self.body.clone();
        assert(body@ =~= self.body@);
        Response { status: self.status, headers, body }
    }
}

/// `content-type`
pub open spec fn content_type_name() -> Seq<u8> {
    seq![99u8, 111, 110, 116, 101, 110, 116, 45, 116, 121, 112, 101]
}

/// `text/plain; charset=utf-8`
pub open spec fn text_plain() -> Seq<u8> {
    seq![116u8, 101, 120, 116, 47, 112, 108, 97, 105, 110, 59, 32, 99, 104, 97, 114, 115, 101, 116, 61, 117, 116, 102, 45, 56]
}

/// `application/octet-stream`
pub open spec fn octet_stream() -> Seq<u8> {
    seq![97u8, 112, 112, 108, 105, 99, 97, 116, 105, 111, 110, 47, 111, 99, 116, 101, 116, 45, 115, 116, 114, 101, 97, 109]
}

/// `allow`
pub open spec fn allow_name() -> Seq<u8> {
    seq![97u8, 108, 108, 111, 119]
}

pub fn content_type_header() -> (r: Vec<u8>)
    ensures
        r@ == content_type_name(),
{
    let r = vec![99u8, 111, 110, 116, 101, 110, 116, 45, 116, 121, 112, 101];
    assert(r@ =~= content_type_name());
    r
}

pub fn text_plain_value() -> (r: Vec<u8>)
    ensures
        r@ == text_plain(),
{
    let r = vec![116u8, 101, 120, 116, 47, 112, 108, 97, 105, 110, 59, 32, 99, 104, 97, 114, 115, 101, 116, 61, 117, 116, 102, 45, 56];
    assert(r@ =~= text_plain());
    r
}

fn octet_stream_value() -> (r: Vec<u8>)
    ensures
        r@ == octet_stream(),
{
    let r = vec![97u8, 112, 112, 108, 105, 99, 97, 116, 105, 111, 110, 47, 111, 99, 116, 101, 116, 45, 115, 116, 114, 101, 97, 109];
    assert(r@ =~= octet_stream());
    r
}

fn allow_header() -> (r: Vec<u8>)
    ensures
        r@ == allow_name(),
{
    let r = vec![97u8, 108, 108, 111, 119];
    assert(r@ =~= allow_name());
    r
}

/// The response a value stands for: a response as it is; text as a 200
/// `text/plain` response; bytes as a 200 `application/octet-stream` response;
/// any other value is no response, and gives a 500.
pub fn value_response(v: Value) -> (r: Response)
    ensures
        match v {
            Value::Response(x) => r == x,
            Value::Text(t) => r.status == 200 && r.body@ == vstd::utf8::encode_utf8(t@) && r.headers@.len() == 1
                && r.headers@[0].0@ == content_type_name() && r.headers@[0].1@ == text_plain(),
            Value::Bytes(b) => r.status == 200 && r.body@ == b@ && r.headers@.len() == 1
                && r.headers@[0].0@ == content_type_name() && r.headers@[0].1@ == octet_stream(),
            _ => r.status == 500,
        },
{
    match v {
        Value::Response(x) => x,
        Value::Text(t) => {
            let body = vstd::slice::slice_to_vec(t.as_str().as_bytes());
            let r = Response { status: 200, headers: Vec::new(), body };
            r.add_header(content_type_header(), text_plain_value())
        },
        Value::Bytes(b) => {
            let r = Response { status: 200, headers: Vec::new(), body: b };
            r.add_header(content_type_header(), octet_stream_value())
        },
        _ => Response::with_status(500),
    }
}

impl Forwarding {
    /// The response when nothing matched: the default 404, or the default 405
    /// with an `Allow` header listing the attempted methods.
    pub fn into_response(self) -> (r: Response)
        ensures
            self is NotFound ==> r.status == 404,
            self matches Forwarding::MethodNotAllowed(a) ==> r.status == 405
                && crate::request::header_views(r.headers@).last() == (allow_name(), allow_value(a)),
    {
        match self {
            Forwarding::NotFound => default_response(404),
            Forwarding::MethodNotAllowed(a) => default_response(405).set_header(allow_header(), a.into_header_value()),
        }
    }
}

/// The response for the outcome of a whole resolution: a success of one value
/// is that value's response; an error or a forward gets its default
/// response; a success of any other shape is a 500.
pub fn outcome_response(o: Outcome) -> (r: Response)
    ensures
        match o {
            Outcome::Success(t) => t@.len() != 1 ==> r.status == 500,
            Outcome::Forward { forwarding: Forwarding::NotFound, .. } => r.status == 404,
            Outcome::Forward { forwarding: Forwarding::MethodNotAllowed(_), .. } => r.status == 405,
            Outcome::Error(e) => r.status == match e {
                crate::errors::FilterError::Redirect(_) => 308u16,
                crate::errors::FilterError::ContentLength(_) => 413u16,
                crate::errors::FilterError::InvalidIfUnmodifiedSince { .. } => 400u16,
                _ => 500u16,
            },
        },
{
    match o {
        Outcome::Success(t) => {
            if t.len() == 1 {
                value_response(t.into_inner())
            } else {
                Response::with_status(500)
            }
        },
        Outcome::Error(e) => e.into_response(),
        Outcome::Forward { forwarding, .. } => forwarding.into_response(),
    }
}

/// The reason phrase that HTTP gives a status code, if it gives one.
pub uninterp spec fn reason_phrase(status: u16) -> Option<Seq<char>>;

/// Relies on `hyper::StatusCode::from_u16` and `canonical_reason`: the phrase
/// depends on the code alone.
#[verifier::external_body]
fn canonical_reason(status: u16) -> (r: Option<String>)
    ensures
        match r {
            Some(p) => reason_phrase(status) == Some(p@),
            None => reason_phrase(status) is None,
        },
{
    hyper::StatusCode::from_u16(status).ok().and_then(|c| c.canonical_reason()).map(|p| p.to_owned())
}

/// The default response for a status: its reason phrase as plain text (no
/// body and no header when the code has no phrase).
pub fn default_response(status: u16) -> (r: Response)
    ensures
        r.status == status,
        match reason_phrase(status) {
            Some(p) => r.body@ == vstd::utf8::encode_utf8(p) && crate::request::header_views(r.headers@) == seq![
                (content_type_name(), text_plain()),
            ],
            None => r.body@.len() == 0 && r.headers@.len() == 0,
        },
{
    match canonical_reason(status) {
        Some(p) => {
            let body = vstd::slice::slice_to_vec(p.as_str().as_bytes());
            let r = Response { status, headers: Vec::new(), body };
            let r = r.add_header(content_type_header(), text_plain_value());
            assert(crate::request::header_views(r.headers@) =~= seq![(content_type_name(), text_plain())]);
            r
        },
        None => Response::with_status(status),
    }
}

/// `text/html; charset=utf-8`
pub open spec fn text_html() -> Seq<u8> {
    seq![116u8, 101, 120, 116, 47, 104, 116, 109, 108, 59, 32, 99, 104, 97, 114, 115, 101, 116, 61, 117, 116, 102, 45, 56]
}

/// The response of a value, marked as HTML.
pub fn html(v: Value) -> (r: Response)
    ensures
        crate::request::header_views(r.headers@).last() == (content_type_name(), text_html()),
{
    let value = vec![116u8, 101, 120, 116, 47, 104, 116, 109, 108, 59, 32, 99, 104, 97, 114, 115, 101, 116, 61, 117, 116, 102, 45, 56];
    assert(value@ =~= text_html());
    value_response(v).set_header(content_type_header(), value)
}

} // verus!
