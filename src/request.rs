//! The facts of a request, and the state that moves through the filters.
use vstd::prelude::*;
use crate::body::BytesBuf;
use crate::forward::Method;

verus! {

/// An ASCII letter in lower case; other bytes stay as they are.
pub open spec fn ascii_lower(b: u8) -> u8 {
    if 65 <= b <= 90 {
        (b + 32) as u8
    } else {
        b
    }
}

/// Header names compare without regard to ASCII case.
pub open spec fn same_name(a: Seq<u8>, b: Seq<u8>) -> bool {
    a.len() == b.len() && forall|i: int| 0 <= i < a.len() ==> ascii_lower(#[trigger] a[i]) == ascii_lower(b[i])
}

/// The headers as name and value bytes.
pub open spec fn header_views(hs: Seq<(Vec<u8>, Vec<u8>)>) -> Seq<(Seq<u8>, Seq<u8>)> {
    hs.map_values(|h: (Vec<u8>, Vec<u8>)| (h.0@, h.1@))
}

/// The value of the first header named `name`.
pub open spec fn header_lookup(hs: Seq<(Seq<u8>, Seq<u8>)>, name: Seq<u8>) -> Option<Seq<u8>>
    decreases hs.len(),
{
    if hs.len() == 0 {
        None
    } else if same_name(hs[0].0, name) {
        Some(hs[0].1)
    } else {
        header_lookup(hs.drop_first(), name)
    }
}

pub fn lower(b: u8) -> (r: u8)
    ensures
        r == ascii_lower(b),
{
    if 65 <= b && b <= 90 {
        b + 32
    } else {
        b
    }
}

pub fn names_match(a: &[u8], b: &[u8]) -> (r: bool)
    ensures
        r == same_name(a@, b@),
{
    if a.len() != b.len() {
        return false;
    }
    let mut i: usize = 0;
    while i < a.len()
        invariant
            a@.len() == b@.len(),
            0 <= i <= a@.len(),
            forall|j: int| 0 <= j < i ==> ascii_lower(#[trigger] a@[j]) == ascii_lower(b@[j]),
        decreases a@.len() - i,
    {
        if lower(a[i]) != lower(b[i]) {
            return false;
        }
        i += 1;
    }
    true
}

/// The HTTP version of a request.
#[derive(Clone, Copy, Debug, PartialEq, Eq, Structural)]
pub enum Version {
    Http09,
    Http10,
    Http11,
    Http2,
    Http3,
}

/// An IP address, as its number.
#[derive(Clone, Copy, Debug, PartialEq, Eq, Structural)]
pub enum IpAddr {
    V4(u32),
    V6(u128),
}

/// The address of the client: IP address and port.
#[derive(Clone, Copy, Debug, PartialEq, Eq, Structural)]
pub struct RemoteAddr {
    pub ip: IpAddr,
    pub port: u16,
}

/// What a request says about itself; shared, never changed while it is resolved.
#[derive(Debug)]
pub struct Request {
    pub method: Method,
    /// The path of the request URI, as bytes.
    pub path: Vec<u8>,
    /// The query of the request URI, as bytes, if it has one.
    pub query: Option<Vec<u8>>,
    pub version: Version,
    /// The headers in the order they came, as name and value bytes.
    pub headers: Vec<(Vec<u8>, Vec<u8>)>,
    pub remote_addr: RemoteAddr,
}

/// The name of the `Content-Length` header.
pub open spec fn content_length_name() -> Seq<u8> {
    seq![99u8, 111, 110, 116, 101, 110, 116, 45, 108, 101, 110, 103, 116, 104]
}

pub fn content_length_header() -> (r: Vec<u8>)
    ensures
        r@ == content_length_name(),
{
    let r = vec![99u8, 111, 110, 116, 101, 110, 116, 45, 108, 101, 110, 103, 116, 104];
    assert(r@ =~= content_length_name());
    r
}

impl Request {
    /// The head was checked by the transport: a `Content-Length`, if present,
    /// is a decimal number that fits a `usize`.
    pub open spec fn wf(&self) -> bool {
        match header_lookup(header_views(self.headers@), content_length_name()) {
            Some(v) => crate::body::spec_parse_usize(v) is Some,
            None => true,
        }
    }

    /// A request from its head, over HTTP/1.1, with no query, from
    /// `0.0.0.0:0`; `None` when its `Content-Length` is malformed.
    pub fn new(method: Method, path: Vec<u8>, headers: Vec<(Vec<u8>, Vec<u8>)>) -> (r: Option<Request>)
        ensures
            r is Some <==> match header_lookup(header_views(headers@), content_length_name()) {
                Some(v) => crate::body::spec_parse_usize(v) is Some,
                None => true,
            },
            r matches Some(req) ==> req.wf() && req.method == method && req.path == path && req.headers == headers
                && req.query is None && req.version == Version::Http11
                && req.remote_addr == (RemoteAddr { ip: IpAddr::V4(0), port: 0 }),
    {
        let req = Request {
            method,
            path,
            query: None,
            version: Version::Http11,
            headers,
            remote_addr: RemoteAddr { ip: IpAddr::V4(0), port: 0 },
        };
        let name = content_length_header();
        match req.header(name.as_slice()) {
            Some(v) => {
                if crate::body::parse_usize(v).is_some() {
                    Some(req)
                } else {
                    None
                }
            },
            None => Some(req),
        }
    }

    /// The same request with the query `query`.
    pub fn with_query(self, query: Vec<u8>) -> (r: Request)
        ensures
            r.query == Some(query),
            r.method == self.method && r.path == self.path && r.version == self.version,
            r.headers == self.headers && r.remote_addr == self.remote_addr,
    {
        Request { query: Some(query), ..self }
    }

    /// The same request over `version`.
    pub fn with_version(self, version: Version) -> (r: Request)
        ensures
            r.version == version,
            r.method == self.method && r.path == self.path && r.query == self.query,
            r.headers == self.headers && r.remote_addr == self.remote_addr,
    {
        Request { version, ..self }
    }

    /// The same request from `remote_addr`.
    pub fn with_remote_addr(self, remote_addr: RemoteAddr) -> (r: Request)
        ensures
            r.remote_addr == remote_addr,
            r.method == self.method && r.path == self.path && r.query == self.query,
            r.headers == self.headers && r.version == self.version,
    {
        Request { remote_addr, ..self }
    }

    /// The full request path.
    pub fn full_path(&self) -> (r: &[u8])
        ensures
            r@ == self.path@,
    {
        self.path.as_slice()
    }

    /// The value of the first header named `name` (in any ASCII case).
    pub fn header(&self, name: &[u8]) -> (r: Option<&[u8]>)
        ensures
            r.is_some() == header_lookup(header_views(self.headers@), name@).is_some(),
            r.is_some() ==> r.unwrap()@ == header_lookup(header_views(self.headers@), name@).unwrap(),
    {
        let ghost hs = header_views(self.headers@);
        let mut i: usize = 0;
        assert(hs.subrange(0, hs.len() as int) =~= hs);
        while i < self.headers.len()
            invariant
                0 <= i <= self.headers@.len(),
                hs == header_views(self.headers@),
                header_lookup(hs.subrange(i as int, hs.len() as int), name@) == header_lookup(hs, name@),
            decreases self.headers@.len() - i,
        {
            let h = &self.headers[i];
            proof {
                let rest = hs.subrange(i as int, hs.len() as int);
                assert(rest[0] == hs[i as int]);
                assert(rest.drop_first() =~= hs.subrange(i + 1, hs.len() as int));
            }
            if names_match(h.0.as_slice(), name) {
                return Some(h.1.as_slice());
            }
            i += 1;
        }
        None
    }
}

/// Where the request body stands.
#[derive(Debug)]
pub enum BodyState {
    /// The transport delivered the whole body.
    Finished(BytesBuf),
    /// The transport failed while delivering the body; `reported` is set once
    /// a filter has seen the failure.
    Failed { reported: bool },
}

impl BodyState {
    pub open spec fn wf(&self) -> bool {
        match self {
            BodyState::Finished(b) => b.wf(),
            BodyState::Failed { .. } => true,
        }
    }
}

/// The state that moves through the filters: how much of the path was
/// consumed, and the body.
#[derive(Debug)]
pub struct RequestState {
    /// Byte offset into the request path: everything before it is consumed.
    pub current_path_index: usize,
    pub body: BodyState,
}

impl RequestState {
    /// The cursor lies inside the path and the body is well formed.
    pub open spec fn wf(&self, request: &Request) -> bool {
        self.current_path_index <= request.path@.len() && self.body.wf()
    }

    /// The path that is left.
    pub open spec fn spec_current_path(&self, request: &Request) -> Seq<u8> {
        request.path@.subrange(self.current_path_index as int, request.path@.len() as int)
    }

    /// The path that was consumed.
    pub open spec fn spec_previous_path(&self, request: &Request) -> Seq<u8> {
        request.path@.subrange(0, self.current_path_index as int)
    }

    /// A fresh state for a request whose body the transport delivered.
    pub fn new(body: BytesBuf) -> (r: RequestState)
        requires
            body.wf(),
        ensures
            r.current_path_index == 0,
            r.body == BodyState::Finished(body),
    {
        RequestState { current_path_index: 0, body: BodyState::Finished(body) }
    }

    /// A fresh state for a request whose body could not be read.
    pub fn with_failed_body() -> (r: RequestState)
        ensures
            r.current_path_index == 0,
            r.body == (BodyState::Failed { reported: false }),
    {
        RequestState { current_path_index: 0, body: BodyState::Failed { reported: false } }
    }

    pub fn current_path<'a>(&self, request: &'a Request) -> (r: &'a [u8])
        requires
            self.wf(request),
        ensures
            r@ == self.spec_current_path(request),
    {
        vstd::slice::slice_subrange(request.path.as_slice(), self.current_path_index, request.path.len())
    }

    pub fn previous_path<'a>(&self, request: &'a Request) -> (r: &'a [u8])
        requires
            self.wf(request),
        ensures
            r@ == self.spec_previous_path(request),
    {
        vstd::slice::slice_subrange(request.path.as_slice(), 0, self.current_path_index)
    }

    /// Moves the cursor `n` bytes on.
    pub fn incr_current_path_index(&mut self, n: usize)
        requires
            old(self).current_path_index + n <= usize::MAX,
        ensures
            final(self).current_path_index == old(self).current_path_index + n,
            final(self).body == old(self).body,
    {
        self.current_path_index = self.current_path_index + n;
    }

    /// Moves the cursor to the end of the path.
    pub fn end_current_path_index(&mut self, request: &Request)
        ensures
            final(self).current_path_index == request.path@.len(),
            final(self).body == old(self).body,
    {
        self.current_path_index = request.path.len();
    }
}

} // verus!
