//! Cross-origin resource sharing: which origins, methods and headers a
//! resource admits.
use vstd::prelude::*;
use crate::filter::Filter;
use crate::forward::Method;
use crate::request::{header_lookup, header_views, same_name, Request};
use crate::outcome::{Outcome, RequestOutcome};
use crate::response::{without_name, Response};
use crate::values::{Tuple, Value};
use crate::security::hsts::decimal;

verus! {

/// A byte that may appear in a header name (an RFC 7230 token character).
pub open spec fn is_token_byte(b: u8) -> bool {
    ||| (48 <= b <= 57)
    ||| (65 <= b <= 90)
    ||| (97 <= b <= 122)
    ||| b == 33 || b == 35 || b == 36 || b == 37 || b == 38 || b == 39 || b == 42 || b == 43
    ||| b == 45 || b == 46 || b == 94 || b == 95 || b == 96 || b == 124 || b == 126
}

/// A valid header name: a non-empty run of token characters.
pub open spec fn is_header_name(s: Seq<u8>) -> bool {
    s.len() > 0 && forall|i: int| 0 <= i < s.len() ==> is_token_byte(#[trigger] s[i])
}

/// A header name in its normal form, lower case.
pub open spec fn lower_name(s: Seq<u8>) -> Seq<u8> {
    s.map_values(|b: u8| crate::request::ascii_lower(b))
}

pub fn lowercase(s: &[u8]) -> (r: Vec<u8>)
    ensures
        r@ == lower_name(s@),
{
    let mut r: Vec<u8> = Vec::new();
    let mut i: usize = 0;
    while i < s.len()
        invariant
            0 <= i <= s@.len(),
            r@ == lower_name(s@.subrange(0, i as int)),
        decreases s@.len() - i,
    {
        let b = s[i];
        let l: u8 = if 65 <= b && b <= 90 { b + 32 } else { b };
        r.push(l);
        i += 1;
        assert(lower_name(s@.subrange(0, i as int)) =~= lower_name(s@.subrange(0, i - 1)).push(l));
    }
    assert(s@.subrange(0, s@.len() as int) =~= s@);
    r
}

fn contains_bytes(list: &Vec<Vec<u8>>, item: &Vec<u8>) -> (r: bool)
    ensures
        r == exists|i: int| 0 <= i < list@.len() && (#[trigger] list@[i])@ == item@,
{
    let mut i: usize = 0;
    while i < list.len()
        invariant
            0 <= i <= list@.len(),
            forall|j: int| 0 <= j < i ==> (#[trigger] list@[j])@ != item@,
        decreases list@.len() - i,
    {
        if bytes_eq(list[i].as_slice(), item.as_slice()) {
            return true;
        }
        i += 1;
    }
    false
}

fn bytes_eq(a: &[u8], b: &[u8]) -> (r: bool)
    ensures
        r == (a@ == b@),
{
    if a.len() != b.len() {
        return false;
    }
    let mut i: usize = 0;
    while i < a.len()
        invariant
            a@.len() == b@.len(),
            0 <= i <= a@.len(),
            forall|j: int| 0 <= j < i ==> a@[j] == b@[j],
        decreases a@.len() - i,
    {
        if a[i] != b[i] {
            return false;
        }
        i += 1;
    }
    assert(a@ =~= b@);
    true
}

/// The views of a list of byte strings.
pub open spec fn byte_views(v: Seq<Vec<u8>>) -> Seq<Seq<u8>> {
    v.map_values(|x: Vec<u8>| x@)
}

/// A list grown by `item`, unless it already holds it.
pub open spec fn add_unique<T>(list: Seq<T>, item: T) -> Seq<T> {
    if list.contains(item) {
        list
    } else {
        list.push(item)
    }
}

/// Whether `origin` is one of the listed origins (compared as bytes).
pub open spec fn origin_listed(list: Seq<String>, origin: Seq<u8>) -> bool {
    exists|i: int| 0 <= i < list.len() && vstd::utf8::encode_utf8((#[trigger] list[i])@) == origin
}

/// The CORS policy of a resource. By default nothing is admitted: no origin,
/// no method, no header, no credentials, no max age.
#[derive(Debug)]
pub struct Config {
    /// The admitted origins; `None` admits any origin.
    pub origins: Option<Vec<String>>,
    /// The admitted methods, each once.
    pub methods: Vec<Method>,
    /// The admitted request headers, lower case, each once.
    pub allow_headers: Vec<Vec<u8>>,
    /// The headers exposed to the client, lower case, each once.
    pub expose_headers: Vec<Vec<u8>>,
    /// How long a client may cache a preflight, in whole seconds.
    pub max_age: Option<u64>,
    pub credentials: bool,
}

/// Whether `origin` is admitted by `config`.
pub enum OriginCheck {
    /// It is one of the listed origins.
    Allowed,
    /// Origins are listed and it is not one of them.
    Disallowed,
    /// Any origin is admitted.
    Any,
}

impl Config {
    /// The strictest policy: nothing admitted.
    pub fn new() -> (r: Config)
        ensures
            r.origins matches Some(o) && o@.len() == 0,
            r.methods@.len() == 0,
            r.allow_headers@.len() == 0,
            r.expose_headers@.len() == 0,
            r.max_age is None,
            !r.credentials,
    {
        Config {
            origins: Some(Vec::new()),
            methods: Vec::new(),
            allow_headers: Vec::new(),
            expose_headers: Vec::new(),
            max_age: None,
            credentials: false,
        }
    }

    /// Admits one more origin; after `any_origin`, starts a list again.
    pub fn origin(self, origin: &str) -> (r: Config)
        ensures
            r.origins matches Some(o) && o@.len() == (match self.origins {
                Some(p) => p@.len() + 1,
                None => 1,
            }) && o@.last()@ == origin@ && (self.origins matches Some(p) ==> forall|i: int|
                0 <= i < p@.len() ==> #[trigger] o@[i] == p@[i]),
            r.methods == self.methods,
            r.allow_headers == self.allow_headers,
            r.expose_headers == self.expose_headers,
            r.max_age == self.max_age,
            r.credentials == self.credentials,
    {
        let mut list = match self.origins {
            Some(list) => list,
            None => Vec::new(),
        };
        list.push(origin.to_owned());
        Config {
            origins: Some(list),
            methods: self.methods,
            allow_headers: self.allow_headers,
            expose_headers: self.expose_headers,
            max_age: self.max_age,
            credentials: self.credentials,
        }
    }

    /// Admits any origin, dropping the list.
    pub fn any_origin(self) -> (r: Config)
        ensures
            r.origins is None,
            r.methods == self.methods,
            r.allow_headers == self.allow_headers,
            r.expose_headers == self.expose_headers,
            r.max_age == self.max_age,
            r.credentials == self.credentials,
    {
        Config { origins: None, ..self }
    }

    /// Admits a method (once); `OPTIONS` is the preflight itself and cannot be
    /// admitted.
    pub fn method(self, method: Method) -> (r: Config)
        requires
            method != Method::Options,
        ensures
            r.methods@ == add_unique(self.methods@, method),
            r.origins == self.origins,
            r.allow_headers == self.allow_headers,
            r.expose_headers == self.expose_headers,
            r.max_age == self.max_age,
            r.credentials == self.credentials,
    {
        let mut methods = self.methods;
        let mut i: usize = 0;
        let mut found = false;
        while i < methods.len()
            invariant
                0 <= i <= methods@.len(),
                found == exists|j: int| 0 <= j < i && methods@[j] == method,
            decreases methods@.len() - i,
        {
            if methods[i] == method {
                found = true;
            }
            i += 1;
        }
        if !found {
            methods.push(method);
        }
        Config { methods, ..self }
    }

    /// Admits a request header (once), kept in lower case.
    pub fn allow_header(self, header_name: &str) -> (r: Config)
        requires
            is_header_name(vstd::utf8::encode_utf8(header_name@)),
        ensures
            byte_views(r.allow_headers@) == add_unique(byte_views(self.allow_headers@), lower_name(vstd::utf8::encode_utf8(header_name@))),
            r.origins == self.origins,
            r.methods == self.methods,
            r.expose_headers == self.expose_headers,
            r.max_age == self.max_age,
            r.credentials == self.credentials,
    {
        let name = lowercase(header_name.as_bytes());
        let mut list = self.allow_headers;
        let ghost before = list@;
        let present = contains_bytes(&list, &name);
        proof {
            assert(byte_views(before).contains(name@) == present) by {
                if present {
                    let i = choose|i: int| 0 <= i < before.len() && (#[trigger] before[i])@ == name@;
                    assert(byte_views(before)[i] == name@);
                }
            }
        }
        if !present {
            list.push(name);
            assert(byte_views(list@) =~= byte_views(before).push(name@));
        }
        Config { allow_headers: list, ..self }
    }

    /// Exposes a response header (once), kept in lower case.
    pub fn expose_header(self, header_name: &str) -> (r: Config)
        requires
            is_header_name(vstd::utf8::encode_utf8(header_name@)),
        ensures
            byte_views(r.expose_headers@) == add_unique(byte_views(self.expose_headers@), lower_name(vstd::utf8::encode_utf8(header_name@))),
            r.origins == self.origins,
            r.methods == self.methods,
            r.allow_headers == self.allow_headers,
            r.max_age == self.max_age,
            r.credentials == self.credentials,
    {
        let name = lowercase(header_name.as_bytes());
        let mut list = self.expose_headers;
        let ghost before = list@;
        let present = contains_bytes(&list, &name);
        proof {
            assert(byte_views(before).contains(name@) == present) by {
                if present {
                    let i = choose|i: int| 0 <= i < before.len() && (#[trigger] before[i])@ == name@;
                    assert(byte_views(before)[i] == name@);
                }
            }
        }
        if !present {
            list.push(name);
            assert(byte_views(list@) =~= byte_views(before).push(name@));
        }
        Config { expose_headers: list, ..self }
    }

    /// How long a preflight may be cached, in whole seconds.
    pub fn max_age(self, seconds: u64) -> (r: Config)
        ensures
            r.max_age == Some(seconds),
            r.origins == self.origins,
            r.methods == self.methods,
            r.allow_headers == self.allow_headers,
            r.expose_headers == self.expose_headers,
            r.credentials == self.credentials,
    {
        Config { max_age: Some(seconds), ..self }
    }

    /// Permits requests with credentials.
    pub fn credentials(self) -> (r: Config)
        ensures
            r.credentials,
            r.origins == self.origins,
            r.methods == self.methods,
            r.allow_headers == self.allow_headers,
            r.expose_headers == self.expose_headers,
            r.max_age == self.max_age,
    {
        Config { credentials: true, ..self }
    }

    /// Whether `origin` (the request's `Origin` value) is admitted.
    pub fn check_origin(&self, origin: &[u8]) -> (r: OriginCheck)
        ensures
            r == spec_check_origin(self.origins, origin@),
    {
        check_origin(&self.origins, origin)
    }
}

/// `origin`
pub open spec fn origin_name() -> Seq<u8> {
    seq![111u8, 114, 105, 103, 105, 110]
}

pub fn origin_name_bytes() -> (r: Vec<u8>)
    ensures
        r@ == origin_name(),
{
    let r = vec![111u8, 114, 105, 103, 105, 110];
    assert(r@ =~= origin_name());
    r
}

/// `vary`
pub open spec fn vary_name() -> Seq<u8> {
    seq![118u8, 97, 114, 121]
}

fn vary_name_bytes() -> (r: Vec<u8>)
    ensures
        r@ == vary_name(),
{
    let r = vec![118u8, 97, 114, 121];
    assert(r@ =~= vary_name());
    r
}

/// `access-control-allow-origin`
pub open spec fn acao_name() -> Seq<u8> {
    seq![97u8, 99, 99, 101, 115, 115, 45, 99, 111, 110, 116, 114, 111, 108, 45, 97, 108, 108, 111, 119, 45, 111, 114, 105, 103, 105, 110]
}

fn acao_name_bytes() -> (r: Vec<u8>)
    ensures
        r@ == acao_name(),
{
    let r = vec![97u8, 99, 99, 101, 115, 115, 45, 99, 111, 110, 116, 114, 111, 108, 45, 97, 108, 108, 111, 119, 45, 111, 114, 105, 103, 105, 110];
    assert(r@ =~= acao_name());
    r
}

/// `access-control-allow-methods`
pub open spec fn acam_name() -> Seq<u8> {
    seq![97u8, 99, 99, 101, 115, 115, 45, 99, 111, 110, 116, 114, 111, 108, 45, 97, 108, 108, 111, 119, 45, 109, 101, 116, 104, 111, 100, 115]
}

fn acam_name_bytes() -> (r: Vec<u8>)
    ensures
        r@ == acam_name(),
{
    let r = vec![97u8, 99, 99, 101, 115, 115, 45, 99, 111, 110, 116, 114, 111, 108, 45, 97, 108, 108, 111, 119, 45, 109, 101, 116, 104, 111, 100, 115];
    assert(r@ =~= acam_name());
    r
}

/// `access-control-allow-headers`
pub open spec fn acah_name() -> Seq<u8> {
    seq![97u8, 99, 99, 101, 115, 115, 45, 99, 111, 110, 116, 114, 111, 108, 45, 97, 108, 108, 111, 119, 45, 104, 101, 97, 100, 101, 114, 115]
}

fn acah_name_bytes() -> (r: Vec<u8>)
    ensures
        r@ == acah_name(),
{
    let r = vec![97u8, 99, 99, 101, 115, 115, 45, 99, 111, 110, 116, 114, 111, 108, 45, 97, 108, 108, 111, 119, 45, 104, 101, 97, 100, 101, 114, 115];
    assert(r@ =~= acah_name());
    r
}

/// `access-control-expose-headers`
pub open spec fn aceh_name() -> Seq<u8> {
    seq![97u8, 99, 99, 101, 115, 115, 45, 99, 111, 110, 116, 114, 111, 108, 45, 101, 120, 112, 111, 115, 101, 45, 104, 101, 97, 100, 101, 114, 115]
}

fn aceh_name_bytes() -> (r: Vec<u8>)
    ensures
        r@ == aceh_name(),
{
    let r = vec![97u8, 99, 99, 101, 115, 115, 45, 99, 111, 110, 116, 114, 111, 108, 45, 101, 120, 112, 111, 115, 101, 45, 104, 101, 97, 100, 101, 114, 115];
    assert(r@ =~= aceh_name());
    r
}

/// `access-control-allow-credentials`
pub open spec fn acac_name() -> Seq<u8> {
    seq![97u8, 99, 99, 101, 115, 115, 45, 99, 111, 110, 116, 114, 111, 108, 45, 97, 108, 108, 111, 119, 45, 99, 114, 101, 100, 101, 110, 116, 105, 97, 108, 115]
}

fn acac_name_bytes() -> (r: Vec<u8>)
    ensures
        r@ == acac_name(),
{
    let r = vec![97u8, 99, 99, 101, 115, 115, 45, 99, 111, 110, 116, 114, 111, 108, 45, 97, 108, 108, 111, 119, 45, 99, 114, 101, 100, 101, 110, 116, 105, 97, 108, 115];
    assert(r@ =~= acac_name());
    r
}

/// `access-control-max-age`
pub open spec fn acma_name() -> Seq<u8> {
    seq![97u8, 99, 99, 101, 115, 115, 45, 99, 111, 110, 116, 114, 111, 108, 45, 109, 97, 120, 45, 97, 103, 101]
}

fn acma_name_bytes() -> (r: Vec<u8>)
    ensures
        r@ == acma_name(),
{
    let r = vec![97u8, 99, 99, 101, 115, 115, 45, 99, 111, 110, 116, 114, 111, 108, 45, 109, 97, 120, 45, 97, 103, 101];
    assert(r@ =~= acma_name());
    r
}

/// `access-control-request-method`
pub open spec fn acrm_name() -> Seq<u8> {
    seq![97u8, 99, 99, 101, 115, 115, 45, 99, 111, 110, 116, 114, 111, 108, 45, 114, 101, 113, 117, 101, 115, 116, 45, 109, 101, 116, 104, 111, 100]
}

fn acrm_name_bytes() -> (r: Vec<u8>)
    ensures
        r@ == acrm_name(),
{
    let r = vec![97u8, 99, 99, 101, 115, 115, 45, 99, 111, 110, 116, 114, 111, 108, 45, 114, 101, 113, 117, 101, 115, 116, 45, 109, 101, 116, 104, 111, 100];
    assert(r@ =~= acrm_name());
    r
}

/// `access-control-request-headers`
pub open spec fn acrh_name() -> Seq<u8> {
    seq![97u8, 99, 99, 101, 115, 115, 45, 99, 111, 110, 116, 114, 111, 108, 45, 114, 101, 113, 117, 101, 115, 116, 45, 104, 101, 97, 100, 101, 114, 115]
}

fn acrh_name_bytes() -> (r: Vec<u8>)
    ensures
        r@ == acrh_name(),
{
    let r = vec![97u8, 99, 99, 101, 115, 115, 45, 99, 111, 110, 116, 114, 111, 108, 45, 114, 101, 113, 117, 101, 115, 116, 45, 104, 101, 97, 100, 101, 114, 115];
    assert(r@ =~= acrh_name());
    r
}

/// `Origin, Access-Control-Request-Method, Access-Control-Request-Headers`
pub open spec fn vary_listed() -> Seq<u8> {
    seq![79u8, 114, 105, 103, 105, 110, 44, 32, 65, 99, 99, 101, 115, 115, 45, 67, 111, 110, 116, 114, 111, 108, 45, 82, 101, 113, 117, 101, 115, 116, 45, 77, 101, 116, 104, 111, 100, 44, 32, 65, 99, 99, 101, 115, 115, 45, 67, 111, 110, 116, 114, 111, 108, 45, 82, 101, 113, 117, 101, 115, 116, 45, 72, 101, 97, 100, 101, 114, 115]
}

fn vary_listed_bytes() -> (r: Vec<u8>)
    ensures
        r@ == vary_listed(),
{
    let r = vec![79u8, 114, 105, 103, 105, 110, 44, 32, 65, 99, 99, 101, 115, 115, 45, 67, 111, 110, 116, 114, 111, 108, 45, 82, 101, 113, 117, 101, 115, 116, 45, 77, 101, 116, 104, 111, 100, 44, 32, 65, 99, 99, 101, 115, 115, 45, 67, 111, 110, 116, 114, 111, 108, 45, 82, 101, 113, 117, 101, 115, 116, 45, 72, 101, 97, 100, 101, 114, 115];
    assert(r@ =~= vary_listed());
    r
}

/// `Access-Control-Request-Method, Access-Control-Request-Headers`
pub open spec fn vary_any() -> Seq<u8> {
    seq![65u8, 99, 99, 101, 115, 115, 45, 67, 111, 110, 116, 114, 111, 108, 45, 82, 101, 113, 117, 101, 115, 116, 45, 77, 101, 116, 104, 111, 100, 44, 32, 65, 99, 99, 101, 115, 115, 45, 67, 111, 110, 116, 114, 111, 108, 45, 82, 101, 113, 117, 101, 115, 116, 45, 72, 101, 97, 100, 101, 114, 115]
}

fn vary_any_bytes() -> (r: Vec<u8>)
    ensures
        r@ == vary_any(),
{
    let r = vec![65u8, 99, 99, 101, 115, 115, 45, 67, 111, 110, 116, 114, 111, 108, 45, 82, 101, 113, 117, 101, 115, 116, 45, 77, 101, 116, 104, 111, 100, 44, 32, 65, 99, 99, 101, 115, 115, 45, 67, 111, 110, 116, 114, 111, 108, 45, 82, 101, 113, 117, 101, 115, 116, 45, 72, 101, 97, 100, 101, 114, 115];
    assert(r@ =~= vary_any());
    r
}

/// `origin`
pub open spec fn vary_origin_value() -> Seq<u8> {
    seq![111u8, 114, 105, 103, 105, 110]
}

fn vary_origin_value_bytes() -> (r: Vec<u8>)
    ensures
        r@ == vary_origin_value(),
{
    let r = vec![111u8, 114, 105, 103, 105, 110];
    assert(r@ =~= vary_origin_value());
    r
}

/// `*`
pub open spec fn asterisk() -> Seq<u8> {
    seq![42u8]
}

fn asterisk_bytes() -> (r: Vec<u8>)
    ensures
        r@ == asterisk(),
{
    let r = vec![42u8];
    assert(r@ =~= asterisk());
    r
}

/// `true`
pub open spec fn true_value() -> Seq<u8> {
    seq![116u8, 114, 117, 101]
}

fn true_value_bytes() -> (r: Vec<u8>)
    ensures
        r@ == true_value(),
{
    let r = vec![116u8, 114, 117, 101];
    assert(r@ =~= true_value());
    r
}

/// Values joined by `", "`.
pub open spec fn joined(values: Seq<Seq<u8>>) -> Seq<u8>
    decreases values.len(),
{
    if values.len() == 0 {
        Seq::<u8>::empty()
    } else if values.len() == 1 {
        values[0]
    } else {
        joined(values.drop_last()) + seq![44u8, 32u8] + values.last()
    }
}

fn append_bytes(out: &mut Vec<u8>, s: &[u8])
    ensures
        final(out)@ == old(out)@ + s@,
{
    let mut i: usize = 0;
    let ghost start = out@;
    while i < s.len()
        invariant
            0 <= i <= s@.len(),
            out@ == start + s@.subrange(0, i as int),
        decreases s@.len() - i,
    {
        out.push(s[i]);
        i += 1;
        assert(s@.subrange(0, i as int) =~= s@.subrange(0, i - 1).push(s@[i - 1]));
    }
    assert(s@.subrange(0, s@.len() as int) =~= s@);
}

/// Joins values by `", "` into one header value.
pub fn join_to_header_value(values: &Vec<Vec<u8>>) -> (r: Vec<u8>)
    requires
        values@.len() > 0,
    ensures
        r@ == joined(byte_views(values@)),
{
    let ghost vs = byte_views(values@);
    let mut out: Vec<u8> = Vec::new();
    append_bytes(&mut out, values[0].as_slice());
    assert(vs.subrange(0, 1).drop_last() =~= Seq::<Seq<u8>>::empty());
    assert(out@ == joined(vs.subrange(0, 1)));
    let mut i: usize = 1;
    while i < values.len()
        invariant
            1 <= i <= values@.len(),
            vs == byte_views(values@),
            out@ == joined(vs.subrange(0, i as int)),
        decreases values@.len() - i,
    {
        let sep: Vec<u8> = vec![44u8, 32u8];
        append_bytes(&mut out, sep.as_slice());
        append_bytes(&mut out, values[i].as_slice());
        proof {
            let p = vs.subrange(0, i + 1);
            assert(p.drop_last() =~= vs.subrange(0, i as int));
            assert(sep@ =~= seq![44u8, 32u8]);
            assert(out@ =~= joined(p));
        }
        i += 1;
    }
    assert(vs.subrange(0, vs.len() as int) =~= vs);
    out
}

/// The names of methods, in order.
pub open spec fn method_names(ms: Seq<Method>) -> Seq<Seq<u8>> {
    ms.map_values(|m: Method| m.spec_name())
}

fn names_of(ms: &Vec<Method>) -> (r: Vec<Vec<u8>>)
    ensures
        byte_views(r@) == method_names(ms@),
{
    let mut r: Vec<Vec<u8>> = Vec::new();
    let mut i: usize = 0;
    while i < ms.len()
        invariant
            0 <= i <= ms@.len(),
            byte_views(r@) == method_names(ms@.subrange(0, i as int)),
        decreases ms@.len() - i,
    {
        let ghost before = r@;
        r.push(ms[i].name());
        assert(byte_views(r@) =~= byte_views(before).push(ms@[i as int].spec_name()));
        assert(method_names(ms@.subrange(0, i + 1)) =~= method_names(ms@.subrange(0, i as int)).push(ms@[i as int].spec_name()));
        i += 1;
    }
    assert(ms@.subrange(0, ms@.len() as int) =~= ms@);
    r
}

/// The headers that every preflight response carries.
pub open spec fn spec_preflight_headers(c: Config) -> Seq<(Seq<u8>, Seq<u8>)> {
    let base = match c.origins {
        Some(_) => seq![(vary_name(), vary_listed())],
        None => seq![(acao_name(), asterisk()), (vary_name(), vary_any())],
    };
    let h1 = base.push((acam_name(), joined(method_names(c.methods@))));
    let h2 = if c.allow_headers@.len() > 0 {
        h1.push((acah_name(), joined(byte_views(c.allow_headers@))))
    } else {
        h1
    };
    let h3 = if c.expose_headers@.len() > 0 {
        h2.push((aceh_name(), joined(byte_views(c.expose_headers@))))
    } else {
        h2
    };
    let h4 = if c.credentials {
        h3.push((acac_name(), true_value()))
    } else {
        h3
    };
    match c.max_age {
        Some(secs) => h4.push((acma_name(), decimal(secs as nat))),
        None => h4,
    }
}

fn push_header(hs: &mut Vec<(Vec<u8>, Vec<u8>)>, name: Vec<u8>, value: Vec<u8>)
    ensures
        header_views(final(hs)@) == header_views(old(hs)@).push((name@, value@)),
{
    let ghost before = hs@;
    hs.push((name, value));
    assert(header_views(hs@) =~= header_views(before).push((name@, value@)));
}

/// The view of optional bytes.
pub open spec fn opt_bytes(o: Option<Vec<u8>>) -> Option<Seq<u8>> {
    match o {
        Some(v) => Some(v@),
        None => None,
    }
}

/// The `Access-Control-Expose-Headers` value of a policy, if it exposes any header.
pub open spec fn spec_expose_value(c: Config) -> Option<Seq<u8>> {
    if c.expose_headers@.len() == 0 {
        None
    } else {
        Some(joined(byte_views(c.expose_headers@)))
    }
}

/// The CORS wrapper around a filter, built by [`Config::apply`].
pub struct Cors<H> {
    pub filter: Box<Filter<H>>,
    pub origins: Option<Vec<String>>,
    pub methods: Vec<Method>,
    pub allow_headers: Vec<Vec<u8>>,
    /// The `Access-Control-Expose-Headers` value, if any header is exposed.
    pub expose_headers: Option<Vec<u8>>,
    pub preflight_headers: Vec<(Vec<u8>, Vec<u8>)>,
    pub credentials: bool,
}

impl Config {
    /// The headers of every preflight response under this policy.
    pub fn preflight_headers(&self) -> (r: Vec<(Vec<u8>, Vec<u8>)>)
        requires
            self.methods@.len() > 0,
        ensures
            header_views(r@) == spec_preflight_headers(*self),
    {
        let mut hs: Vec<(Vec<u8>, Vec<u8>)> = Vec::new();
        let ghost empty = header_views(hs@);
        assert(empty =~= Seq::<(Seq<u8>, Seq<u8>)>::empty());
        match &self.origins {
            Some(_) => {
                push_header(&mut hs, vary_name_bytes(), vary_listed_bytes());
            },
            None => {
                push_header(&mut hs, acao_name_bytes(), asterisk_bytes());
                push_header(&mut hs, vary_name_bytes(), vary_any_bytes());
            },
        }
        let names = names_of(&self.methods);
        assert(byte_views(names@).len() == names@.len());
        assert(method_names(self.methods@).len() == self.methods@.len());
        push_header(&mut hs, acam_name_bytes(), join_to_header_value(&names));
        if self.allow_headers.len() > 0 {
            push_header(&mut hs, acah_name_bytes(), join_to_header_value(&self.allow_headers));
        }
        if let Some(v) = self.expose_headers() {
            push_header(&mut hs, aceh_name_bytes(), v);
        }
        if self.credentials {
            push_header(&mut hs, acac_name_bytes(), true_value_bytes());
        }
        if let Some(secs) = self.max_age {
            push_header(&mut hs, acma_name_bytes(), crate::security::hsts::decimal_digits(secs));
        }
        assert(header_views(hs@) =~= spec_preflight_headers(*self));
        hs
    }

    /// The `Access-Control-Expose-Headers` value, if any header is exposed.
    pub fn expose_headers(&self) -> (r: Option<Vec<u8>>)
        ensures
            opt_bytes(r) == spec_expose_value(*self),
    {
        if self.expose_headers.len() == 0 {
            None
        } else {
            Some(join_to_header_value(&self.expose_headers))
        }
    }

    /// Wraps `filter` in this policy. At least one method must be admitted,
    /// and at least one origin unless any origin is.
    pub fn apply<H>(self, filter: Filter<H>) -> (r: Filter<H>)
        requires
            self.methods@.len() > 0,
            self.origins matches Some(o) ==> o@.len() > 0,
        ensures
            r matches Filter::Cors(c) && *c.filter == filter && c.origins == self.origins && c.methods == self.methods
                && c.allow_headers == self.allow_headers && c.credentials == self.credentials
                && header_views(c.preflight_headers@) == spec_preflight_headers(self)
                && opt_bytes(c.expose_headers) == spec_expose_value(self),
    {
        let preflight_headers = self.preflight_headers();
        let expose_headers = self.expose_headers();
        Filter::Cors(Cors {
            filter: Box::new(filter),
            origins: self.origins,
            methods: self.methods,
            allow_headers: self.allow_headers,
            expose_headers,
            preflight_headers,
            credentials: self.credentials,
        })
    }
}

/// A separator of header list pieces: a comma (`kind` 0), or a space or a
/// tab (any other `kind`).
pub open spec fn is_sep(kind: u8, b: u8) -> bool {
    if kind == 0 {
        b == 44u8
    } else {
        b == 32u8 || b == 9u8
    }
}

/// The number of bytes before the first separator (all, if there is none).
pub open spec fn sep_index(s: Seq<u8>, kind: u8) -> nat
    decreases s.len(),
{
    if s.len() == 0 || is_sep(kind, s[0]) {
        0
    } else {
        1 + sep_index(s.drop_first(), kind)
    }
}

proof fn lemma_sep_index(s: Seq<u8>, kind: u8, i: int)
    requires
        0 <= i <= s.len(),
        forall|j: int| 0 <= j < i ==> !is_sep(kind, #[trigger] s[j]),
        i == s.len() || is_sep(kind, s[i]),
    ensures
        sep_index(s, kind) == i,
    decreases i,
{
    if i > 0 {
        lemma_sep_index(s.drop_first(), kind, i - 1);
    }
}

/// The pieces of `s` between separators, empty ones included.
pub open spec fn split_on(s: Seq<u8>, kind: u8) -> Seq<Seq<u8>>
    decreases s.len(),
{
    let k = sep_index(s, kind);
    if k >= s.len() {
        seq![s]
    } else {
        seq![s.subrange(0, k as int)] + split_on(s.subrange(k as int + 1, s.len() as int), kind)
    }
}

fn sep_byte(kind: u8, b: u8) -> (r: bool)
    ensures
        r == is_sep(kind, b),
{
    if kind == 0 {
        b == 44u8
    } else {
        b == 32u8 || b == 9u8
    }
}

fn find_sep(s: &[u8], from: usize, kind: u8) -> (r: usize)
    requires
        from <= s@.len(),
    ensures
        from <= r <= s@.len(),
        r - from == sep_index(s@.subrange(from as int, s@.len() as int), kind),
{
    let mut i = from;
    while i < s.len() && !sep_byte(kind, s[i])
        invariant
            from <= i <= s@.len(),
            forall|j: int| from <= j < i ==> !is_sep(kind, #[trigger] s@[j]),
        decreases s@.len() - i,
    {
        i += 1;
    }
    proof {
        let t = s@.subrange(from as int, s@.len() as int);
        assert forall|j: int| 0 <= j < i - from implies !is_sep(kind, #[trigger] t[j]) by {
            assert(t[j] == s@[from + j]);
        }
        lemma_sep_index(t, kind, i - from);
    }
    i
}

pub open spec fn is_space_or_tab(b: u8) -> bool {
    b == 32u8 || b == 9u8
}

/// How many spaces and tabs `s` starts with.
pub open spec fn lead(s: Seq<u8>) -> nat
    decreases s.len(),
{
    if s.len() > 0 && is_space_or_tab(s[0]) {
        1 + lead(s.drop_first())
    } else {
        0
    }
}

/// How many spaces and tabs `s` ends with.
pub open spec fn trail(s: Seq<u8>) -> nat
    decreases s.len(),
{
    if s.len() > 0 && is_space_or_tab(s.last()) {
        1 + trail(s.drop_last())
    } else {
        0
    }
}

/// `s` without its leading and trailing spaces and tabs.
pub open spec fn trimmed(s: Seq<u8>) -> Seq<u8> {
    let q = s.subrange(lead(s) as int, s.len() as int);
    q.subrange(0, q.len() - trail(q))
}

proof fn lemma_lead(s: Seq<u8>, i: int)
    requires
        0 <= i <= s.len(),
        forall|j: int| 0 <= j < i ==> is_space_or_tab(#[trigger] s[j]),
        i == s.len() || !is_space_or_tab(s[i]),
    ensures
        lead(s) == i,
    decreases i,
{
    if i > 0 {
        lemma_lead(s.drop_first(), i - 1);
    }
}

proof fn lemma_trail(s: Seq<u8>, j: int)
    requires
        0 <= j <= s.len(),
        forall|k: int| j <= k < s.len() ==> is_space_or_tab(#[trigger] s[k]),
        j == 0 || !is_space_or_tab(s[j - 1]),
    ensures
        trail(s) == s.len() - j,
    decreases s.len(),
{
    if s.len() > j {
        lemma_trail(s.drop_last(), j);
    }
}

fn trim_spaces_tabs(s: &[u8]) -> (r: &[u8])
    ensures
        r@ == trimmed(s@),
{
    let mut start: usize = 0;
    while start < s.len() && (s[start] == 32u8 || s[start] == 9u8)
        invariant
            0 <= start <= s@.len(),
            forall|j: int| 0 <= j < start ==> is_space_or_tab(#[trigger] s@[j]),
        decreases s@.len() - start,
    {
        start += 1;
    }
    proof {
        lemma_lead(s@, start as int);
    }
    let q = vstd::slice::slice_subrange(s, start, s.len());
    let mut end: usize = q.len();
    while end > 0 && (q[end - 1] == 32u8 || q[end - 1] == 9u8)
        invariant
            0 <= end <= q@.len(),
            forall|k: int| end <= k < q@.len() ==> is_space_or_tab(#[trigger] q@[k]),
        decreases end,
    {
        end -= 1;
    }
    proof {
        lemma_trail(q@, end as int);
    }
    vstd::slice::slice_subrange(q, 0, end)
}

/// A header value that `to_str` accepts: visible ASCII and tabs.
pub open spec fn visible(v: Seq<u8>) -> bool {
    forall|i: int| 0 <= i < v.len() ==> (32 <= #[trigger] v[i] < 127 || v[i] == 9u8)
}

/// Whether a requested header is one of the admitted ones (which are kept in
/// lower case; the comparison ignores ASCII case).
pub open spec fn header_allowed(allowed: Seq<Seq<u8>>, tok: Seq<u8>) -> bool {
    allowed.contains(lower_name(tok))
}

/// Whether one piece of a requested header list is admitted: comma pieces
/// are trimmed first; empty whitespace pieces are skipped.
pub open spec fn piece_ok(allowed: Seq<Seq<u8>>, kind: u8, p: Seq<u8>) -> bool {
    if kind == 0 {
        header_allowed(allowed, trimmed(p))
    } else {
        p.len() == 0 || header_allowed(allowed, p)
    }
}

pub open spec fn pieces_ok(allowed: Seq<Seq<u8>>, v: Seq<u8>, kind: u8) -> bool {
    forall|i: int| 0 <= i < split_on(v, kind).len() ==> piece_ok(allowed, kind, #[trigger] split_on(v, kind)[i])
}

/// A value of `Access-Control-Request-Headers` that the policy admits: it is
/// visible ASCII, every comma-separated name is admitted, and so is every
/// whitespace-separated word.
pub open spec fn value_ok(allowed: Seq<Seq<u8>>, v: Seq<u8>) -> bool {
    visible(v) && pieces_ok(allowed, v, 0) && pieces_ok(allowed, v, 1)
}

pub fn is_visible(v: &[u8]) -> (r: bool)
    ensures
        r == visible(v@),
{
    let mut i: usize = 0;
    while i < v.len()
        invariant
            0 <= i <= v@.len(),
            forall|j: int| 0 <= j < i ==> (32 <= #[trigger] v@[j] < 127 || v@[j] == 9u8),
        decreases v@.len() - i,
    {
        if !((32 <= v[i] && v[i] < 127) || v[i] == 9u8) {
            return false;
        }
        i += 1;
    }
    true
}

fn is_header_allowed(allowed: &Vec<Vec<u8>>, tok: &[u8]) -> (r: bool)
    ensures
        r == header_allowed(byte_views(allowed@), tok@),
{
    let name = lowercase(tok);
    let found = contains_bytes(allowed, &name);
    proof {
        if found {
            let i = choose|i: int| 0 <= i < allowed@.len() && (#[trigger] allowed@[i])@ == name@;
            assert(byte_views(allowed@)[i] == name@);
        } else {
            assert forall|i: int| 0 <= i < byte_views(allowed@).len() implies byte_views(allowed@)[i] != name@ by {
                assert(byte_views(allowed@)[i] == allowed@[i]@);
            }
        }
    }
    found
}

fn pieces_allowed(allowed: &Vec<Vec<u8>>, v: &[u8], kind: u8) -> (r: bool)
    ensures
        r == pieces_ok(byte_views(allowed@), v@, kind),
{
    let ghost al = byte_views(allowed@);
    let mut start: usize = 0;
    let ghost mut done: Seq<Seq<u8>> = Seq::empty();
    assert(v@.subrange(0, v@.len() as int) =~= v@);
    assert(split_on(v@, kind) =~= done + split_on(v@.subrange(0, v@.len() as int), kind));
    loop
        invariant
            al == byte_views(allowed@),
            start <= v@.len(),
            split_on(v@, kind) == done + split_on(v@.subrange(start as int, v@.len() as int), kind),
            forall|i: int| 0 <= i < done.len() ==> piece_ok(al, kind, #[trigger] done[i]),
        decreases v@.len() - start,
    {
        let end = find_sep(v, start, kind);
        let piece = vstd::slice::slice_subrange(v, start, end);
        let ghost rest = v@.subrange(start as int, v@.len() as int);
        proof {
            assert(piece@ =~= rest.subrange(0, sep_index(rest, kind) as int));
            assert(split_on(v@, kind)[done.len() as int] == piece@);
        }
        let ok = if kind == 0 {
            is_header_allowed(allowed, trim_spaces_tabs(piece))
        } else {
            piece.len() == 0 || is_header_allowed(allowed, piece)
        };
        if !ok {
            assert(!piece_ok(al, kind, split_on(v@, kind)[done.len() as int]));
            return false;
        }
        proof {
            done = done.push(piece@);
        }
        if end == v.len() {
            assert(split_on(v@, kind) =~= done);
            return true;
        }
        proof {
            assert(rest.subrange(sep_index(rest, kind) as int + 1, rest.len() as int)
                =~= v@.subrange(end + 1, v@.len() as int));
            assert(split_on(v@, kind) =~= done + split_on(v@.subrange(end + 1, v@.len() as int), kind));
        }
        start = end + 1;
    }
}

fn value_allowed(allowed: &Vec<Vec<u8>>, v: &[u8]) -> (r: bool)
    ensures
        r == value_ok(byte_views(allowed@), v@),
{
    is_visible(v) && pieces_allowed(allowed, v, 0) && pieces_allowed(allowed, v, 1)
}

/// The values of every header named `name`, in order.
pub open spec fn all_values(hs: Seq<(Seq<u8>, Seq<u8>)>, name: Seq<u8>) -> Seq<Seq<u8>>
    decreases hs.len(),
{
    if hs.len() == 0 {
        Seq::<Seq<u8>>::empty()
    } else if same_name(hs.last().0, name) {
        all_values(hs.drop_last(), name).push(hs.last().1)
    } else {
        all_values(hs.drop_last(), name)
    }
}

/// Every `Access-Control-Request-Headers` value of the request is admitted.
pub open spec fn request_headers_ok(allowed: Seq<Seq<u8>>, hs: Seq<(Seq<u8>, Seq<u8>)>) -> bool {
    forall|i: int| 0 <= i < all_values(hs, acrh_name()).len() ==> value_ok(allowed, #[trigger] all_values(hs, acrh_name())[i])
}

/// What the policy says of an origin.
pub open spec fn spec_check_origin(origins: Option<Vec<String>>, origin: Seq<u8>) -> OriginCheck {
    match origins {
        None => OriginCheck::Any,
        Some(list) => if origin_listed(list@, origin) {
            OriginCheck::Allowed
        } else {
            OriginCheck::Disallowed
        },
    }
}

/// The status of a preflight: 403 for a disallowed origin; 400 without an
/// `Access-Control-Request-Method`; 403 for a method or a header that is not
/// admitted; 204 otherwise.
pub open spec fn spec_preflight_status<H>(c: Cors<H>, hs: Seq<(Seq<u8>, Seq<u8>)>, origin: Seq<u8>) -> u16 {
    if spec_check_origin(c.origins, origin) is Disallowed {
        403
    } else {
        match header_lookup(hs, acrm_name()) {
            None => 400,
            Some(m) => if !method_names(c.methods@).contains(m) {
                403
            } else if !request_headers_ok(byte_views(c.allow_headers@), hs) {
                403
            } else {
                204
            },
        }
    }
}

/// The headers of a preflight response: the policy's own, then the origin
/// itself when it is one of the listed ones.
pub open spec fn spec_preflight_response_headers<H>(c: Cors<H>, origin: Seq<u8>) -> Seq<(Seq<u8>, Seq<u8>)> {
    if spec_check_origin(c.origins, origin) is Allowed {
        header_views(c.preflight_headers@).push((acao_name(), origin))
    } else {
        header_views(c.preflight_headers@)
    }
}

/// The response to a request that the policy refuses: the default 403, with
/// `Vary: origin`.
pub fn forbidden() -> (r: Response)
    ensures
        r.status == 403,
        header_views(r.headers@).last() == (vary_name(), vary_origin_value()),
{
    let r = crate::response::default_response(403);
    let ghost before = r.headers@;
    let r = r.add_header(vary_name_bytes(), vary_origin_value_bytes());
    assert(header_views(r.headers@) =~= header_views(before).push((vary_name(), vary_origin_value())));
    r
}

fn check_origin(origins: &Option<Vec<String>>, origin: &[u8]) -> (r: OriginCheck)
    ensures
        r == spec_check_origin(*origins, origin@),
{
    match origins {
        None => OriginCheck::Any,
        Some(list) => {
            let mut i: usize = 0;
            while i < list.len()
                invariant
                    0 <= i <= list@.len(),
                    *origins == Some(*list),
                    forall|j: int| 0 <= j < i ==> vstd::utf8::encode_utf8((#[trigger] list@[j])@) != origin@,
                decreases list@.len() - i,
            {
                let candidate = list[i].as_str();
                let bytes = candidate.as_bytes();
                if bytes_eq(bytes, origin) {
                    assert(vstd::utf8::encode_utf8(list@[i as int]@) == origin@);
                    return OriginCheck::Allowed;
                }
                i += 1;
            }
            OriginCheck::Disallowed
        },
    }
}

impl<H> Cors<H> {
    /// Whether every `Access-Control-Request-Headers` value is admitted.
    pub fn request_headers_allowed(&self, request: &Request) -> (r: bool)
        ensures
            r == request_headers_ok(byte_views(self.allow_headers@), header_views(request.headers@)),
    {
        let ghost hs = header_views(request.headers@);
        let ghost al = byte_views(self.allow_headers@);
        let name = acrh_name_bytes();
        let mut i: usize = 0;
        while i < request.headers.len()
            invariant
                0 <= i <= request.headers@.len(),
                hs == header_views(request.headers@),
                al == byte_views(self.allow_headers@),
                name@ == acrh_name(),
                forall|j: int| 0 <= j < all_values(hs.subrange(0, i as int), acrh_name()).len()
                    ==> value_ok(al, #[trigger] all_values(hs.subrange(0, i as int), acrh_name())[j]),
            decreases request.headers@.len() - i,
        {
            let h = &request.headers[i];
            let named = crate::request::names_match(h.0.as_slice(), name.as_slice());
            proof {
                let p = hs.subrange(0, i + 1);
                assert(p.drop_last() =~= hs.subrange(0, i as int));
                assert(p.last() == hs[i as int]);
            }
            if named {
                if !value_allowed(&self.allow_headers, h.1.as_slice()) {
                    proof {
                        let vals = all_values(hs.subrange(0, i + 1), acrh_name());
                        assert(vals.last() == h.1@);
                        assert(!value_ok(al, vals[vals.len() - 1]));
                        lemma_all_values_prefix(hs, i as int + 1);
                    }
                    return false;
                }
                proof {
                    let p = hs.subrange(0, i + 1);
                    assert(all_values(p, acrh_name()) == all_values(hs.subrange(0, i as int), acrh_name()).push(h.1@));
                }
            } else {
                proof {
                    let p = hs.subrange(0, i + 1);
                    assert(all_values(p, acrh_name()) == all_values(hs.subrange(0, i as int), acrh_name()));
                }
            }
            i += 1;
        }
        assert(hs.subrange(0, hs.len() as int) =~= hs);
        true
    }

    /// The response to a preflight (an `OPTIONS` request with an `Origin`).
    pub fn preflight(&self, request: &Request, origin: &[u8]) -> (r: Response)
        ensures
            r.status == spec_preflight_status(*self, header_views(request.headers@), origin@),
            r.body@.len() == 0,
            header_views(r.headers@) == spec_preflight_response_headers(*self, origin@),
    {
        let mut headers = clone_headers(&self.preflight_headers);
        let check = check_origin(&self.origins, origin);
        if matches!(check, OriginCheck::Allowed) {
            push_header(&mut headers, acao_name_bytes(), vstd::slice::slice_to_vec(origin));
        }
        let status: u16 = if matches!(check, OriginCheck::Disallowed) {
            403
        } else {
            let name = acrm_name_bytes();
            match request.header(name.as_slice()) {
                None => 400,
                Some(m) => {
                    let names = names_of(&self.methods);
                    let mut found = false;
                    let mut i: usize = 0;
                    while i < names.len()
                        invariant
                            0 <= i <= names@.len(),
                            byte_views(names@) == method_names(self.methods@),
                            found == exists|j: int| 0 <= j < i && (#[trigger] names@[j])@ == m@,
                        decreases names@.len() - i,
                    {
                        if bytes_eq(names[i].as_slice(), m) {
                            found = true;
                        }
                        i += 1;
                    }
                    proof {
                        let mn = method_names(self.methods@);
                        if found {
                            let j = choose|j: int| 0 <= j < names@.len() && (#[trigger] names@[j])@ == m@;
                            assert(mn[j] == names@[j]@);
                        } else {
                            assert forall|j: int| 0 <= j < mn.len() implies mn[j] != m@ by {
                                assert(mn[j] == byte_views(names@)[j]);
                            }
                        }
                    }
                    if !found {
                        403
                    } else if !self.request_headers_allowed(request) {
                        403
                    } else {
                        204
                    }
                },
            }
        };
        Response { status, headers, body: Vec::new() }
    }

    /// Whether a (non-preflight) request with this `Origin` gets through: the
    /// origin must be admitted and the method among the admitted ones. Gives
    /// the `Access-Control-Allow-Origin` value (the origin itself, or `*`)
    /// and whether the response varies by origin.
    pub fn admission(&self, request: &Request, origin: &[u8]) -> (r: Option<(Vec<u8>, bool)>)
        ensures
            ({
                let check = spec_check_origin(self.origins, origin@);
                if check is Disallowed || !self.methods@.contains(request.method) {
                    r is None
                } else if check is Allowed {
                    r matches Some((v, vary)) && v@ == origin@ && vary
                } else {
                    r matches Some((v, vary)) && v@ == asterisk() && !vary
                }
            }),
    {
        let check = check_origin(&self.origins, origin);
        if matches!(check, OriginCheck::Disallowed) {
            return None;
        }
        let mut i: usize = 0;
        let mut found = false;
        while i < self.methods.len()
            invariant
                0 <= i <= self.methods@.len(),
                found == exists|j: int| 0 <= j < i && self.methods@[j] == request.method,
            decreases self.methods@.len() - i,
        {
            if self.methods[i] == request.method {
                found = true;
            }
            i += 1;
        }
        if !found {
            return None;
        }
        if matches!(check, OriginCheck::Allowed) {
            Some((vstd::slice::slice_to_vec(origin), true))
        } else {
            Some((asterisk_bytes(), false))
        }
    }

    /// The CORS headers on an admitted response: the allowed origin, the
    /// exposed headers and the credentials flag are set; `Vary: origin` is
    /// added when the response depends on the origin.
    pub fn cors_headers(&self, response: Response, origin: Vec<u8>, vary: bool) -> (r: Response)
        ensures
            r.status == response.status,
            r.body == response.body,
            ({
                let h1 = without_name(header_views(response.headers@), acao_name()).push((acao_name(), origin@));
                let h2 = match self.expose_headers {
                    Some(v) => without_name(h1, aceh_name()).push((aceh_name(), v@)),
                    None => h1,
                };
                let h3 = if self.credentials {
                    without_name(h2, acac_name()).push((acac_name(), true_value()))
                } else {
                    h2
                };
                let h4 = if vary {
                    h3.push((vary_name(), vary_origin_value()))
                } else {
                    h3
                };
                header_views(r.headers@) == h4
            }),
    {
        let mut r = response.set_header(acao_name_bytes(), origin);
        match &self.expose_headers {
            Some(v) => {
                let value = v.clone();
                assert(value@ =~= v@);
                r = r.set_header(aceh_name_bytes(), value);
            },
            None => {},
        }
        if self.credentials {
            r = r.set_header(acac_name_bytes(), true_value_bytes());
        }
        if vary {
            let ghost before = r.headers@;
            r = r.add_header(vary_name_bytes(), vary_origin_value_bytes());
            assert(header_views(r.headers@) =~= header_views(before).push((vary_name(), vary_origin_value())));
        }
        r
    }

    /// After the wrapped filter, for a request without an `Origin`: a success
    /// becomes its response with `Vary: origin` added; the rest stays.
    pub fn after_inner_without_origin(&self, inner: RequestOutcome) -> (r: RequestOutcome)
        ensures
            r.request_state == inner.request_state,
            match inner.outcome {
                Outcome::Success(_) => r.outcome matches Outcome::Success(t) && t@.len() == 1 && (t@[0] matches Value::Response(x)
                    && header_views(x.headers@).last() == (vary_name(), vary_origin_value())),
                _ => r.outcome == inner.outcome,
            },
    {
        let outcome = match inner.outcome {
            Outcome::Success(t) => {
                let response = self.vary_origin(single_response(t));
                Outcome::Success(Tuple::one(Value::Response(response)))
            },
            o => o,
        };
        RequestOutcome { request_state: inner.request_state, outcome }
    }

    /// After the wrapped filter, for an admitted request: a success becomes
    /// its response with the CORS headers (see [`Cors::cors_headers`]); the
    /// rest stays.
    pub fn after_inner_admitted(&self, origin: Vec<u8>, vary: bool, inner: RequestOutcome) -> (r: RequestOutcome)
        ensures
            r.request_state == inner.request_state,
            match inner.outcome {
                Outcome::Success(_) => r.outcome matches Outcome::Success(t) && t@.len() == 1 && t@[0] is Response,
                _ => r.outcome == inner.outcome,
            },
    {
        let outcome = match inner.outcome {
            Outcome::Success(t) => {
                let response = self.cors_headers(single_response(t), origin, vary);
                Outcome::Success(Tuple::one(Value::Response(response)))
            },
            o => o,
        };
        RequestOutcome { request_state: inner.request_state, outcome }
    }

    /// `Vary: origin` added to a response, for requests without an `Origin`.
    pub fn vary_origin(&self, response: Response) -> (r: Response)
        ensures
            r.status == response.status,
            r.body == response.body,
            header_views(r.headers@) == header_views(response.headers@).push((vary_name(), vary_origin_value())),
    {
        let ghost before = response.headers@;
        let r = response.add_header(vary_name_bytes(), vary_origin_value_bytes());
        assert(header_views(r.headers@) =~= header_views(before).push((vary_name(), vary_origin_value())));
        r
    }
}

proof fn lemma_all_values_prefix(hs: Seq<(Seq<u8>, Seq<u8>)>, n: int)
    requires
        0 <= n <= hs.len(),
    ensures
        forall|j: int| 0 <= j < all_values(hs.subrange(0, n), acrh_name()).len() ==> #[trigger] all_values(
            hs.subrange(0, n),
            acrh_name(),
        )[j] == all_values(hs, acrh_name())[j],
        all_values(hs.subrange(0, n), acrh_name()).len() <= all_values(hs, acrh_name()).len(),
    decreases hs.len() - n,
{
    if n < hs.len() {
        lemma_all_values_prefix(hs, n + 1);
        let p = hs.subrange(0, n + 1);
        assert(p.drop_last() =~= hs.subrange(0, n));
        let a = all_values(hs.subrange(0, n), acrh_name());
        let b = all_values(p, acrh_name());
        assert forall|j: int| 0 <= j < a.len() implies #[trigger] a[j] == all_values(hs, acrh_name())[j] by {
            assert(a[j] == b[j]);
        }
    } else {
        assert(hs.subrange(0, n) =~= hs);
    }
}

/// The response of a success: its single value's response, or a 500 when
/// it does not hold exactly one value.
pub fn single_response(t: Tuple) -> (r: Response)
    ensures
        t@.len() != 1 ==> r.status == 500,
        t@.len() == 1 && t@[0] is Response ==> r == t@[0]->Response_0,
{
    if t.len() == 1 {
        crate::response::value_response(t.into_inner())
    } else {
        Response::with_status(500)
    }
}

fn clone_headers(hs: &Vec<(Vec<u8>, Vec<u8>)>) -> (r: Vec<(Vec<u8>, Vec<u8>)>)
    ensures
        header_views(r@) == header_views(hs@),
{
    let mut r: Vec<(Vec<u8>, Vec<u8>)> = Vec::new();
    let mut i: usize = 0;
    while i < hs.len()
        invariant
            0 <= i <= hs@.len(),
            header_views(r@) == header_views(hs@.subrange(0, i as int)),
        decreases hs@.len() - i,
    {
        let name = hs[i].0.clone();
        let value = hs[i].1.clone();
        assert(name@ =~= hs@[i as int].0@);
        assert(value@ =~= hs@[i as int].1@);
        push_header(&mut r, name, value);
        assert(header_views(hs@.subrange(0, i + 1)) =~= header_views(hs@.subrange(0, i as int)).push((hs@[i as int].0@, hs@[i as int].1@)));
        i += 1;
    }
    assert(hs@.subrange(0, hs@.len() as int) =~= hs@);
    r
}

} // verus!
