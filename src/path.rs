//! Matching the request path segment by segment.
use vstd::prelude::*;
use vstd::utf8::{decode_utf8, valid_utf8};
use crate::errors::FilterError;
use crate::filter::Filter;
use crate::outcome::Outcome;
use crate::request::{Request, RequestState};
use crate::values::{Tuple, Value};

verus! {

/// The value of a hexadecimal digit.
pub open spec fn hex_value(b: u8) -> Option<u8> {
    if 48 <= b <= 57 {
        Some((b - 48) as u8)
    } else if 97 <= b <= 102 {
        Some((b - 87) as u8)
    } else if 65 <= b <= 70 {
        Some((b - 55) as u8)
    } else {
        None
    }
}

/// Percent-decoding: each `%` followed by two hexadecimal digits becomes the
/// byte they spell; every other byte stays.
pub open spec fn percent_decoded(b: Seq<u8>) -> Seq<u8>
    decreases b.len(),
{
    if b.len() == 0 {
        Seq::<u8>::empty()
    } else if b[0] == 37u8 && b.len() >= 3 && hex_value(b[1]) is Some && hex_value(b[2]) is Some {
        seq![(hex_value(b[1])->0 * 16 + hex_value(b[2])->0) as u8] + percent_decoded(b.subrange(3, b.len() as int))
    } else {
        seq![b[0]] + percent_decoded(b.drop_first())
    }
}

/// The text that percent-decoding then lossy UTF-8 decoding gives for `b`.
pub uninterp spec fn percent_decode_lossy(b: Seq<u8>) -> Seq<char>;

/// Relies on `percent_encoding::percent_decode` and `decode_utf8_lossy`: the
/// text depends on the bytes alone, and is their plain UTF-8 decoding when the
/// decoded bytes are valid UTF-8.
#[verifier::external_body]
fn decode_lossy(b: &[u8]) -> (r: String)
    ensures
        r@ == percent_decode_lossy(b@),
        valid_utf8(percent_decoded(b@)) ==> r@ == decode_utf8(percent_decoded(b@)),
{
    percent_encoding::percent_decode(b).decode_utf8_lossy().into_owned()
}

/// Relies on `percent_encoding::percent_decode` as an iterator of bytes.
#[verifier::external_body]
fn decode_bytes(b: &[u8]) -> (r: Vec<u8>)
    ensures
        r@ == percent_decoded(b@),
{
    percent_encoding::percent_decode(b).collect()
}

/// Relies on `std::str::from_utf8`: it succeeds exactly on valid UTF-8.
#[verifier::external_body]
fn is_utf8(b: &[u8]) -> (r: bool)
    ensures
        r == valid_utf8(b@),
{
    std::str::from_utf8(b).is_ok()
}

/// The number of bytes before the first `/` (all of them if there is none).
pub open spec fn slash_index(s: Seq<u8>) -> nat
    decreases s.len(),
{
    if s.len() == 0 {
        0
    } else if s[0] == 47u8 {
        0
    } else {
        1 + slash_index(s.drop_first())
    }
}

proof fn lemma_slash_index(s: Seq<u8>, i: int)
    requires
        0 <= i <= s.len(),
        forall|j: int| 0 <= j < i ==> s[j] != 47u8,
        i == s.len() || s[i] == 47u8,
    ensures
        slash_index(s) == i,
    decreases i,
{
    if i > 0 {
        lemma_slash_index(s.drop_first(), i - 1);
    }
}

/// The next segment of the path that is left, with how far matching it moves
/// the cursor (its leading `/` included); none when nothing or only `/` is left.
pub open spec fn spec_segment(cur: Seq<u8>) -> Option<(Seq<u8>, nat)> {
    if cur.len() == 0 || (cur.len() == 1 && cur[0] == 47u8) {
        None
    } else if cur[0] == 47u8 {
        let rest = cur.drop_first();
        let k = slash_index(rest);
        Some((rest.subrange(0, k as int), k + 1))
    } else {
        let k = slash_index(cur);
        Some((cur.subrange(0, k as int), k))
    }
}

fn find_slash(s: &[u8], from: usize) -> (r: usize)
    requires
        from <= s@.len(),
    ensures
        from <= r <= s@.len(),
        r - from == slash_index(s@.subrange(from as int, s@.len() as int)),
{
    let mut i = from;
    while i < s.len() && s[i] != 47u8
        invariant
            from <= i <= s@.len(),
            forall|j: int| from <= j < i ==> s@[j] != 47u8,
        decreases s@.len() - i,
    {
        i += 1;
    }
    proof {
        let t = s@.subrange(from as int, s@.len() as int);
        lemma_slash_index(t, i - from);
    }
    i
}

/// Finds the next segment of the path that is left.
pub fn segment<'a>(request: &'a Request, state: &RequestState) -> (r: Option<(&'a [u8], usize)>)
    requires
        state.wf(request),
    ensures
        r.is_some() == spec_segment(state.spec_current_path(request)).is_some(),
        r matches Some((seg, n)) ==> seg@ == spec_segment(state.spec_current_path(request)).unwrap().0
            && n == spec_segment(state.spec_current_path(request)).unwrap().1
            && state.current_path_index + n <= request.path.len(),
{
    let cur = state.current_path(request);
    if cur.len() == 0 || (cur.len() == 1 && cur[0] == 47u8) {
        None
    } else if cur[0] == 47u8 {
        let end = find_slash(cur, 1);
        proof {
            assert(cur@.subrange(1, cur@.len() as int) =~= cur@.drop_first());
        }
        let seg = vstd::slice::slice_subrange(cur, 1, end);
        assert(seg@ =~= cur@.drop_first().subrange(0, end - 1));
        Some((seg, end))
    } else {
        let end = find_slash(cur, 0);
        proof {
            assert(cur@.subrange(0, cur@.len() as int) =~= cur@);
        }
        let seg = vstd::slice::slice_subrange(cur, 0, end);
        Some((seg, end))
    }
}

/// The permanent redirect that removes a trailing slash.
#[derive(Debug)]
pub struct Redirect {
    pub location: Vec<u8>,
}

impl Redirect {
    /// Where the client is sent: the path without its trailing slash.
    pub fn location(&self) -> (r: &[u8])
        ensures
            r@ == self.location@,
    {
        self.location.as_slice()
    }
}

/// What matching a literal does: on a segment equal to `value` once decoded,
/// a success with no values and the cursor past the segment; otherwise a
/// forward, nothing moved. The body never changes.
pub open spec fn literal_result(value: Seq<char>, request: Request, before: RequestState, after: RequestState, o: Outcome) -> bool {
    let seg = spec_segment(before.spec_current_path(&request));
    &&& after.body == before.body
    &&& if seg is Some && value == percent_decode_lossy(seg.unwrap().0) {
        &&& o.is_success_of(Seq::<Value>::empty())
        &&& after.current_path_index == before.current_path_index + seg.unwrap().1
    } else {
        &&& o.is_forward_of(Seq::<Value>::empty(), crate::forward::Forwarding::NotFound)
        &&& after.current_path_index == before.current_path_index
    }
}

/// What taking a segment as text does.
pub open spec fn param_str_result(request: Request, before: RequestState, after: RequestState, o: Outcome) -> bool {
    let seg = spec_segment(before.spec_current_path(&request));
    &&& after.body == before.body
    &&& if seg is Some {
        &&& o matches Outcome::Success(t) && t@.len() == 1 && (t@[0] matches Value::Text(s)
            && s@ == percent_decode_lossy(seg.unwrap().0))
        &&& after.current_path_index == before.current_path_index + seg.unwrap().1
    } else {
        &&& o.is_forward_of(Seq::<Value>::empty(), crate::forward::Forwarding::NotFound)
        &&& after.current_path_index == before.current_path_index
    }
}

/// What taking a segment as an integer does.
pub open spec fn param_result(request: Request, before: RequestState, after: RequestState, o: Outcome) -> bool {
    let seg = spec_segment(before.spec_current_path(&request));
    &&& after.body == before.body
    &&& if seg is Some {
        &&& after.current_path_index == before.current_path_index + seg.unwrap().1
        &&& match spec_parse_i64(percent_decode_lossy(seg.unwrap().0)) {
            Some(n) => o.is_success_of(seq![Value::Int(n)]),
            None => o.is_forward_of(Seq::<Value>::empty(), crate::forward::Forwarding::NotFound),
        }
    } else {
        &&& o.is_forward_of(Seq::<Value>::empty(), crate::forward::Forwarding::NotFound)
        &&& after.current_path_index == before.current_path_index
    }
}

/// What matching the end of the path does (the state does not change).
pub open spec fn end_result(request: Request, state: RequestState, o: Outcome) -> bool {
    let full = request.path@;
    let cur = state.spec_current_path(&request);
    if full.len() == 0 || full == seq![47u8] || cur.len() == 0 {
        o.is_success_of(Seq::<Value>::empty())
    } else if cur == seq![47u8] {
        o matches Outcome::Error(FilterError::Redirect(r)) && r.location@ == state.spec_previous_path(&request)
    } else {
        o.is_forward_of(Seq::<Value>::empty(), crate::forward::Forwarding::NotFound)
    }
}

/// What taking the rest of the path does.
pub open spec fn tail_result(request: Request, before: RequestState, after: RequestState, o: Outcome) -> bool {
    &&& after.body == before.body
    &&& after.current_path_index == request.path@.len()
    &&& o matches Outcome::Success(t) && t@.len() == 1 && (t@[0] matches Value::Bytes(b)
        && b@ == before.spec_current_path(&request))
}

/// What taking the rest of the path, sanitized, does.
pub open spec fn tail_path_result(request: Request, before: RequestState, after: RequestState, o: Outcome) -> bool {
    &&& after.body == before.body
    &&& match spec_sanitize(before.spec_current_path(&request)) {
        Some(parts) => {
            &&& after.current_path_index == request.path@.len()
            &&& o matches Outcome::Success(t) && t@.len() == 1 && (t@[0] matches Value::Path(p)
                && crate::body::chunk_views(p@) == parts)
        },
        None => {
            &&& after.current_path_index == before.current_path_index
            &&& o.is_forward_of(Seq::<Value>::empty(), crate::forward::Forwarding::NotFound)
        },
    }
}

/// Matches the next segment against `value`: on a match the cursor moves past
/// the segment and the step succeeds with no values; otherwise nothing moves
/// and it forwards.
pub fn match_literal(value: &String, request: &Request, state: &mut RequestState) -> (o: Outcome)
    requires
        old(state).wf(request),
    ensures
        final(state).wf(request),
        literal_result(value@, *request, *old(state), *final(state), o),

{
    match segment(request, state) {
        Some((seg, n)) => {
            let decoded = decode_lossy(seg);
            if *value == decoded {
                state.incr_current_path_index(n);
                Outcome::empty_success()
            } else {
                Outcome::not_found()
            }
        },
        None => Outcome::not_found(),
    }
}

/// Takes the next segment, percent-decoded (invalid UTF-8 replaced), and moves
/// past it; forwards when no segment is left.
pub fn match_param_str(request: &Request, state: &mut RequestState) -> (o: Outcome)
    requires
        old(state).wf(request),
    ensures
        final(state).wf(request),
        param_str_result(*request, *old(state), *final(state), o),

{
    match segment(request, state) {
        Some((seg, n)) => {
            let decoded = decode_lossy(seg);
            state.incr_current_path_index(n);
            Outcome::Success(Tuple::one(Value::Text(decoded)))
        },
        None => Outcome::not_found(),
    }
}

/// The value of a decimal digit character.
pub open spec fn char_digit(c: char) -> int {
    c as int - 48
}

pub open spec fn all_char_digits(s: Seq<char>) -> bool {
    forall|i: int| 0 <= i < s.len() ==> 48 <= #[trigger] (s[i] as int) <= 57
}

/// The number written by a run of decimal digit characters.
pub open spec fn char_digits_value(s: Seq<char>) -> int
    decreases s.len(),
{
    if s.len() == 0 {
        0
    } else {
        char_digits_value(s.drop_last()) * 10 + char_digit(s.last())
    }
}

/// The `i64` a string spells: an optional `+` or `-`, then at least one
/// decimal digit, with a value in range; `None` otherwise.
pub open spec fn spec_parse_i64(s: Seq<char>) -> Option<i64> {
    let negative = s.len() > 0 && s[0] == '-';
    let d = if s.len() > 0 && (s[0] == '+' || s[0] == '-') { s.drop_first() } else { s };
    let v = if negative { -char_digits_value(d) } else { char_digits_value(d) };
    if d.len() > 0 && all_char_digits(d) && i64::MIN <= v <= i64::MAX {
        Some(v as i64)
    } else {
        None
    }
}

/// Relies on `<i64 as FromStr>::from_str`, which reads an optional sign and
/// decimal digits, and fails on anything else or out of range.
#[verifier::external_body]
fn parse_i64(s: &str) -> (r: Option<i64>)
    ensures
        r == spec_parse_i64(s@),
{
    s.parse::<i64>().ok()
}

/// Takes the next segment as an integer. A segment that does not parse makes
/// the step forward (never fail), with the cursor past the segment.
pub fn match_param(request: &Request, state: &mut RequestState) -> (o: Outcome)
    requires
        old(state).wf(request),
    ensures
        final(state).wf(request),
        param_result(*request, *old(state), *final(state), o),

{
    match segment(request, state) {
        Some((seg, n)) => {
            let decoded = decode_lossy(seg);
            state.incr_current_path_index(n);
            match parse_i64(decoded.as_str()) {
                Some(v) => Outcome::Success(Tuple::one(Value::Int(v))),
                None => Outcome::not_found(),
            }
        },
        None => Outcome::not_found(),
    }
}

/// The end of the path: succeeds when the whole path is empty or `/`, or
/// nothing is left; when exactly `/` is left it fails with a redirect to the
/// consumed path; otherwise it forwards. The cursor never moves.
pub fn match_end(request: &Request, state: &RequestState) -> (o: Outcome)
    requires
        state.wf(request),
    ensures
        end_result(*request, *state, o),

{
    let full = request.full_path();
    let cur = state.current_path(request);
    if full.len() == 0 || (full.len() == 1 && full[0] == 47u8) {
        assert(full.len() == 1 ==> full@ =~= seq![47u8]);
        Outcome::empty_success()
    } else {
        assert(!(full@ =~= seq![47u8]));
        if cur.len() == 0 {
            Outcome::empty_success()
        } else if cur.len() == 1 && cur[0] == 47u8 {
            assert(cur@ =~= seq![47u8]);
            let prev = state.previous_path(request);
            let location = vstd::slice::slice_to_vec(prev);
            Outcome::Error(FilterError::Redirect(Redirect { location }))
        } else {
            assert(!(cur@ =~= seq![47u8]));
            Outcome::not_found()
        }
    }
}

/// The rest of the path, taken whole: the cursor moves to the end.
pub fn match_tail(request: &Request, state: &mut RequestState) -> (o: Outcome)
    requires
        old(state).wf(request),
    ensures
        final(state).wf(request),
        tail_result(*request, *old(state), *final(state), o),

{
    let tail = vstd::slice::slice_to_vec(state.current_path(request));
    state.end_current_path_index(request);
    Outcome::Success(Tuple::one(Value::Bytes(tail)))
}

/// The pieces of `s` between slashes, as `str::split('/')` gives them.
pub open spec fn split_slash(s: Seq<u8>) -> Seq<Seq<u8>>
    decreases s.len(),
{
    let k = slash_index(s);
    if k >= s.len() {
        seq![s]
    } else {
        seq![s.subrange(0, k as int)] + split_slash(s.subrange(k as int + 1, s.len() as int))
    }
}

/// A path segment that could escape the served directory, or that some file
/// system reads in a special way: it starts with `.` or `*`, ends with `:`,
/// `<` or `>`, or holds a backslash or a null byte.
pub open spec fn segment_rejected(seg: Seq<u8>) -> bool {
    ||| (seg.len() > 0 && (seg[0] == 46u8 || seg[0] == 42u8))
    ||| (seg.len() > 0 && (seg.last() == 58u8 || seg.last() == 62u8 || seg.last() == 60u8))
    ||| seg.contains(92u8)
    ||| seg.contains(0u8)
}

/// The non-empty segments, or `None` if any segment is rejected.
pub open spec fn clean_segments(segs: Seq<Seq<u8>>) -> Option<Seq<Seq<u8>>>
    decreases segs.len(),
{
    if segs.len() == 0 {
        Some(Seq::<Seq<u8>>::empty())
    } else {
        match clean_segments(segs.drop_last()) {
            None => None,
            Some(p) => if segment_rejected(segs.last()) {
                None
            } else if segs.last().len() > 0 {
                Some(p.push(segs.last()))
            } else {
                Some(p)
            },
        }
    }
}

/// The components of a path that is safe to join to a directory: the path is
/// percent-decoded, must be UTF-8, is split at `/`, and no segment may be
/// rejected; empty segments are dropped.
pub open spec fn spec_sanitize(raw: Seq<u8>) -> Option<Seq<Seq<u8>>> {
    let d = percent_decoded(raw);
    if !valid_utf8(d) {
        None
    } else {
        clean_segments(split_slash(d))
    }
}

proof fn lemma_clean_none_append(a: Seq<Seq<u8>>, b: Seq<Seq<u8>>)
    requires
        clean_segments(a) is None,
    ensures
        clean_segments(a + b) is None,
    decreases b.len(),
{
    if b.len() == 0 {
        assert(a + b =~= a);
    } else {
        lemma_clean_none_append(a, b.drop_last());
        assert((a + b).drop_last() =~= a + b.drop_last());
    }
}

fn is_rejected(seg: &[u8]) -> (r: bool)
    ensures
        r == segment_rejected(seg@),
{
    let n = seg.len();
    if n > 0 && (seg[0] == 46u8 || seg[0] == 42u8) {
        return true;
    }
    if n > 0 && (seg[n - 1] == 58u8 || seg[n - 1] == 62u8 || seg[n - 1] == 60u8) {
        return true;
    }
    let mut i: usize = 0;
    while i < n
        invariant
            n == seg@.len(),
            0 <= i <= n,
            forall|j: int| 0 <= j < i ==> seg@[j] != 92u8 && seg@[j] != 0u8,
        decreases n - i,
    {
        if seg[i] == 92u8 || seg[i] == 0u8 {
            assert(seg@.contains(seg@[i as int]));
            return true;
        }
        i += 1;
    }
    false
}

/// Sanitizes a raw path into components that are safe to join to a
/// directory; `None` when any segment is rejected or the path is not UTF-8
/// once decoded.
pub fn sanitize_path(raw: &[u8]) -> (r: Option<Vec<Vec<u8>>>)
    ensures
        r.is_some() == spec_sanitize(raw@).is_some(),
        r matches Some(p) ==> crate::body::chunk_views(p@) == spec_sanitize(raw@).unwrap(),
{
    let decoded = decode_bytes(raw);
    let d = decoded.as_slice();
    if !is_utf8(d) {
        return None;
    }
    let mut parts: Vec<Vec<u8>> = Vec::new();
    let mut start: usize = 0;
    let ghost mut done: Seq<Seq<u8>> = Seq::empty();
    proof {
        assert(d@.subrange(0, d@.len() as int) =~= d@);
        assert(split_slash(d@) =~= done + split_slash(d@.subrange(0, d@.len() as int)));
        assert(crate::body::chunk_views(parts@) =~= Seq::<Seq<u8>>::empty());
    }
    loop
        invariant
            d@ == percent_decoded(raw@),
            valid_utf8(d@),
            start <= d@.len(),
            split_slash(d@) == done + split_slash(d@.subrange(start as int, d@.len() as int)),
            clean_segments(done) == Some(crate::body::chunk_views(parts@)),
        decreases d@.len() - start,
    {
        let end = find_slash(d, start);
        let seg = vstd::slice::slice_subrange(d, start, end);
        let ghost rest = d@.subrange(start as int, d@.len() as int);
        proof {
            assert(seg@ =~= rest.subrange(0, slash_index(rest) as int));
        }
        if is_rejected(seg) {
            proof {
                assert(done.push(seg@).drop_last() =~= done);
                assert(clean_segments(done.push(seg@)) is None);
                if end < d.len() {
                    assert(rest.subrange(slash_index(rest) as int + 1, rest.len() as int)
                        =~= d@.subrange(end + 1, d@.len() as int));
                    lemma_clean_none_append(done.push(seg@), split_slash(d@.subrange(end + 1, d@.len() as int)));
                    assert(split_slash(d@) =~= done.push(seg@) + split_slash(d@.subrange(end + 1, d@.len() as int)));
                } else {
                    assert(split_slash(d@) =~= done.push(seg@));
                }
            }
            return None;
        }
        let ghost old_parts = parts@;
        if seg.len() > 0 {
            parts.push(vstd::slice::slice_to_vec(seg));
            proof {
                assert(crate::body::chunk_views(parts@) =~= crate::body::chunk_views(old_parts).push(seg@));
            }
        }
        proof {
            assert(done.push(seg@).drop_last() =~= done);
            done = done.push(seg@);
        }
        if end == d.len() {
            proof {
                assert(split_slash(d@) =~= done);
            }
            return Some(parts);
        }
        proof {
            assert(rest.subrange(slash_index(rest) as int + 1, rest.len() as int)
                =~= d@.subrange(end + 1, d@.len() as int));
            assert(split_slash(d@) =~= done + split_slash(d@.subrange(end + 1, d@.len() as int)));
        }
        start = end + 1;
    }
}

/// The rest of the path, sanitized into components: on success the cursor
/// moves to the end; a rejected path forwards and nothing moves.
pub fn match_tail_path(request: &Request, state: &mut RequestState) -> (o: Outcome)
    requires
        old(state).wf(request),
    ensures
        final(state).wf(request),
        tail_path_result(*request, *old(state), *final(state), o),

{
    match sanitize_path(state.current_path(request)) {
        Some(parts) => {
            state.end_current_path_index(request);
            Outcome::Success(Tuple::one(Value::Path(parts)))
        },
        None => Outcome::not_found(),
    }
}

/// A filter matching one path segment that, percent-decoded, equals `value`.
pub fn literal<H>(value: &str) -> (r: Filter<H>)
    requires
        value@.len() > 0,
        !value@.contains('/'),
    ensures
        r matches Filter::Literal(v) && v@ == value@,
{
    Filter::Literal(value.to_owned())
}

/// A filter taking one path segment as percent-decoded text.
pub fn param_str<H>() -> (r: Filter<H>)
    ensures
        r is ParamStr,
{
    Filter::ParamStr
}

/// A filter taking one path segment as an integer; a segment that does not
/// parse forwards as not found.
pub fn param<H>() -> (r: Filter<H>)
    ensures
        r is Param,
{
    Filter::Param
}

/// A filter matching the end of the path.
pub fn end<H>() -> (r: Filter<H>)
    ensures
        r is End,
{
    Filter::End
}

/// A filter taking the rest of the path.
pub fn tail<H>() -> (r: Filter<H>)
    ensures
        r is Tail,
{
    Filter::Tail
}

/// A filter taking the rest of the path, sanitized into components.
pub fn tail_path<H>() -> (r: Filter<H>)
    ensures
        r is TailPath,
{
    Filter::TailPath
}

/// A filter taking the full request path.
pub fn path<H>() -> (r: Filter<H>)
    ensures
        r is FullPath,
{
    Filter::FullPath
}

} // verus!
