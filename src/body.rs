//! The request body: a queue of byte chunks read from the front.
use vstd::prelude::*;
use crate::filter::Filter;

verus! {

/// The bytes of a sequence of chunks, one after another.
pub open spec fn flatten(chunks: Seq<Seq<u8>>) -> Seq<u8>
    decreases chunks.len(),
{
    if chunks.len() == 0 {
        Seq::<u8>::empty()
    } else {
        chunks[0] + flatten(chunks.drop_first())
    }
}

/// The views of a list of chunks.
pub open spec fn chunk_views(chunks: Seq<Vec<u8>>) -> Seq<Seq<u8>> {
    chunks.map_values(|c: Vec<u8>| c@)
}

proof fn lemma_flatten_skip(chunks: Seq<Seq<u8>>, k: int)
    requires
        chunks.len() > 0,
        0 <= k <= flatten(chunks).len(),
    ensures
        k >= chunks[0].len() ==> flatten(chunks).subrange(k, flatten(chunks).len() as int)
            == flatten(chunks.drop_first()).subrange(k - chunks[0].len(), flatten(chunks.drop_first()).len() as int),
        k < chunks[0].len() ==> flatten(chunks).subrange(k, flatten(chunks).len() as int)
            == chunks[0].subrange(k, chunks[0].len() as int) + flatten(chunks.drop_first()),
{
    let f = flatten(chunks);
    let r = flatten(chunks.drop_first());
    assert(f == chunks[0] + r);
    if k >= chunks[0].len() {
        assert(f.subrange(k, f.len() as int) =~= r.subrange(k - chunks[0].len(), r.len() as int));
    } else {
        assert(f.subrange(k, f.len() as int) =~= chunks[0].subrange(k, chunks[0].len() as int) + r);
    }
}

proof fn lemma_flatten_push(chunks: Seq<Seq<u8>>, c: Seq<u8>)
    ensures
        flatten(chunks.push(c)) == flatten(chunks) + c,
    decreases chunks.len(),
{
    if chunks.len() == 0 {
        assert(chunks.push(c).drop_first() =~= Seq::<Seq<u8>>::empty());
        assert(flatten(chunks.push(c).drop_first()) == Seq::<u8>::empty());
        assert(flatten(chunks.push(c)) == chunks.push(c)[0] + flatten(chunks.push(c).drop_first()));
        assert(flatten(chunks.push(c)) =~= c);
        assert(flatten(chunks) == Seq::<u8>::empty());
        assert(flatten(chunks) + c =~= c);
    } else {
        assert(chunks.push(c).drop_first() =~= chunks.drop_first().push(c));
        lemma_flatten_push(chunks.drop_first(), c);
        assert(flatten(chunks.push(c)) =~= flatten(chunks) + c);
    }
}

/// The body bytes, read from the front: a queue of non-empty chunks, an
/// offset into the first one, and the number of bytes left.
#[derive(Debug)]
pub struct BytesBuf {
    pub(crate) bytes: Vec<Vec<u8>>,
    pub(crate) offset: usize,
    pub(crate) len: usize,
}

impl View for BytesBuf {
    type V = Seq<u8>;

    /// The bytes that are left.
    closed spec fn view(&self) -> Seq<u8> {
        let all = flatten(chunk_views(self.bytes@));
        all.subrange(self.offset as int, all.len() as int)
    }
}

impl BytesBuf {
    /// Every chunk is non-empty, the offset lies inside the first chunk, and
    /// `len` counts the bytes left.
    pub closed spec fn wf(&self) -> bool {
        &&& forall|i: int| 0 <= i < self.bytes@.len() ==> #[trigger] self.bytes@[i]@.len() > 0
        &&& (self.bytes@.len() == 0 ==> self.offset == 0)
        &&& (self.bytes@.len() > 0 ==> self.offset < self.bytes@[0]@.len())
        &&& self.offset <= flatten(chunk_views(self.bytes@)).len()
        &&& self.len == self@.len()
    }

    /// A buffer over `chunks`, leaving out the empty ones.
    pub fn new(chunks: Vec<Vec<u8>>) -> (r: BytesBuf)
        requires
            flatten(chunk_views(chunks@)).len() <= usize::MAX,
        ensures
            r.wf(),
            r@ == flatten(chunk_views(chunks@)),
    {
        let mut bytes: Vec<Vec<u8>> = Vec::new();
        let mut len: usize = 0;
        let mut i: usize = 0;
        while i < chunks.len()
            invariant
                0 <= i <= chunks@.len(),
                flatten(chunk_views(chunks@)).len() <= usize::MAX,
                forall|j: int| 0 <= j < bytes@.len() ==> #[trigger] bytes@[j]@.len() > 0,
                flatten(chunk_views(bytes@)) == flatten(chunk_views(chunks@.subrange(0, i as int))),
                len == flatten(chunk_views(bytes@)).len(),
            decreases chunks@.len() - i,
        {
            let c = &chunks[i];
            proof {
                let s = chunk_views(chunks@.subrange(0, i as int));
                assert(chunk_views(chunks@.subrange(0, i + 1)) =~= s.push(chunks@[i as int]@));
                lemma_flatten_push(s, chunks@[i as int]@);
                lemma_flatten_prefix_len(chunk_views(chunks@), i as int + 1);
                assert(chunk_views(chunks@).subrange(0, i + 1) =~= chunk_views(chunks@.subrange(0, i + 1)));
            }
            if c.len() > 0 {
                let copy = c.clone();
                assert(copy@ =~= c@);
                proof {
                    let s = chunk_views(bytes@);
                    assert(chunk_views(bytes@.push(copy)) =~= s.push(copy@));
                    lemma_flatten_push(s, copy@);
                }
                len = len + copy.len();
                bytes.push(copy);
            } else {
                proof {
                    let s = chunk_views(chunks@.subrange(0, i as int));
                    assert(flatten(s) + chunks@[i as int]@ =~= flatten(s));
                }
            }
            i += 1;
        }
        assert(chunks@.subrange(0, chunks@.len() as int) =~= chunks@);
        let r = BytesBuf { bytes, offset: 0, len };
        assert(r@ =~= flatten(chunk_views(chunks@)));
        r
    }

    /// The number of bytes left.
    pub fn remaining(&self) -> (r: usize)
        requires
            self.wf(),
        ensures
            r == self@.len(),
    {
        self.len
    }

    /// The bytes of the first chunk that are left, without consuming them:
    /// a non-empty prefix of what is left, unless nothing is.
    pub fn chunk(&self) -> (r: &[u8])
        requires
            self.wf(),
        ensures
            r@.len() <= self@.len(),
            r@ == self@.subrange(0, r@.len() as int),
            self@.len() > 0 ==> r@.len() > 0,
    {
        if self.bytes.len() == 0 {
            proof {
                assert(chunk_views(self.bytes@) =~= Seq::<Seq<u8>>::empty());
            }
            let empty: &[u8] = &[];
            assert(empty@ =~= self@.subrange(0, 0));
            empty
        } else {
            let front = self.bytes[0].as_slice();
            let r = vstd::slice::slice_subrange(front, self.offset, front.len());
            proof {
                let cs = chunk_views(self.bytes@);
                assert(cs[0] == self.bytes@[0]@);
                lemma_flatten_skip(cs, self.offset as int);
                assert(r@ =~= self@.subrange(0, r@.len() as int));
            }
            r
        }
    }

    /// Consumes `cnt` bytes from the front, dropping the chunks used up.
    pub fn advance(&mut self, count: usize)
        requires
            old(self).wf(),
            count <= old(self)@.len(),
        ensures
            final(self).wf(),
            final(self)@ == old(self)@.subrange(count as int, old(self)@.len() as int),
    {
        let ghost target = self@.subrange(count as int, self@.len() as int);
        let mut cnt = count;
        self.len = self.len - count;
        while self.bytes.len() > 0
            invariant
                forall|i: int| 0 <= i < self.bytes@.len() ==> #[trigger] self.bytes@[i]@.len() > 0,
                self.bytes@.len() == 0 ==> self.offset == 0,
                self.bytes@.len() > 0 ==> self.offset < self.bytes@[0]@.len(),
                self.offset <= flatten(chunk_views(self.bytes@)).len(),
                cnt <= self@.len(),
                count <= old(self)@.len(),
                target == old(self)@.subrange(count as int, old(self)@.len() as int),
                self@.subrange(cnt as int, self@.len() as int) == target,
                self.len == target.len(),
            decreases self.bytes@.len(),
        {
            let front_rem = self.bytes[0].len() - self.offset;
            let ghost cs = chunk_views(self.bytes@);
            proof {
                assert(cs[0] == self.bytes@[0]@);
                lemma_flatten_skip(cs, self.offset as int);
            }
            if cnt < front_rem {
                let ghost old_view = self@;
                self.offset = self.offset + cnt;
                proof {
                    lemma_flatten_skip(cs, self.offset as int);
                    assert(self@ =~= old_view.subrange(cnt as int, old_view.len() as int));
                }
                assert(self@ == target);
                return;
            }
            let ghost old_view = self@;
            cnt = cnt - front_rem;
            self.bytes.remove(0);
            self.offset = 0;
            proof {
                assert(chunk_views(self.bytes@) =~= cs.drop_first());
                lemma_flatten_skip(cs, self.offset as int + cs[0].len());
                assert(self@ =~= old_view.subrange(front_rem as int, old_view.len() as int));
                assert(self@.subrange(cnt as int, self@.len() as int)
                    =~= old_view.subrange(cnt + front_rem, old_view.len() as int));
                if self.bytes@.len() > 0 {
                    assert(self.bytes@[0]@.len() > 0);
                }
            }
        }
        proof {
            assert(chunk_views(self.bytes@) =~= Seq::<Seq<u8>>::empty());
            assert(self@ =~= Seq::<u8>::empty());
            assert(self@.subrange(0, 0) =~= self@);
        }
    }

    /// Copies up to `buf.len()` bytes into the front of `buf` and consumes
    /// them; returns how many were copied (zero once nothing is left).
    /// The rest of `buf` is left as it was.
    pub fn read(&mut self, buf: &mut Vec<u8>) -> (n: usize)
        requires
            old(self).wf(),
        ensures
            final(self).wf(),
            n == if old(self)@.len() < old(buf)@.len() { old(self)@.len() } else { old(buf)@.len() },
            final(buf)@ == old(self)@.subrange(0, n as int) + old(buf)@.subrange(n as int, old(buf)@.len() as int),
            final(self)@ == old(self)@.subrange(n as int, old(self)@.len() as int),
    {
        let n: usize = if self.len < buf.len() { self.len } else { buf.len() };
        let ghost start = self@;
        let ghost start_buf = buf@;
        let mut i: usize = 0;
        while i < n
            invariant
                0 <= i <= n,
                n <= start.len(),
                n <= start_buf.len(),
                self.wf(),
                self@ == start.subrange(i as int, start.len() as int),
                buf@.len() == start_buf.len(),
                buf@ == start.subrange(0, i as int) + start_buf.subrange(i as int, start_buf.len() as int),
            decreases n - i,
        {
            let b = self.first_byte();
            buf.set(i, b);
            self.advance(1);
            proof {
                assert(buf@ =~= start.subrange(0, i + 1) + start_buf.subrange(i + 1, start_buf.len() as int));
                assert(self@ =~= start.subrange(i + 1, start.len() as int));
            }
            i += 1;
        }
        n
    }

    fn first_byte(&self) -> (b: u8)
        requires
            self.wf(),
            self@.len() > 0,
        ensures
            b == self@[0],
    {
        let ghost cs = chunk_views(self.bytes@);
        if self.bytes.len() == 0 {
            proof {
                assert(cs =~= Seq::<Seq<u8>>::empty());
            }
            assert(false);
            0
        } else {
            proof {
                assert(cs[0] == self.bytes@[0]@);
                lemma_flatten_skip(cs, self.offset as int);
            }
            self.bytes[0][self.offset]
        }
    }

    /// A second buffer holding the same bytes.
    pub fn duplicate(&self) -> (r: BytesBuf)
        ensures
            r.wf() == self.wf(),
            r@ == self@,
    {
        let mut bytes: Vec<Vec<u8>> = Vec::new();
        let mut i: usize = 0;
        while i < self.bytes.len()
            invariant
                0 <= i <= self.bytes@.len(),
                bytes@.len() == i,
                forall|j: int| 0 <= j < i ==> #[trigger] bytes@[j]@ == self.bytes@[j]@,
            decreases self.bytes@.len() - i,
        {
            let c = self.bytes[i].clone();
            assert(c@ =~= self.bytes@[i as int]@);
            bytes.push(c);
            i += 1;
        }
        assert(chunk_views(bytes@) =~= chunk_views(self.bytes@));
        let r = BytesBuf { bytes, offset: self.offset, len: self.len };
        assert(forall|i: int| 0 <= i < r.bytes@.len() ==> #[trigger] r.bytes@[i]@ == self.bytes@[i]@);
        assert(r.bytes@.len() > 0 ==> r.bytes@[0]@ == self.bytes@[0]@);
        assert forall|i: int| 0 <= i < r.bytes@.len() && self.wf() implies #[trigger] r.bytes@[i]@.len() > 0 by {
            assert(r.bytes@[i]@ == self.bytes@[i]@);
            assert(self.bytes@[i]@.len() > 0);
        }
        assert forall|i: int| 0 <= i < self.bytes@.len() && r.wf() implies #[trigger] self.bytes@[i]@.len() > 0 by {
            assert(r.bytes@[i]@ == self.bytes@[i]@);
            assert(r.bytes@[i]@.len() > 0);
        }
        r
    }
}

proof fn lemma_flatten_prefix_len(chunks: Seq<Seq<u8>>, n: int)
    requires
        0 <= n <= chunks.len(),
    ensures
        flatten(chunks.subrange(0, n)).len() <= flatten(chunks).len(),
    decreases chunks.len(),
{
    if n > 0 {
        assert(chunks.subrange(0, n).drop_first() =~= chunks.drop_first().subrange(0, n - 1));
        lemma_flatten_prefix_len(chunks.drop_first(), n - 1);
    }
}

/// The declared body length exceeded the configured limit.
#[derive(Debug)]
pub struct ContentLengthError {
    pub length: usize,
}

impl ContentLengthError {
    /// The declared length.
    pub fn length(&self) -> (r: usize)
        ensures
            r == self.length,
    {
        self.length
    }
}

/// Reading the request body failed in the transport.
#[derive(Debug)]
pub struct BodyError {
    /// Whether the failure was reported by an earlier read of this request.
    pub earlier: bool,
}

impl BodyError {
    pub fn earlier(&self) -> (r: bool)
        ensures
            r == self.earlier,
    {
        self.earlier
    }
}

/// The value of a decimal digit.
pub open spec fn digit_value(b: u8) -> int {
    b as int - 48
}

pub open spec fn is_digit(b: u8) -> bool {
    48 <= b <= 57
}

/// The number written by a non-empty run of decimal digits.
pub open spec fn digits_value(s: Seq<u8>) -> int
    decreases s.len(),
{
    if s.len() == 0 {
        0
    } else {
        digits_value(s.drop_last()) * 10 + digit_value(s.last())
    }
}

pub open spec fn all_digits(d: Seq<u8>) -> bool {
    forall|i: int| 0 <= i < d.len() ==> is_digit(#[trigger] d[i])
}

/// The digits of a number, after its optional `+` sign.
pub open spec fn unsigned_part(s: Seq<u8>) -> Seq<u8> {
    if s.len() > 0 && s[0] == 43u8 {
        s.drop_first()
    } else {
        s
    }
}

/// The `usize` that a header value spells: an optional `+`, then at least one
/// decimal digit, with a value that fits; `None` otherwise.
pub open spec fn spec_parse_usize(s: Seq<u8>) -> Option<usize> {
    let d = unsigned_part(s);
    if d.len() > 0 && all_digits(d) && digits_value(d) <= usize::MAX {
        Some(digits_value(d) as usize)
    } else {
        None
    }
}

proof fn lemma_digits_nonneg(s: Seq<u8>)
    requires
        forall|i: int| 0 <= i < s.len() ==> is_digit(#[trigger] s[i]),
    ensures
        digits_value(s) >= 0,
    decreases s.len(),
{
    if s.len() > 0 {
        lemma_digits_nonneg(s.drop_last());
    }
}

proof fn lemma_digits_monotone(s: Seq<u8>, n: int)
    requires
        0 <= n <= s.len(),
        forall|i: int| 0 <= i < s.len() ==> is_digit(#[trigger] s[i]),
    ensures
        digits_value(s.subrange(0, n)) <= digits_value(s),
    decreases s.len() - n,
{
    if n < s.len() {
        lemma_digits_monotone(s, n + 1);
        let p = s.subrange(0, n + 1);
        assert(p.drop_last() =~= s.subrange(0, n));
        lemma_digits_nonneg(s.subrange(0, n));
        assert(digits_value(p) == digits_value(s.subrange(0, n)) * 10 + digit_value(p.last()));
    } else {
        assert(s.subrange(0, n) =~= s);
    }
}

/// Reads a content length written in decimal.
pub fn parse_usize(s: &[u8]) -> (r: Option<usize>)
    ensures
        r == spec_parse_usize(s@),
{
    let start: usize = if s.len() > 0 && s[0] == 43u8 { 1 } else { 0 };
    let ghost d = unsigned_part(s@);
    assert(d =~= s@.subrange(start as int, s@.len() as int));
    if start == s.len() {
        return None;
    }
    let mut value: usize = 0;
    let mut i: usize = start;
    while i < s.len()
        invariant
            start <= i <= s@.len(),
            d == unsigned_part(s@),
            d == s@.subrange(start as int, s@.len() as int),
            forall|j: int| 0 <= j < i - start ==> is_digit(#[trigger] d[j]),
            value as int == digits_value(d.subrange(0, i - start)),
        decreases s@.len() - i,
    {
        let b = s[i];
        assert(d[i - start] == b);
        if b < 48 || b > 57 {
            assert(!is_digit(d[i - start]));
            assert(!all_digits(d));
            return None;
        }
        let ghost prefix = d.subrange(0, i + 1 - start);
        assert(prefix.drop_last() =~= d.subrange(0, i - start));
        assert(digits_value(prefix) == value * 10 + (b - 48));
        if value > (usize::MAX - (b - 48) as usize) / 10 {
            proof {
                assert(value * 10 + (b - 48) > usize::MAX) by (nonlinear_arith)
                    requires value > (usize::MAX - (b - 48) as usize) / 10, b >= 48, b <= 57;
                if all_digits(d) {
                    lemma_digits_monotone(d, i + 1 - start);
                    assert(digits_value(d) > usize::MAX);
                }
            }
            return None;
        }
        proof {
            assert(value * 10 + (b - 48) <= usize::MAX) by (nonlinear_arith)
                requires value <= (usize::MAX - (b - 48) as usize) / 10, b >= 48, b <= 57;
        }
        value = value * 10 + (b - 48) as usize;
        i += 1;
    }
    assert(d.subrange(0, d.len() as int) =~= d);
    Some(value)
}

/// A filter taking the whole request body.
pub fn all<H>() -> (r: Filter<H>)
    ensures
        r is Body,
{
    Filter::Body
}

/// A filter that fails when the declared `Content-Length` exceeds `limit`.
pub fn content_length_limit<H>(limit: usize) -> (r: Filter<H>)
    ensures
        r == Filter::<H>::ContentLengthLimit(limit),
{
    Filter::ContentLengthLimit(limit)
}

} // verus!
