//! Incremental splitting of a process's output byte stream into log lines.
use vstd::prelude::*;
use vstd::utf8::{decode_utf8, length_of_first_scalar, valid_first_scalar, valid_utf8};
use crate::text::{trim_end, trimmed_end};

verus! {

/// A pending line longer than this many bytes is cut even without a newline.
pub const MAX_LINE_BYTES: usize = 8192;

/// The text `String::from_utf8_lossy` makes of `bytes`.
pub uninterp spec fn utf8_lossy(bytes: Seq<u8>) -> Seq<char>;

/// `String::from_utf8_lossy(bytes)` as an owned string. Trusted: the text
/// is the name `utf8_lossy` of the bytes, and, as the documentation of
/// `from_utf8_lossy` says, valid UTF-8 is decoded unchanged (only invalid
/// sequences become U+FFFD, which is left to the name).
#[verifier::external_body]
fn lossy_string(bytes: &[u8]) -> (s: String)
    ensures
        s@ == utf8_lossy(bytes@),
        valid_utf8(bytes@) ==> s@ == decode_utf8(bytes@),
{
    String::from_utf8_lossy(bytes).into_owned()
}

/// True when `t` is the beginning of a well-formed UTF-8 encoding of one
/// scalar that stops before the encoding is complete: the condition under
/// which `std::str::from_utf8` reports an error with no `error_len` ("the end
/// of the input was reached unexpectedly").
pub open spec fn truncated_scalar(t: Seq<u8>) -> bool {
    let n = t.len();
    if n == 0 || n > 3 {
        false
    } else {
        let b0 = t[0];
        if 0xc2 <= b0 <= 0xdf {
            n == 1
        } else if 0xe0 <= b0 <= 0xef {
            n == 1 || (n == 2 && second_byte_ok(b0, t[1]))
        } else if 0xf0 <= b0 <= 0xf4 {
            n == 1 || (n == 2 && second_byte_ok(b0, t[1])) || (n == 3 && second_byte_ok(b0, t[1])
                && 0x80 <= t[2] <= 0xbf)
        } else {
            false
        }
    }
}

/// Range of the byte that may follow the leading byte `b0` of a 3- or 4-byte
/// encoding.
pub open spec fn second_byte_ok(b0: u8, b1: u8) -> bool {
    if b0 == 0xe0 {
        0xa0 <= b1 <= 0xbf
    } else if b0 == 0xed {
        0x80 <= b1 <= 0x9f
    } else if b0 == 0xf0 {
        0x90 <= b1 <= 0xbf
    } else if b0 == 0xf4 {
        0x80 <= b1 <= 0x8f
    } else {
        0x80 <= b1 <= 0xbf
    }
}

/// Where a pending buffer may be cut without splitting a character: scanning
/// well-formed scalars from `i`, the start of a final truncated scalar if the
/// buffer ends in one, and the whole length otherwise.
pub open spec fn utf8_cut_from(b: Seq<u8>, i: int) -> int
    decreases b.len() - i,
{
    if i < 0 || i >= b.len() {
        b.len() as int
    } else {
        let rest = b.subrange(i, b.len() as int);
        if valid_first_scalar(rest) {
            if length_of_first_scalar(rest) >= 1 {
                utf8_cut_from(b, i + length_of_first_scalar(rest))
            } else {
                b.len() as int
            }
        } else if truncated_scalar(rest) {
            i
        } else {
            b.len() as int
        }
    }
}

/// The cut point of a whole buffer (see [`utf8_cut_from`]).
pub open spec fn utf8_cut(b: Seq<u8>) -> int {
    utf8_cut_from(b, 0)
}

/// One byte arriving at a splitter whose pending bytes are `pending`: the
/// completed line segment, if any, and the new pending bytes.
pub open spec fn step(pending: Seq<u8>, c: u8) -> (Option<Seq<u8>>, Seq<u8>) {
    let p = pending.push(c);
    if c != 10u8 && p.len() < MAX_LINE_BYTES {
        (None, p)
    } else {
        let split = if c == 10u8 {
            p.len() as int
        } else {
            utf8_cut(p)
        };
        if split > 0 {
            (Some(p.subrange(0, split)), p.subrange(split, p.len() as int))
        } else {
            (None, p)
        }
    }
}

/// Feeding `chunk` to a splitter with pending bytes `pending`: the completed
/// line segments in order, and the pending bytes left over.
pub open spec fn feed(pending: Seq<u8>, chunk: Seq<u8>) -> (Seq<Seq<u8>>, Seq<u8>)
    decreases chunk.len(),
{
    if chunk.len() == 0 {
        (Seq::empty(), pending)
    } else {
        let (segs, p1) = feed(pending, chunk.drop_last());
        let (seg, p2) = step(p1, chunk.last());
        match seg {
            Some(s) => (segs.push(s), p2),
            None => (segs, p2),
        }
    }
}

/// The log line made of a completed segment: its lossy decoding with
/// trailing whitespace (including `\r`) removed.
pub open spec fn line_text(seg: Seq<u8>) -> Seq<char> {
    trim_end(utf8_lossy(seg))
}

/// The log lines made of a sequence of segments.
pub open spec fn line_texts(segs: Seq<Seq<u8>>) -> Seq<Seq<char>> {
    segs.map_values(|s: Seq<u8>| line_text(s))
}

/// Decodes the first scalar of `b[i..]`, returning its encoded length when it
/// is well formed.
fn first_scalar_len(b: &Vec<u8>, i: usize) -> (r: Option<usize>)
    requires
        i < b.len(),
    ensures
        r.is_some() == valid_first_scalar(b@.subrange(i as int, b@.len() as int)),
        r.is_some() ==> r.unwrap() == length_of_first_scalar(
            b@.subrange(i as int, b@.len() as int),
        ),
{
    let ghost rest = b@.subrange(i as int, b@.len() as int);
    let n = b.len() - i;
    let b0 = b[i];
    assert(rest[0] == b0);
    if b0 <= 0x7f {
        let cp: u32 = (b0 & 0x7F) as u32;
        return Some(1);
    } else if 0xc0 <= b0 && b0 <= 0xdf {
        if n >= 2 && 0x80 <= b[i + 1] && b[i + 1] <= 0xbf {
            assert(rest[1] == b[i + 1 as int]);
            let cp: u32 = (((b0 & 0x1F) as u32) << 6) | ((b[i + 1] & 0x3f) as u32);
            if 0x80 <= cp && !(0xD800 <= cp && cp <= 0xDFFF) {
                return Some(2);
            }
        }
        return None;
    } else if 0xe0 <= b0 && b0 <= 0xef {
        if n >= 3 && 0x80 <= b[i + 1] && b[i + 1] <= 0xbf && 0x80 <= b[i + 2] && b[i + 2] <= 0xbf {
            assert(rest[1] == b[i + 1 as int]);
            assert(rest[2] == b[i + 2 as int]);
            let cp: u32 = (((b0 & 0x0F) as u32) << 12) | (((b[i + 1] & 0x3f) as u32) << 6) | ((b[i
                + 2] & 0x3f) as u32);
            if 0x800 <= cp && !(0xD800 <= cp && cp <= 0xDFFF) {
                return Some(3);
            }
        }
        return None;
    } else if 0xf0 <= b0 && b0 <= 0xf7 {
        if n >= 4 && 0x80 <= b[i + 1] && b[i + 1] <= 0xbf && 0x80 <= b[i + 2] && b[i + 2] <= 0xbf
            && 0x80 <= b[i + 3] && b[i + 3] <= 0xbf {
            assert(rest[1] == b[i + 1 as int]);
            assert(rest[2] == b[i + 2 as int]);
            assert(rest[3] == b[i + 3 as int]);
            let cp: u32 = (((b0 & 0x07) as u32) << 18) | (((b[i + 1] & 0x3f) as u32) << 12) | (((b[i
                + 2] & 0x3f) as u32) << 6) | ((b[i + 3] & 0x3f) as u32);
            if 0x10000 <= cp && cp <= 0x10ffff && !(0xD800 <= cp && cp <= 0xDFFF) {
                return Some(4);
            }
        }
        return None;
    } else {
        return None;
    }
}

/// Whether `b[i..]` is a truncated scalar (see [`truncated_scalar`]).
fn is_truncated_at(b: &Vec<u8>, i: usize) -> (r: bool)
    requires
        i < b.len(),
    ensures
        r == truncated_scalar(b@.subrange(i as int, b@.len() as int)),
{
    let ghost rest = b@.subrange(i as int, b@.len() as int);
    let n = b.len() - i;
    if n > 3 {
        return false;
    }
    let b0 = b[i];
    assert(rest[0] == b0);
    if n >= 2 {
        assert(rest[1] == b[i + 1 as int]);
    }
    if n >= 3 {
        assert(rest[2] == b[i + 2 as int]);
    }
    if 0xc2 <= b0 && b0 <= 0xdf {
        n == 1
    } else if 0xe0 <= b0 && b0 <= 0xef {
        n == 1 || (n == 2 && second_ok(b0, b[i + 1]))
    } else if 0xf0 <= b0 && b0 <= 0xf4 {
        n == 1 || (n == 2 && second_ok(b0, b[i + 1])) || (n == 3 && second_ok(b0, b[i + 1]) && 0x80
            <= b[i + 2] && b[i + 2] <= 0xbf)
    } else {
        false
    }
}

fn second_ok(b0: u8, b1: u8) -> (r: bool)
    ensures
        r == second_byte_ok(b0, b1),
{
    if b0 == 0xe0 {
        0xa0 <= b1 && b1 <= 0xbf
    } else if b0 == 0xed {
        0x80 <= b1 && b1 <= 0x9f
    } else if b0 == 0xf0 {
        0x90 <= b1 && b1 <= 0xbf
    } else if b0 == 0xf4 {
        0x80 <= b1 && b1 <= 0x8f
    } else {
        0x80 <= b1 && b1 <= 0xbf
    }
}

/// The cut point of `b` (see [`utf8_cut`]).
pub fn utf8_cut_point(b: &Vec<u8>) -> (r: usize)
    ensures
        r == utf8_cut(b@),
{
    let mut i: usize = 0;
    while i < b.len()
        invariant
            i <= b@.len(),
            utf8_cut(b@) == utf8_cut_from(b@, i as int),
        decreases b@.len() - i,
    {
        match first_scalar_len(b, i) {
            Some(w) => {
                i = i + w;
            },
            None => {
                if is_truncated_at(b, i) {
                    return i;
                } else {
                    return b.len();
                }
            },
        }
    }
    b.len()
}

/// Splits a byte stream into log lines, incrementally. Lines are cut at `\n`,
/// or when the pending buffer reaches [`MAX_LINE_BYTES`] (at a UTF-8 boundary
/// when possible). Trailing whitespace (including `\r`) is trimmed.
pub struct LineSplitter {
    pending: Vec<u8>,
}

impl Default for LineSplitter {
    /// A splitter with nothing pending.
    fn default() -> (s: Self)
        ensures
            s.pending_spec() == Seq::<u8>::empty(),
    {
        LineSplitter::new()
    }
}

impl LineSplitter {
    /// The bytes received since the last completed line.
    pub closed spec fn pending_spec(&self) -> Seq<u8> {
        self.pending@
    }

    /// A splitter with nothing pending.
    pub fn new() -> (s: Self)
        ensures
            s.pending_spec() == Seq::<u8>::empty(),
    {
        LineSplitter { pending: Vec::new() }
    }

    /// Feeds `chunk` and returns the lines it completes, in order.
    pub fn push(&mut self, chunk: &[u8]) -> (lines: Vec<String>)
        ensures
            views_of(lines@) == line_texts(feed(old(self).pending_spec(), chunk@).0),
            final(self).pending_spec() == feed(old(self).pending_spec(), chunk@).1,
    {
        let mut lines: Vec<String> = Vec::new();
        let mut k: usize = 0;
        while k < chunk.len()
            invariant
                k <= chunk@.len(),
                views_of(lines@) == line_texts(feed(old(self).pending_spec(), chunk@.take(k as int)).0),
                self.pending@ == feed(old(self).pending_spec(), chunk@.take(k as int)).1,
            decreases chunk@.len() - k,
        {
            let byte = chunk[k];
            let ghost before = self.pending@;
            let ghost lines_before = lines@;
            proof {
                assert(chunk@.take(k + 1).drop_last() == chunk@.take(k as int));
                assert(chunk@.take(k + 1).last() == byte);
            }
            self.pending.push(byte);
            if byte != 10u8 && self.pending.len() < MAX_LINE_BYTES {
                k = k + 1;
                continue;
            }
            let split = if byte != 10u8 {
                utf8_cut_point(&self.pending)
            } else {
                self.pending.len()
            };
            proof {
                lemma_cut_bounds(self.pending@, 0);
            }
            if split > 0 {
                let seg = slice_prefix(&self.pending, split);
                let text = lossy_string(seg.as_slice());
                let line = trimmed_end(text.as_str());
                lines.push(line);
                let rest = slice_suffix(&self.pending, split);
                self.pending = rest;
                proof {
                    let segs = feed(old(self).pending_spec(), chunk@.take(k as int)).0;
                    assert(line_texts(segs.push(seg@)) == line_texts(segs).push(line_text(seg@)));
                    assert(views_of(lines@) == views_of(lines_before).push(line@));
                }
            }
            k = k + 1;
        }
        assert(chunk@.take(chunk@.len() as int) == chunk@);
        lines
    }

    /// The last line once the stream has ended, if bytes are still pending
    /// (typically a crash message without a trailing newline).
    pub fn finish(self) -> (r: Option<String>)
        ensures
            self.pending_spec().len() == 0 ==> r.is_none(),
            self.pending_spec().len() > 0 ==> r.is_some() && r.unwrap()@ == line_text(
                self.pending_spec(),
            ),
    {
        if self.pending.len() == 0 {
            return None;
        }
        let text = lossy_string(self.pending.as_slice());
        Some(trimmed_end(text.as_str()))
    }
}

/// The views of a sequence of strings.
pub open spec fn views_of(v: Seq<String>) -> Seq<Seq<char>> {
    v.map_values(|s: String| s@)
}

/// All segments, concatenated.
pub open spec fn concat_all(segs: Seq<Seq<u8>>) -> Seq<u8>
    decreases segs.len(),
{
    if segs.len() == 0 {
        Seq::empty()
    } else {
        concat_all(segs.drop_last()) + segs.last()
    }
}

/// Feeding a stream in two chunks completes the same lines, and leaves the
/// same pending bytes, as feeding it at once: a line that spans chunks is
/// reassembled.
pub proof fn law_feed_chunking(pending: Seq<u8>, a: Seq<u8>, b: Seq<u8>)
    ensures
        feed(pending, a + b).0 == feed(pending, a).0 + feed(feed(pending, a).1, b).0,
        feed(pending, a + b).1 == feed(feed(pending, a).1, b).1,
    decreases b.len(),
{
    if b.len() == 0 {
        assert(a + b == a);
        assert(feed(pending, a).0 + Seq::<Seq<u8>>::empty() == feed(pending, a).0);
    } else {
        assert((a + b).drop_last() == a + b.drop_last());
        assert((a + b).last() == b.last());
        law_feed_chunking(pending, a, b.drop_last());
        let q = feed(pending, a).1;
        let (s1, p1) = feed(q, b.drop_last());
        let (seg, p2) = step(p1, b.last());
        match seg {
            Some(x) => {
                assert(feed(pending, a).0 + s1.push(x) == (feed(pending, a).0 + s1).push(x));
            },
            None => {},
        }
    }
}

/// No byte is lost or duplicated: the completed segments followed by the new
/// pending bytes are exactly the old pending bytes followed by the chunk.
pub proof fn law_feed_preserves_bytes(pending: Seq<u8>, chunk: Seq<u8>)
    ensures
        concat_all(feed(pending, chunk).0) + feed(pending, chunk).1 == pending + chunk,
    decreases chunk.len(),
{
    if chunk.len() > 0 {
        law_feed_preserves_bytes(pending, chunk.drop_last());
        let (segs, p1) = feed(pending, chunk.drop_last());
        let c = chunk.last();
        let p = p1.push(c);
        assert(pending + chunk == (pending + chunk.drop_last()).push(c));
        let (seg, p2) = step(p1, c);
        lemma_cut_bounds(p, 0);
        match seg {
            Some(x) => {
                assert(segs.push(x).drop_last() == segs);
                assert(x + p2 == p);
                assert(concat_all(segs.push(x)) + p2 == concat_all(segs) + p);
            },
            None => {},
        }
    }
}

/// Once the pending buffer is shorter than [`MAX_LINE_BYTES`] it stays so:
/// an overlong line is always cut.
pub proof fn law_pending_stays_bounded(pending: Seq<u8>, chunk: Seq<u8>)
    requires
        pending.len() < MAX_LINE_BYTES,
    ensures
        feed(pending, chunk).1.len() < MAX_LINE_BYTES,
    decreases chunk.len(),
{
    if chunk.len() > 0 {
        law_pending_stays_bounded(pending, chunk.drop_last());
        let p1 = feed(pending, chunk.drop_last()).1;
        let c = chunk.last();
        let p = p1.push(c);
        lemma_cut_tail(p, 0);
        lemma_cut_bounds(p, 0);
        if !(c != 10u8 && p.len() < MAX_LINE_BYTES) {
            let split = if c == 10u8 {
                p.len() as int
            } else {
                utf8_cut(p)
            };
            assert(split > 0);
            assert(p.subrange(split, p.len() as int).len() < MAX_LINE_BYTES);
        }
    }
}

proof fn lemma_cut_tail(b: Seq<u8>, i: int)
    requires
        0 <= i <= b.len(),
    ensures
        utf8_cut_from(b, i) == b.len() || (i <= utf8_cut_from(b, i) && b.len() - utf8_cut_from(b, i)
            <= 3),
    decreases b.len() - i,
{
    if i < b.len() {
        let rest = b.subrange(i, b.len() as int);
        if valid_first_scalar(rest) && length_of_first_scalar(rest) >= 1 {
            assert(length_of_first_scalar(rest) <= rest.len());
            lemma_cut_tail(b, i + length_of_first_scalar(rest));
        }
    }
}

proof fn lemma_cut_bounds(b: Seq<u8>, i: int)
    requires
        0 <= i <= b.len(),
    ensures
        i <= utf8_cut_from(b, i) <= b.len(),
    decreases b.len() - i,
{
    if i < b.len() {
        let rest = b.subrange(i, b.len() as int);
        if valid_first_scalar(rest) && length_of_first_scalar(rest) >= 1 {
            assert(length_of_first_scalar(rest) <= rest.len());
            lemma_cut_bounds(b, i + length_of_first_scalar(rest));
        }
    }
}

fn slice_prefix(v: &Vec<u8>, n: usize) -> (r: Vec<u8>)
    requires
        n <= v.len(),
    ensures
        r@ == v@.subrange(0, n as int),
{
    let mut r: Vec<u8> = Vec::new();
    let mut i: usize = 0;
    while i < n
        invariant
            i <= n <= v.len(),
            r@ == v@.subrange(0, i as int),
        decreases n - i,
    {
        r.push(v[i]);
        i = i + 1;
        assert(r@ == v@.subrange(0, i as int));
    }
    r
}

fn slice_suffix(v: &Vec<u8>, n: usize) -> (r: Vec<u8>)
    requires
        n <= v.len(),
    ensures
        r@ == v@.subrange(n as int, v@.len() as int),
{
    let mut r: Vec<u8> = Vec::new();
    let mut i: usize = n;
    while i < v.len()
        invariant
            n <= i <= v.len(),
            r@ == v@.subrange(n as int, i as int),
        decreases v.len() - i,
    {
        r.push(v[i]);
        i = i + 1;
        assert(r@ == v@.subrange(n as int, i as int));
    }
    r
}

} // verus!
