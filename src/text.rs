//! Byte-level facts about UTF-8 text, and small string helpers built on them.

use vstd::prelude::*;
use vstd::string::StringSliceAdditionalSpecFns;
use vstd::utf8::*;

verus! {

/// The ASCII dash.
pub const DASH: u8 = 0x2d;

/// The ASCII equals sign.
pub const EQUALS: u8 = 0x3d;

/// Encoding a concatenation gives the concatenation of the encodings.
pub proof fn lemma_encode_concat(a: Seq<char>, b: Seq<char>)
    ensures
        encode_utf8(a + b) == encode_utf8(a) + encode_utf8(b),
    decreases a.len(),
{
    if a.len() == 0 {
        assert(a + b =~= b);
        assert(encode_utf8(a) =~= Seq::<u8>::empty());
        assert(encode_utf8(a) + encode_utf8(b) =~= encode_utf8(b));
    } else {
        assert((a + b).drop_first() =~= a.drop_first() + b);
        assert((a + b)[0] == a[0]);
        lemma_encode_concat(a.drop_first(), b);
        assert(encode_utf8(a + b) =~= encode_utf8(a) + encode_utf8(b));
    }
}

/// A valid prefix of a valid byte sequence ends on a character boundary.
pub proof fn lemma_prefix_boundary(s: Seq<u8>, t: Seq<u8>)
    requires
        valid_utf8(s),
        valid_utf8(t),
        t.len() <= s.len(),
        s.subrange(0, t.len() as int) == t,
    ensures
        is_char_boundary(s, t.len() as int),
    decreases t.len(),
{
    if t.len() > 0 {
        assert(t[0] == s[0]);
        let w = length_of_first_scalar(t);
        assert(length_of_first_scalar(s) == w);
        assert(valid_first_scalar(t));
        assert(w <= t.len());
        let ps = pop_first_scalar(s);
        let pt = pop_first_scalar(t);
        assert forall|k: int| 0 <= k < pt.len() implies ps[k] == pt[k] by {
            assert(s.subrange(0, t.len() as int)[w + k] == t[w + k]);
        }
        assert(ps.subrange(0, pt.len() as int) =~= pt);
        lemma_prefix_boundary(ps, pt);
    }
}

/// A character boundary of a valid sequence stays one when more valid text is
/// appended.
pub proof fn lemma_boundary_append(x: Seq<u8>, y: Seq<u8>, i: int)
    requires
        valid_utf8(x),
        valid_utf8(y),
        is_char_boundary(x, i),
    ensures
        valid_utf8(x + y),
        is_char_boundary(x + y, i),
{
    valid_utf8_concat(x, y);
    assert(0 <= i <= x.len());
    valid_utf8_split(x, i);
    let p = x.subrange(0, i);
    assert((x + y).subrange(0, i) =~= p);
    lemma_prefix_boundary(x + y, p);
}

/// The end of a valid sequence is a character boundary of any valid extension.
pub proof fn lemma_end_boundary(x: Seq<u8>, y: Seq<u8>)
    requires
        valid_utf8(x),
        valid_utf8(y),
    ensures
        valid_utf8(x + y),
        is_char_boundary(x + y, x.len() as int),
{
    is_char_boundary_start_end_of_seq(x);
    lemma_boundary_append(x, y, x.len() as int);
}

/// From a character boundary inside a valid sequence, the next boundary lies
/// one encoded scalar further.
pub proof fn lemma_next_boundary(b: Seq<u8>, i: int)
    requires
        valid_utf8(b),
        is_char_boundary(b, i),
        0 <= i < b.len(),
    ensures
        valid_first_scalar(b.subrange(i, b.len() as int)),
        i + length_of_first_scalar(b.subrange(i, b.len() as int)) <= b.len(),
        is_char_boundary(b, i + length_of_first_scalar(b.subrange(i, b.len() as int))),
{
    valid_utf8_split(b, i);
    let s = b.subrange(i, b.len() as int);
    let w = length_of_first_scalar(s);
    assert(valid_first_scalar(s));
    assert(w <= s.len());
    let rest = pop_first_scalar(s);
    if i + w == b.len() {
        is_char_boundary_start_end_of_seq(b);
    } else {
        assert(valid_utf8(rest));
        assert(valid_first_scalar(rest));
        assert(rest[0] == b[i + w]);
        is_char_boundary_iff_not_is_continuation_byte(b, i + w);
    }
}

/// An ASCII byte at a boundary is a whole character.
pub proof fn lemma_ascii_boundary(b: Seq<u8>, i: int)
    requires
        valid_utf8(b),
        is_char_boundary(b, i),
        0 <= i < b.len(),
        b[i] < 0x80,
    ensures
        is_char_boundary(b, i + 1),
{
    lemma_next_boundary(b, i);
    assert(b.subrange(i, b.len() as int)[0] == b[i]);
}

/// Within a valid sequence, a boundary before another is a boundary of the
/// prefix that ends at the second.
pub proof fn lemma_boundary_in_prefix(b: Seq<u8>, i: int, j: int)
    requires
        valid_utf8(b),
        is_char_boundary(b, i),
        is_char_boundary(b, j),
        i <= j,
    ensures
        valid_utf8(b.subrange(0, j)),
        is_char_boundary(b.subrange(0, j), i),
{
    valid_utf8_split(b, j);
    valid_utf8_split(b, i);
    let pj = b.subrange(0, j);
    let pi = b.subrange(0, i);
    assert(pj.subrange(0, i) =~= pi);
    lemma_prefix_boundary(pj, pi);
}

/// Relies on `String::push_str`: the string grows by exactly the appended text.
#[verifier::external_body]
pub(crate) fn push_str(buf: &mut String, s: &str)
    ensures
        final(buf)@ == old(buf)@ + s@,
{
    buf.push_str(s)
}

/// The text of `s` from byte `i` on.
pub fn str_from(s: &str, i: usize) -> (r: &str)
    requires
        is_char_boundary(s.spec_bytes(), i as int),
    ensures
        r.spec_bytes() == s.spec_bytes().subrange(i as int, s.spec_bytes().len() as int),
{
    let (_head, tail) = s.split_at(i);
    tail
}

/// The text of `s` between bytes `i` and `j`.
pub fn str_range(s: &str, i: usize, j: usize) -> (r: &str)
    requires
        i <= j,
        is_char_boundary(s.spec_bytes(), i as int),
        is_char_boundary(s.spec_bytes(), j as int),
    ensures
        r.spec_bytes() == s.spec_bytes().subrange(i as int, j as int),
{
    proof {
        encode_utf8_valid_utf8(s@);
        lemma_boundary_in_prefix(s.spec_bytes(), i as int, j as int);
    }
    let (head, _tail) = s.split_at(j);
    let (_skip, mid) = head.split_at(i);
    proof {
        assert(mid.spec_bytes() =~= s.spec_bytes().subrange(i as int, j as int));
    }
    mid
}

/// Whether `a` and `b` hold the same bytes.
pub fn bytes_eq(a: &[u8], b: &[u8]) -> (r: bool)
    ensures
        r == (a@ == b@),
{
    if a.len() != b.len() {
        return false;
    }
    let mut i: usize = 0;
    while i < a.len()
        invariant
            a@.len() == b@.len(),
            i <= a@.len(),
            forall|k: int| 0 <= k < i ==> a@[k] == b@[k],
        decreases a@.len() - i,
    {
        if a[i] != b[i] {
            return false;
        }
        i = i + 1;
    }
    assert(a@ =~= b@);
    true
}

/// Whether `s` begins with the bytes of `p`.
pub fn has_prefix(s: &[u8], p: &[u8]) -> (r: bool)
    ensures
        r == (p@.len() <= s@.len() && s@.subrange(0, p@.len() as int) == p@),
{
    if p.len() > s.len() {
        return false;
    }
    let mut i: usize = 0;
    while i < p.len()
        invariant
            p@.len() <= s@.len(),
            i <= p@.len(),
            forall|k: int| 0 <= k < i ==> s@[k] == p@[k],
        decreases p@.len() - i,
    {
        if s[i] != p[i] {
            assert(s@.subrange(0, p@.len() as int)[i as int] != p@[i as int]);
            return false;
        }
        i = i + 1;
    }
    assert(s@.subrange(0, p@.len() as int) =~= p@);
    true
}

/// Where valid text `t` is found at a boundary of a valid sequence, its end
/// is a boundary too.
pub proof fn lemma_token_boundary(buf: Seq<u8>, at: int, t: Seq<u8>)
    requires
        valid_utf8(buf),
        valid_utf8(t),
        is_char_boundary(buf, at),
        0 <= at,
        at + t.len() <= buf.len(),
        buf.subrange(at, at + t.len()) == t,
    ensures
        is_char_boundary(buf, at + t.len()),
{
    valid_utf8_split(buf, at);
    let head = buf.subrange(0, at);
    valid_utf8_concat(head, t);
    assert(buf.subrange(0, at + t.len()) =~= head + t);
    lemma_prefix_boundary(buf, head + t);
}

/// The offset of the first character equal to `c` in the valid text `b`,
/// looking from the boundary `from` on; the length of `b` if there is none.
pub open spec fn find_char(b: Seq<u8>, from: int, c: char) -> int
    decreases b.len() - from,
{
    if from < 0 || from >= b.len() {
        b.len() as int
    } else if decode_first_scalar(b.subrange(from, b.len() as int)) == c as u32 {
        from
    } else {
        let next = from + length_of_first_scalar(b.subrange(from, b.len() as int));
        if next > b.len() {
            b.len() as int
        } else {
            find_char(b, next, c)
        }
    }
}

/// Decodes the character that starts at byte `i` of `b`: its scalar value
/// and its length in bytes.
fn decode_at(b: &[u8], i: usize) -> (r: (u32, usize))
    requires
        i < b@.len(),
        valid_first_scalar(b@.subrange(i as int, b@.len() as int)),
    ensures
        r.0 == decode_first_scalar(b@.subrange(i as int, b@.len() as int)),
        r.1 == length_of_first_scalar(b@.subrange(i as int, b@.len() as int)),
{
    let ghost sub = b@.subrange(i as int, b@.len() as int);
    assert(sub[0] == b@[i as int]);
    let b0 = b[i];
    if b0 <= 0x7f {
        ((b0 & 0x7f) as u32, 1)
    } else if b0 <= 0xdf {
        assert(sub[1] == b@[i + 1]);
        let b1 = b[i + 1];
        ((((b0 & 0x1f) as u32) << 6) | ((b1 & 0x3f) as u32), 2)
    } else if b0 <= 0xef {
        assert(sub[1] == b@[i + 1]);
        assert(sub[2] == b@[i + 2]);
        let b1 = b[i + 1];
        let b2 = b[i + 2];
        ((((b0 & 0x0f) as u32) << 12) | (((b1 & 0x3f) as u32) << 6) | ((b2 & 0x3f) as u32), 3)
    } else {
        assert(sub[1] == b@[i + 1]);
        assert(sub[2] == b@[i + 2]);
        assert(sub[3] == b@[i + 3]);
        let b1 = b[i + 1];
        let b2 = b[i + 2];
        let b3 = b[i + 3];
        (
            (((b0 & 0x07) as u32) << 18) | (((b1 & 0x3f) as u32) << 12) | (((b2 & 0x3f) as u32)
                << 6) | ((b3 & 0x3f) as u32),
            4,
        )
    }
}

/// Returns the byte offset of the first `c` in `s`, or the length of `s`.
pub fn find_char_in(s: &str, c: char) -> (r: usize)
    ensures
        r == find_char(s.spec_bytes(), 0, c),
        r <= s.spec_bytes().len(),
        is_char_boundary(s.spec_bytes(), r as int),
{
    let ghost bytes = s.spec_bytes();
    proof {
        encode_utf8_valid_utf8(s@);
        is_char_boundary_start_end_of_seq(bytes);
    }
    let b = s.as_bytes();
    let mut i: usize = 0;
    while i < b.len()
        invariant
            b@ == bytes,
            bytes == s.spec_bytes(),
            valid_utf8(bytes),
            i <= bytes.len(),
            is_char_boundary(bytes, i as int),
            find_char(bytes, 0, c) == find_char(bytes, i as int, c),
        decreases bytes.len() - i,
    {
        proof {
            lemma_next_boundary(bytes, i as int);
        }
        let (cp, w) = decode_at(b, i);
        if cp == c as u32 {
            return i;
        }
        i = i + w;
    }
    i
}

} // verus!
