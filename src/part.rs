//! Views of the current token: a caller measures and shortens a claim on it,
//! and only eating the claim moves the tokenizer.

use vstd::prelude::*;
use vstd::string::StringSliceAdditionalSpecFns;
use vstd::utf8::*;

use crate::input::ArgsInput;
use crate::model::{commit, current_bytes, current_with_dashes_bytes};
use crate::text::{find_char, find_char_in, lemma_token_boundary};

verus! {

/// A claim on the first `len` bytes of the current token, leading dashes not
/// counted. Made by [`ArgsInput::no_dash`], [`ArgsInput::one_dash`],
/// [`ArgsInput::two_dashes`] and [`ArgsInput::value`].
pub struct InputPart<'a> {
    /// The tokenizer the claim is on.
    pub input: &'a mut ArgsInput,
    /// The number of bytes claimed.
    pub len: usize,
}

impl<'a> InputPart<'a> {
    /// The claim lies in the current token and ends on a character boundary.
    pub open spec fn wf(&self) -> bool {
        &&& self.input.wf()
        &&& self.input@.cursor is Some
        &&& self.len <= current_bytes(self.input@).len()
        &&& is_char_boundary(self.input@.buf, self.input@.cursor.unwrap().0 + self.len)
    }

    /// The claimed bytes.
    pub open spec fn claim(&self) -> Seq<u8> {
        current_bytes(self.input@).subrange(0, self.len as int)
    }

    /// Returns the claimed text.
    pub fn as_str(&self) -> (r: &str)
        requires
            self.wf(),
        ensures
            r.spec_bytes() == self.claim(),
    {
        proof {
            self.input.lemma_wf();
        }
        self.input.current_prefix(self.len)
    }

    /// Returns `true` if nothing is claimed.
    pub fn is_empty(&self) -> (r: bool)
        ensures
            r == (self.len == 0),
    {
        self.len == 0
    }

    /// Returns the number of bytes claimed.
    pub fn len(&self) -> (r: usize)
        ensures
            r == self.len,
    {
        self.len
    }

    /// Claims only the first `len` bytes; the rest belongs to the next token.
    pub fn take(self, len: usize) -> (r: InputPart<'a>)
        requires
            self.wf(),
            len <= self.len,
            is_char_boundary(self.input@.buf, self.input@.cursor.unwrap().0 + len),
        ensures
            r.len == len,
            r.input == self.input,
            r.wf(),
    {
        InputPart { len, ..self }
    }

    /// Claims only the first character; `None` if nothing is claimed.
    pub fn take_char(self) -> (r: Option<InputPart<'a>>)
        requires
            self.wf(),
        ensures
            self.len == 0 <==> r is None,
            r is Some ==> r.unwrap().input == self.input && r.unwrap().wf() && r.unwrap().len
                == length_of_first_scalar(self.claim()),
    {
        if self.len == 0 {
            return None;
        }
        let len = first_char_len(self.as_str());
        proof {
            self.input.lemma_wf();
            lemma_first_char_fits(self.input@.buf, self.input@.cursor.unwrap().0, self.len as int);
        }
        Some(InputPart { len, ..self })
    }

    /// Claims only the text before the first `c`, or all of it if there is
    /// no `c`; the rest belongs to the next token.
    pub fn take_until(self, c: char) -> (r: InputPart<'a>)
        requires
            self.wf(),
        ensures
            r.len == find_char(self.claim(), 0, c),
            r.input == self.input,
            r.wf(),
    {
        let claimed = self.as_str();
        let len = find_char_in(claimed, c);
        proof {
            self.input.lemma_wf();
            encode_utf8_valid_utf8(claimed@);
            assert(self.input@.buf.subrange(
                self.input@.cursor.unwrap().0,
                self.input@.cursor.unwrap().0 + self.len,
            ) =~= self.claim());
            lemma_inner_boundary(
                self.input@.buf,
                self.input@.cursor.unwrap().0,
                self.claim(),
                len as int,
            );
        }
        InputPart { len, ..self }
    }

    /// Eats the claimed text and returns it.
    pub fn eat(self) -> (r: &'a str)
        requires
            self.wf(),
        ensures
            final(self.input).wf(),
            final(self.input)@ == commit(
                old(self.input)@,
                old(self.input)@.cursor.unwrap().0,
                self.len as int,
            ),
            r.spec_bytes() == self.claim(),
    {
        proof {
            self.input.lemma_wf();
        }
        self.input.bump(self.len)
    }
}

/// A claim on the first `len` bytes of the current token, leading dashes
/// counted. Made by [`ArgsInput::value_allows_leading_dashes`].
pub struct InputPartLd<'a> {
    /// The tokenizer the claim is on.
    pub input: &'a mut ArgsInput,
    /// The number of bytes claimed.
    pub len: usize,
}

impl<'a> InputPartLd<'a> {
    /// The claim lies in the current token and ends on a character boundary.
    pub open spec fn wf(&self) -> bool {
        &&& self.input.wf()
        &&& self.input@.cursor is Some
        &&& self.len <= current_with_dashes_bytes(self.input@).len()
        &&& is_char_boundary(self.input@.buf, self.input@.cursor.unwrap().1 + self.len)
    }

    /// The claimed bytes.
    pub open spec fn claim(&self) -> Seq<u8> {
        current_with_dashes_bytes(self.input@).subrange(0, self.len as int)
    }

    /// Returns the claimed text.
    pub fn as_str(&self) -> (r: &str)
        requires
            self.wf(),
        ensures
            r.spec_bytes() == self.claim(),
    {
        proof {
            self.input.lemma_wf();
        }
        self.input.raw_prefix(self.len)
    }

    /// Returns `true` if nothing is claimed.
    pub fn is_empty(&self) -> (r: bool)
        ensures
            r == (self.len == 0),
    {
        self.len == 0
    }

    /// Returns the number of bytes claimed.
    pub fn len(&self) -> (r: usize)
        ensures
            r == self.len,
    {
        self.len
    }

    /// Claims only the first `len` bytes; the rest belongs to the next token.
    pub fn take(self, len: usize) -> (r: InputPartLd<'a>)
        requires
            self.wf(),
            len <= self.len,
            is_char_boundary(self.input@.buf, self.input@.cursor.unwrap().1 + len),
        ensures
            r.len == len,
            r.input == self.input,
            r.wf(),
    {
        InputPartLd { len, ..self }
    }

    /// Claims only the first character; `None` if nothing is claimed.
    pub fn take_char(self) -> (r: Option<InputPartLd<'a>>)
        requires
            self.wf(),
        ensures
            self.len == 0 <==> r is None,
            r is Some ==> r.unwrap().input == self.input && r.unwrap().wf() && r.unwrap().len
                == length_of_first_scalar(self.claim()),
    {
        if self.len == 0 {
            return None;
        }
        let len = first_char_len(self.as_str());
        proof {
            self.input.lemma_wf();
            lemma_first_char_fits(self.input@.buf, self.input@.cursor.unwrap().1, self.len as int);
        }
        Some(InputPartLd { len, ..self })
    }

    /// Claims only the text before the first `c`, or all of it if there is
    /// no `c`; the rest belongs to the next token.
    pub fn take_until(self, c: char) -> (r: InputPartLd<'a>)
        requires
            self.wf(),
        ensures
            r.len == find_char(self.claim(), 0, c),
            r.input == self.input,
            r.wf(),
    {
        let claimed = self.as_str();
        let len = find_char_in(claimed, c);
        proof {
            self.input.lemma_wf();
            encode_utf8_valid_utf8(claimed@);
            assert(self.input@.buf.subrange(
                self.input@.cursor.unwrap().1,
                self.input@.cursor.unwrap().1 + self.len,
            ) =~= self.claim());
            lemma_inner_boundary(
                self.input@.buf,
                self.input@.cursor.unwrap().1,
                self.claim(),
                len as int,
            );
        }
        InputPartLd { len, ..self }
    }

    /// Eats the claimed text and returns it.
    pub fn eat(self) -> (r: &'a str)
        requires
            self.wf(),
        ensures
            final(self.input).wf(),
            final(self.input)@ == commit(
                old(self.input)@,
                old(self.input)@.cursor.unwrap().1,
                self.len as int,
            ),
            r.spec_bytes() == self.claim(),
    {
        proof {
            self.input.lemma_wf();
        }
        self.input.bump_with_leading_dashes(self.len)
    }
}

/// The byte length of the first character of non-empty `s`.
fn first_char_len(s: &str) -> (r: usize)
    requires
        s.spec_bytes().len() > 0,
    ensures
        r == length_of_first_scalar(s.spec_bytes()),
        valid_first_scalar(s.spec_bytes()),
{
    proof {
        encode_utf8_valid_utf8(s@);
    }
    let b0 = s.as_bytes()[0];
    if b0 < 0x80 {
        1
    } else if b0 < 0xe0 {
        2
    } else if b0 < 0xf0 {
        3
    } else {
        4
    }
}

/// Where a claim of `len > 0` bytes starts at a boundary `at` and ends on one,
/// its first character lies within it.
proof fn lemma_first_char_fits(buf: Seq<u8>, at: int, len: int)
    requires
        valid_utf8(buf),
        0 <= at,
        0 < len,
        at + len <= buf.len(),
        is_char_boundary(buf, at),
        is_char_boundary(buf, at + len),
    ensures
        length_of_first_scalar(buf.subrange(at, at + len)) <= len,
        length_of_first_scalar(buf.subrange(at, at + len)) == length_of_first_scalar(
            buf.subrange(at, buf.len() as int),
        ),
        is_char_boundary(buf, at + length_of_first_scalar(buf.subrange(at, at + len))),
{
    crate::text::lemma_next_boundary(buf, at);
    let s = buf.subrange(at, buf.len() as int);
    let w = length_of_first_scalar(s);
    assert(s[0] == buf.subrange(at, at + len)[0]);
    if len < w {
        assert(is_continuation_byte(s[len]));
        is_char_boundary_iff_not_is_continuation_byte(buf, at + len);
    }
}

/// A boundary inside a valid claim that starts at a boundary of the buffer
/// is a boundary of the buffer.
proof fn lemma_inner_boundary(buf: Seq<u8>, at: int, claim: Seq<u8>, k: int)
    requires
        valid_utf8(buf),
        0 <= at,
        is_char_boundary(buf, at),
        at + claim.len() <= buf.len(),
        buf.subrange(at, at + claim.len()) == claim,
        valid_utf8(claim),
        is_char_boundary(claim, k),
    ensures
        is_char_boundary(buf, at + k),
{
    valid_utf8_split(claim, k);
    let t = claim.subrange(0, k);
    assert(buf.subrange(at, at + t.len()) =~= t);
    lemma_token_boundary(buf, at, t);
}

} // verus!
