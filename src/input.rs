//! The tokenizer: one append-only buffer of every raw argument read so far,
//! a cursor into it, and the raw arguments still to come.

use vstd::prelude::*;
use vstd::string::StringSliceAdditionalSpecFns;
use vstd::utf8::*;

use crate::model::{
    can_commit, commit, current_bytes, current_kind, current_with_dashes_bytes, dash_cursor,
    equals_cursor, kept, lemma_commit_wf, lemma_fresh_cursor_wf, lemma_ignore_dashes_wf, lemma_total_len_nonneg,
    model_wf, total_len, with_ignore_dashes, InputModel,
};
use crate::text::{
    bytes_eq, has_prefix, lemma_boundary_append, lemma_encode_concat, lemma_token_boundary,
    push_str, str_from, str_range, DASH, EQUALS,
};
use crate::part::{InputPart, InputPartLd};
use crate::token_kind::TokenKind;

verus! {

/// The bytes of each argument.
pub open spec fn arg_bytes(args: Seq<String>) -> Seq<Seq<u8>> {
    args.map_values(|s: String| encode_utf8(s@))
}

/// The state in which a tokenizer over `args` starts: the first argument is
/// read and classified.
pub open spec fn initial_model(args: Seq<Seq<u8>>) -> InputModel {
    if args.len() == 0 {
        InputModel {
            buf: Seq::empty(),
            pending: Seq::empty(),
            cursor: None,
            ignore_dashes: false,
            emitted: Seq::empty(),
            marks: Seq::empty(),
        }
    } else {
        InputModel {
            buf: args[0],
            pending: args.drop_first(),
            cursor: Some(dash_cursor(false, args[0], 0)),
            ignore_dashes: false,
            emitted: Seq::empty(),
            marks: Seq::empty(),
        }
    }
}

/// The current token is a no-dash argument equal to `t`.
pub open spec fn no_dash_match(m: InputModel, t: Seq<u8>) -> bool {
    &&& m.cursor is Some
    &&& current_kind(m) == TokenKind::NoDash
    &&& current_bytes(m) == t
}

/// The current token belongs to a single-dash argument and starts with `t`.
pub open spec fn one_dash_match(m: InputModel, t: Seq<u8>) -> bool {
    &&& m.cursor is Some
    &&& (current_kind(m) == TokenKind::OneDash || current_kind(m) == TokenKind::AfterOneDash)
    &&& t.len() <= current_bytes(m).len()
    &&& current_bytes(m).subrange(0, t.len() as int) == t
}

/// The current token belongs to an argument with two or more dashes and is
/// `t`, alone or followed by `=`.
pub open spec fn two_dashes_match(m: InputModel, t: Seq<u8>) -> bool {
    &&& m.cursor is Some
    &&& current_kind(m) == TokenKind::TwoDashes
    &&& t.len() <= current_bytes(m).len()
    &&& current_bytes(m).subrange(0, t.len() as int) == t
    &&& (t.len() == current_bytes(m).len() || current_bytes(m)[t.len() as int] == EQUALS)
}

/// The current token can be a value and equals `t`.
pub open spec fn value_match(m: InputModel, t: Seq<u8>) -> bool {
    &&& m.cursor is Some
    &&& (current_kind(m) == TokenKind::NoDash || current_kind(m) == TokenKind::AfterOneDash
        || current_kind(m) == TokenKind::AfterEquals)
    &&& current_bytes(m) == t
}

/// The current token, leading dashes included, equals `t`.
pub open spec fn value_ld_match(m: InputModel, t: Seq<u8>) -> bool {
    &&& m.cursor is Some
    &&& current_with_dashes_bytes(m) == t
}

/// The bytes of an optional string.
pub open spec fn opt_bytes(o: Option<&str>) -> Option<Seq<u8>> {
    match o {
        Some(s) => Some(s.spec_bytes()),
        None => None,
    }
}

/// A lexer over a sequence of raw arguments.
///
/// Reading the current token is cheap; eating from it advances the cursor and,
/// once an argument is used up, appends the next raw argument to the buffer.
pub struct ArgsInput {
    current: Option<(usize, usize, TokenKind)>,
    args: Vec<String>,
    next_arg: usize,
    buf: String,
    ignore_dashes: bool,
    emitted: Ghost<Seq<u8>>,
    marks: Ghost<Seq<bool>>,
}

/// The tokenizer under the name it has where it reads an explicit list of
/// strings.
pub type StringInput = ArgsInput;

impl View for ArgsInput {
    type V = InputModel;

    closed spec fn view(&self) -> InputModel {
        InputModel {
            buf: encode_utf8(self.buf@),
            pending: arg_bytes(self.args@.subrange(self.next_arg as int, self.args@.len() as int)),
            cursor: match self.current {
                Some(c) => Some((c.0 as int, c.1 as int, c.2)),
                None => None,
            },
            ignore_dashes: self.ignore_dashes,
            emitted: self.emitted@,
            marks: self.marks@,
        }
    }
}

impl ArgsInput {
    /// The invariant of the tokenizer.
    pub closed spec fn wf(&self) -> bool {
        &&& model_wf(self@)
        &&& self.next_arg <= self.args@.len()
    }

    /// The invariant of a tokenizer implies that of its model, and its buffer
    /// fits in memory.
    pub proof fn lemma_wf(&self)
        requires
            self.wf(),
        ensures
            model_wf(self@),
            self@.buf.len() <= usize::MAX,
    {
        lemma_total_len_nonneg(self@.pending);
    }

    /// Creates a tokenizer over `args` and reads the first argument.
    ///
    /// The first argument is often the path of the executable; discard it
    /// with [`ArgsInput::bump_argument`].
    pub fn new(args: Vec<String>) -> (r: Self)
        requires
            total_len(arg_bytes(args@)) <= usize::MAX,
        ensures
            r.wf(),
            r@ == initial_model(arg_bytes(args@)),
    {
        let ghost all = arg_bytes(args@);
        proof {
            assert forall|i: int| 0 <= i < all.len() implies #[trigger] valid_utf8(all[i]) by {
                encode_utf8_valid_utf8(args@[i]@);
            }
        }
        if args.len() == 0 {
            let r = ArgsInput {
                current: None,
                args,
                next_arg: 0,
                buf: String::new(),
                ignore_dashes: false,
                emitted: Ghost(Seq::empty()),
                marks: Ghost(Seq::empty()),
            };
            proof {
                assert(r@.pending =~= Seq::<Seq<u8>>::empty());
                assert(r@.buf =~= Seq::<u8>::empty());
                assert(kept(Seq::<u8>::empty(), Seq::<bool>::empty()) =~= Seq::<u8>::empty());
            }
            r
        } else {
            let buf = args[0].clone();
            proof {
                lemma_total_len_nonneg(all.drop_first());
                assert(total_len(all) == all[0].len() + total_len(all.drop_first()));
                assert(encode_utf8(buf@) == all[0]);
            }
            let first = Self::trim_leading_dashes(false, buf.as_str(), 0);
            let r = ArgsInput {
                current: Some(first),
                args,
                next_arg: 1,
                buf,
                ignore_dashes: false,
                emitted: Ghost(Seq::empty()),
                marks: Ghost(Seq::empty()),
            };
            proof {
                assert(r@.pending =~= all.drop_first());
                assert(r@.buf == all[0]);
                assert(valid_utf8(r@.buf));
                is_char_boundary_start_end_of_seq(r@.buf);
                assert(r@.buf.subrange(0, r@.buf.len() as int) =~= r@.buf);
                lemma_fresh_cursor_wf(r@.buf, false, 0);
                assert(r@.buf.subrange(0, 0) =~= Seq::<u8>::empty());
                assert(total_len(all) == all[0].len() + total_len(all.drop_first()));
            }
            r
        }
    }

    /// Classifies a freshly read argument `s` that starts at byte `current`.
    fn trim_leading_dashes(ignore: bool, s: &str, current: usize) -> (r: (usize, usize, TokenKind))
        requires
            current + s.spec_bytes().len() <= usize::MAX,
        ensures
            (r.0 as int, r.1 as int, r.2) == dash_cursor(ignore, s.spec_bytes(), current as int),
    {
        let b = s.as_bytes();
        if ignore {
            (current, current, TokenKind::NoDash)
        } else if b.len() >= 2 && b[0] == DASH && b[1] == DASH {
            (current + 2, current, TokenKind::TwoDashes)
        } else if b.len() >= 1 && b[0] == DASH {
            (current + 1, current, TokenKind::OneDash)
        } else {
            (current, current, TokenKind::NoDash)
        }
    }

    /// Classifies the rest of the current argument after part of it was eaten
    /// up to byte `current`.
    fn trim_equals(&self, current: usize, kind: TokenKind) -> (r: (usize, usize, TokenKind))
        requires
            current <= self@.buf.len(),
        ensures
            (r.0 as int, r.1 as int, r.2) == equals_cursor(self@.buf, current as int, kind),
    {
        let b = self.buf.as_str().as_bytes();
        let eq = current < b.len() && b[current] == EQUALS;
        match kind {
            TokenKind::NoDash => (current, current, kind),
            TokenKind::OneDash => if eq {
                (current + 1, current + 1, TokenKind::AfterEquals)
            } else {
                (current, current, TokenKind::AfterOneDash)
            },
            TokenKind::TwoDashes | TokenKind::AfterOneDash => if eq {
                (current + 1, current + 1, TokenKind::AfterEquals)
            } else {
                (current, current, kind)
            },
            TokenKind::AfterEquals => (current, current, kind),
        }
    }

    /// Hands out `len` bytes from byte `from` of the buffer and moves the
    /// cursor past them, reading the next raw argument when the current one is
    /// used up.
    fn advance(&mut self, from: usize, len: usize) -> (r: &str)
        requires
            old(self).wf(),
            can_commit(old(self)@, from as int, len as int),
        ensures
            final(self).wf(),
            final(self)@ == commit(old(self)@, from as int, len as int),
            r.spec_bytes() == old(self)@.buf.subrange(from as int, from + len),
    {
        let ghost m = self@;
        let ghost next = commit(m, from as int, len as int);
        proof {
            lemma_commit_wf(m, from as int, len as int);
            lemma_total_len_nonneg(m.pending);
            if m.pending.len() > 0 {
                lemma_total_len_nonneg(m.pending.drop_first());
            }
        }
        let kind = self.current.unwrap().2;
        let end = from + len;
        if end == self.buf.as_str().len() {
            if self.next_arg < self.args.len() {
                let arg = self.args[self.next_arg].as_str();
                proof {
                    lemma_encode_concat(self.buf@, arg@);
                    encode_utf8_valid_utf8(arg@);
                    lemma_boundary_append(m.buf, encode_utf8(arg@), from as int);
                    lemma_boundary_append(m.buf, encode_utf8(arg@), end as int);
                    assert(m.pending[0] == encode_utf8(arg@));
                    assert(total_len(m.pending) == m.pending[0].len() + total_len(
                        m.pending.drop_first(),
                    ));
                }
                push_str(&mut self.buf, arg);
                let cursor = Self::trim_leading_dashes(self.ignore_dashes, arg, end);
                self.current = Some(cursor);
                self.next_arg = self.next_arg + 1;
            } else {
                self.current = None;
            }
        } else {
            let cursor = self.trim_equals(end, kind);
            self.current = Some(cursor);
        }
        self.emitted = Ghost(next.emitted);
        self.marks = Ghost(next.marks);
        proof {
            assert(self@.pending =~= next.pending);
            assert(self@.buf =~= next.buf);
        }
        str_range(self.buf.as_str(), from, end)
    }

    /// Returns the current token without its leading dashes, and its kind, or
    /// `None` if the input is exhausted.
    pub fn current(&self) -> (r: Option<(&str, TokenKind)>)
        requires
            self.wf(),
        ensures
            r is Some == self@.cursor is Some,
            r is Some ==> r.unwrap().0.spec_bytes() == current_bytes(self@) && r.unwrap().1
                == current_kind(self@),
    {
        match self.current {
            Some((i, _, kind)) => Some((str_from(self.buf.as_str(), i), kind)),
            None => None,
        }
    }

    /// Returns the current token with its leading dashes, or `None` if the
    /// input is exhausted.
    pub fn current_str_with_leading_dashes(&self) -> (r: Option<&str>)
        requires
            self.wf(),
        ensures
            r is Some == self@.cursor is Some,
            r is Some ==> r.unwrap().spec_bytes() == current_with_dashes_bytes(self@),
    {
        match self.current {
            Some((_, i, _)) => Some(str_from(self.buf.as_str(), i)),
            None => None,
        }
    }

    /// Eats `len` bytes of the current token, leading dashes not counted.
    ///
    /// Where the token goes on after them, an `=` that follows a flag name is
    /// skipped; where the argument ends, the next one is read.
    pub fn bump(&mut self, len: usize) -> (r: &str)
        requires
            old(self).wf(),
            can_commit(old(self)@, old(self)@.cursor.unwrap().0, len as int),
        ensures
            final(self).wf(),
            final(self)@ == commit(old(self)@, old(self)@.cursor.unwrap().0, len as int),
            r.spec_bytes() == current_bytes(old(self)@).subrange(0, len as int),
    {
        let from = self.current.unwrap().0;
        let r = self.advance(from, len);
        proof {
            assert(r.spec_bytes() =~= current_bytes(old(self)@).subrange(0, len as int));
        }
        r
    }

    /// Eats `len` bytes of the current token, counted from its leading dashes.
    pub fn bump_with_leading_dashes(&mut self, len: usize) -> (r: &str)
        requires
            old(self).wf(),
            can_commit(old(self)@, old(self)@.cursor.unwrap().1, len as int),
        ensures
            final(self).wf(),
            final(self)@ == commit(old(self)@, old(self)@.cursor.unwrap().1, len as int),
            r.spec_bytes() == current_with_dashes_bytes(old(self)@).subrange(0, len as int),
    {
        let from = self.current.unwrap().1;
        let r = self.advance(from, len);
        proof {
            assert(r.spec_bytes() =~= current_with_dashes_bytes(old(self)@).subrange(
                0,
                len as int,
            ));
        }
        r
    }

    /// Eats the rest of the current argument, leading dashes not counted.
    pub fn bump_argument(&mut self) -> (r: Option<&str>)
        requires
            old(self).wf(),
        ensures
            final(self).wf(),
            old(self)@.cursor is None ==> r is None && final(self)@ == old(self)@,
            old(self)@.cursor is Some ==> r is Some && r.unwrap().spec_bytes() == current_bytes(
                old(self)@,
            ) && final(self)@ == commit(
                old(self)@,
                old(self)@.cursor.unwrap().0,
                current_bytes(old(self)@).len() as int,
            ),
    {
        match self.current {
            Some((i, _, _)) => {
                proof {
                    lemma_total_len_nonneg(self@.pending);
                }
                let len = self.buf.as_str().len() - i;
                proof {
                    is_char_boundary_start_end_of_seq(self@.buf);
                }
                let r = self.bump(len);
                proof {
                    assert(r.spec_bytes() =~= current_bytes(old(self)@));
                }
                Some(r)
            },
            None => None,
        }
    }

    /// Sets the mode: when `true`, every argument counts as positional and
    /// leading dashes are ignored. Turning it off classifies the current token
    /// again from its raw start.
    pub fn set_ignore_dashes(&mut self, ignore: bool)
        requires
            old(self).wf(),
        ensures
            final(self).wf(),
            final(self)@ == with_ignore_dashes(old(self)@, ignore),
    {
        proof {
            lemma_ignore_dashes_wf(self@, ignore);
            lemma_total_len_nonneg(self@.pending);
        }
        self.ignore_dashes = ignore;
        match self.current {
            Some((_, raw, _)) => {
                if ignore {
                    self.current = Some((raw, raw, TokenKind::NoDash));
                } else {
                    let rest = str_from(self.buf.as_str(), raw);
                    let cursor = Self::trim_leading_dashes(false, rest, raw);
                    self.current = Some(cursor);
                }
            },
            None => {},
        }
        proof {
            assert(self@ =~= with_ignore_dashes(old(self)@, ignore));
        }
    }

    /// Returns the mode: when `true`, leading dashes are ignored.
    pub fn ignore_dashes(&self) -> (r: bool)
        ensures
            r == self@.ignore_dashes,
    {
        self.ignore_dashes
    }

    /// Returns `true` if every argument has been eaten.
    pub fn is_empty(&self) -> (r: bool)
        ensures
            r == (self@.cursor is None),
    {
        self.current.is_none()
    }

    /// Returns `true` if some argument is left.
    pub fn is_not_empty(&self) -> (r: bool)
        ensures
            r == (self@.cursor is Some),
    {
        self.current.is_some()
    }

    /// Returns `true` if a value is expected within the same argument: a
    /// single-dash flag or an `=` was just eaten and bytes are left.
    pub fn can_parse_value_no_whitespace(&self) -> (r: bool)
        ensures
            r == (self@.cursor is Some && (current_kind(self@) == TokenKind::AfterOneDash
                || current_kind(self@) == TokenKind::AfterEquals)),
    {
        match self.current {
            Some((_, _, kind)) => match kind {
                TokenKind::AfterOneDash | TokenKind::AfterEquals => true,
                _ => false,
            },
            None => false,
        }
    }

    /// Returns `true` if the current token can be a flag or a named argument
    /// (e.g. `-h`, `--help=config`).
    pub fn can_parse_dash_argument(&self) -> (r: bool)
        ensures
            r == (self@.cursor is Some && (current_kind(self@) == TokenKind::OneDash
                || current_kind(self@) == TokenKind::TwoDashes || current_kind(self@)
                == TokenKind::AfterOneDash)),
    {
        match self.current {
            Some((_, _, kind)) => match kind {
                TokenKind::OneDash | TokenKind::TwoDashes | TokenKind::AfterOneDash => true,
                _ => false,
            },
            None => false,
        }
    }

    /// Eats the current token if its argument has no leading dash and the
    /// token equals `token`.
    pub fn eat_no_dash(&mut self, token: &str) -> (r: Option<&str>)
        requires
            old(self).wf(),
        ensures
            final(self).wf(),
            no_dash_match(old(self)@, token.spec_bytes()) ==> opt_bytes(r) == Some(
                token.spec_bytes(),
            ) && final(self)@ == commit(
                old(self)@,
                old(self)@.cursor.unwrap().0,
                token.spec_bytes().len() as int,
            ),
            !no_dash_match(old(self)@, token.spec_bytes()) ==> r is None && final(self)@ == old(
                self,
            )@,
    {
        if let Some((s, TokenKind::NoDash)) = self.current() {
            if bytes_eq(token.as_bytes(), s.as_bytes()) {
                proof {
                    assert(current_bytes(self@).subrange(0, token.spec_bytes().len() as int)
                        =~= token.spec_bytes());
                    lemma_prefix_commit(self@, token@, token.spec_bytes());
                }
                return Some(self.bump(token.len()));
            }
        }
        None
    }

    /// Eats `token` from the current token if its argument starts with a
    /// single dash and the current token starts with `token`.
    ///
    /// Only the bytes of `token` are eaten, so the letters of a bundle such as
    /// `-abc` can be eaten one at a time. Does not match after an `=`.
    pub fn eat_one_dash(&mut self, token: &str) -> (r: Option<&str>)
        requires
            old(self).wf(),
        ensures
            final(self).wf(),
            one_dash_match(old(self)@, token.spec_bytes()) ==> opt_bytes(r) == Some(
                token.spec_bytes(),
            ) && final(self)@ == commit(
                old(self)@,
                old(self)@.cursor.unwrap().0,
                token.spec_bytes().len() as int,
            ),
            !one_dash_match(old(self)@, token.spec_bytes()) ==> r is None && final(self)@ == old(
                self,
            )@,
    {
        let cur = self.current();
        let matched = match cur {
            Some((s, TokenKind::OneDash)) | Some((s, TokenKind::AfterOneDash)) => has_prefix(
                s.as_bytes(),
                token.as_bytes(),
            ),
            _ => false,
        };
        if matched {
            proof {
                lemma_prefix_commit(self@, token@, token.spec_bytes());
            }
            Some(self.bump(token.len()))
        } else {
            None
        }
    }

    /// Eats `token` from the current token if its argument starts with two or
    /// more dashes and the current token is `token`, alone or followed by an
    /// `=`.
    ///
    /// The `=` is not eaten here: it is skipped when the cursor moves on.
    pub fn eat_two_dashes(&mut self, token: &str) -> (r: Option<&str>)
        requires
            old(self).wf(),
        ensures
            final(self).wf(),
            two_dashes_match(old(self)@, token.spec_bytes()) ==> opt_bytes(r) == Some(
                token.spec_bytes(),
            ) && final(self)@ == commit(
                old(self)@,
                old(self)@.cursor.unwrap().0,
                token.spec_bytes().len() as int,
            ),
            !two_dashes_match(old(self)@, token.spec_bytes()) ==> r is None && final(self)@
                == old(self)@,
    {
        let cur = self.current();
        let matched = match cur {
            Some((s, TokenKind::TwoDashes)) => {
                let b = s.as_bytes();
                let t = token.as_bytes();
                has_prefix(b, t) && (t.len() == b.len() || b[t.len()] == EQUALS)
            },
            _ => false,
        };
        if matched {
            proof {
                lemma_prefix_commit(self@, token@, token.spec_bytes());
            }
            Some(self.bump(token.len()))
        } else {
            None
        }
    }

    /// Eats the current token if it equals `token` and can be a value: its
    /// kind is `NoDash`, `AfterOneDash` or `AfterEquals`.
    pub fn eat_value(&mut self, token: &str) -> (r: Option<&str>)
        requires
            old(self).wf(),
        ensures
            final(self).wf(),
            value_match(old(self)@, token.spec_bytes()) ==> opt_bytes(r) == Some(
                token.spec_bytes(),
            ) && final(self)@ == commit(
                old(self)@,
                old(self)@.cursor.unwrap().0,
                token.spec_bytes().len() as int,
            ),
            !value_match(old(self)@, token.spec_bytes()) ==> r is None && final(self)@ == old(
                self,
            )@,
    {
        let cur = self.current();
        let matched = match cur {
            Some((s, TokenKind::NoDash)) | Some((s, TokenKind::AfterOneDash)) | Some(
                (s, TokenKind::AfterEquals),
            ) => bytes_eq(s.as_bytes(), token.as_bytes()),
            _ => false,
        };
        if matched {
            proof {
                assert(current_bytes(self@).subrange(0, token.spec_bytes().len() as int)
                    =~= token.spec_bytes());
                lemma_prefix_commit(self@, token@, token.spec_bytes());
            }
            Some(self.bump(token.len()))
        } else {
            None
        }
    }

    /// Eats the current token, leading dashes included, if it equals `token`.
    pub fn eat_value_allows_leading_dashes(&mut self, token: &str) -> (r: Option<&str>)
        requires
            old(self).wf(),
        ensures
            final(self).wf(),
            value_ld_match(old(self)@, token.spec_bytes()) ==> opt_bytes(r) == Some(
                token.spec_bytes(),
            ) && final(self)@ == commit(
                old(self)@,
                old(self)@.cursor.unwrap().1,
                token.spec_bytes().len() as int,
            ),
            !value_ld_match(old(self)@, token.spec_bytes()) ==> r is None && final(self)@ == old(
                self,
            )@,
    {
        let cur = self.current_str_with_leading_dashes();
        let matched = match cur {
            Some(s) => bytes_eq(s.as_bytes(), token.as_bytes()),
            None => false,
        };
        if matched {
            proof {
                assert(current_with_dashes_bytes(self@).subrange(0, token.spec_bytes().len() as int)
                    =~= token.spec_bytes());
                lemma_raw_prefix_commit(self@, token@, token.spec_bytes());
            }
            Some(self.bump_with_leading_dashes(token.len()))
        } else {
            None
        }
    }

    /// The first `len` bytes of the current token, leading dashes not
    /// counted.
    pub(crate) fn current_prefix(&self, len: usize) -> (r: &str)
        requires
            self.wf(),
            self@.cursor is Some,
            self@.cursor.unwrap().0 + len <= self@.buf.len(),
            is_char_boundary(self@.buf, self@.cursor.unwrap().0 + len),
        ensures
            r.spec_bytes() == current_bytes(self@).subrange(0, len as int),
    {
        proof {
            self.lemma_wf();
        }
        let from = self.current.unwrap().0;
        let r = str_range(self.buf.as_str(), from, from + len);
        proof {
            assert(r.spec_bytes() =~= current_bytes(self@).subrange(0, len as int));
        }
        r
    }

    /// The first `len` bytes of the current token, leading dashes counted.
    pub(crate) fn raw_prefix(&self, len: usize) -> (r: &str)
        requires
            self.wf(),
            self@.cursor is Some,
            self@.cursor.unwrap().1 + len <= self@.buf.len(),
            is_char_boundary(self@.buf, self@.cursor.unwrap().1 + len),
        ensures
            r.spec_bytes() == current_with_dashes_bytes(self@).subrange(0, len as int),
    {
        proof {
            self.lemma_wf();
        }
        let from = self.current.unwrap().1;
        let r = str_range(self.buf.as_str(), from, from + len);
        proof {
            assert(r.spec_bytes() =~= current_with_dashes_bytes(self@).subrange(0, len as int));
        }
        r
    }

    /// A view of the whole current token, leading dashes not counted.
    fn whole_part(&mut self) -> (r: InputPart<'_>)
        requires
            old(self).wf(),
            old(self)@.cursor is Some,
        ensures
            r.len == current_bytes(old(self)@).len(),
            *r.input == *old(self),
            *final(r.input) == *final(self),
            r.wf(),
    {
        proof {
            self.lemma_wf();
        }
        let len = self.buf.as_str().len() - self.current.unwrap().0;
        proof {
            is_char_boundary_start_end_of_seq(self@.buf);
        }
        InputPart { input: self, len }
    }

    /// If the current argument has no leading dash, returns a view of the
    /// current token to measure, shorten and eat.
    pub fn no_dash(&mut self) -> (r: Option<InputPart<'_>>)
        requires
            old(self).wf(),
        ensures
            match r {
                Some(p) => old(self)@.cursor is Some && current_kind(old(self)@)
                    == TokenKind::NoDash && p.len == current_bytes(old(self)@).len() && *p.input
                    == *old(self) && *final(p.input) == *final(self) && p.wf(),
                None => !(old(self)@.cursor is Some && current_kind(old(self)@)
                    == TokenKind::NoDash) && *final(self) == *old(self),
            },
    {
        match self.current {
            Some((_, _, TokenKind::NoDash)) => Some(self.whole_part()),
            _ => None,
        }
    }

    /// If the current argument starts with a single dash, returns a view of
    /// the current token to measure, shorten and eat.
    pub fn one_dash(&mut self) -> (r: Option<InputPart<'_>>)
        requires
            old(self).wf(),
        ensures
            match r {
                Some(p) => old(self)@.cursor is Some && current_kind(old(self)@)
                    == TokenKind::OneDash && p.len == current_bytes(old(self)@).len() && *p.input
                    == *old(self) && *final(p.input) == *final(self) && p.wf(),
                None => !(old(self)@.cursor is Some && current_kind(old(self)@)
                    == TokenKind::OneDash) && *final(self) == *old(self),
            },
    {
        match self.current {
            Some((_, _, TokenKind::OneDash)) => Some(self.whole_part()),
            _ => None,
        }
    }

    /// If the current argument starts with two or more dashes, returns a view
    /// of the current token to measure, shorten and eat.
    pub fn two_dashes(&mut self) -> (r: Option<InputPart<'_>>)
        requires
            old(self).wf(),
        ensures
            match r {
                Some(p) => old(self)@.cursor is Some && current_kind(old(self)@)
                    == TokenKind::TwoDashes && p.len == current_bytes(old(self)@).len()
                    && *p.input == *old(self) && *final(p.input) == *final(self) && p.wf(),
                None => !(old(self)@.cursor is Some && current_kind(old(self)@)
                    == TokenKind::TwoDashes) && *final(self) == *old(self),
            },
    {
        match self.current {
            Some((_, _, TokenKind::TwoDashes)) => Some(self.whole_part()),
            _ => None,
        }
    }

    /// If the current token can be a value (its kind is `NoDash`,
    /// `AfterOneDash` or `AfterEquals`), returns a view of it to measure,
    /// shorten and eat. Such a value never starts with the dash of an
    /// argument.
    pub fn value(&mut self) -> (r: Option<InputPart<'_>>)
        requires
            old(self).wf(),
        ensures
            match r {
                Some(p) => old(self)@.cursor is Some && (current_kind(old(self)@)
                    == TokenKind::NoDash || current_kind(old(self)@) == TokenKind::AfterOneDash
                    || current_kind(old(self)@) == TokenKind::AfterEquals) && p.len
                    == current_bytes(old(self)@).len() && *p.input == *old(self) && *final(p.input) == *final(self) && p.wf(),
                None => !(old(self)@.cursor is Some && (current_kind(old(self)@)
                    == TokenKind::NoDash || current_kind(old(self)@) == TokenKind::AfterOneDash
                    || current_kind(old(self)@) == TokenKind::AfterEquals)) && *final(self)
                    == *old(self),
            },
    {
        match self.current {
            Some((_, _, TokenKind::NoDash))
            | Some((_, _, TokenKind::AfterOneDash))
            | Some((_, _, TokenKind::AfterEquals)) => Some(self.whole_part()),
            _ => None,
        }
    }

    /// Returns a view of the current token, leading dashes included, to
    /// measure, shorten and eat; `None` once the input is exhausted.
    pub fn value_allows_leading_dashes(&mut self) -> (r: Option<InputPartLd<'_>>)
        requires
            old(self).wf(),
        ensures
            match r {
                Some(p) => old(self)@.cursor is Some && p.len == current_with_dashes_bytes(
                    old(self)@,
                ).len() && *p.input == *old(self) && *final(p.input) == *final(self) && p.wf(),
                None => old(self)@.cursor is None && *final(self) == *old(self),
            },
    {
        match self.current {
            Some((_, raw, _)) => {
                proof {
                    self.lemma_wf();
                }
                let len = self.buf.as_str().len() - raw;
                proof {
                    is_char_boundary_start_end_of_seq(self@.buf);
                }
                Some(InputPartLd { input: self, len })
            },
            None => None,
        }
    }
}

/// Eating valid text that the current token starts with is a legal commit.
proof fn lemma_prefix_commit(m: InputModel, cs: Seq<char>, t: Seq<u8>)
    requires
        model_wf(m),
        m.cursor is Some,
        t == encode_utf8(cs),
        t.len() <= current_bytes(m).len(),
        current_bytes(m).subrange(0, t.len() as int) == t,
    ensures
        can_commit(m, m.cursor.unwrap().0, t.len() as int),
        m.buf.len() <= usize::MAX,
{
    lemma_total_len_nonneg(m.pending);
    let c0 = m.cursor.unwrap().0;
    assert(m.buf.subrange(c0, c0 + t.len()) =~= current_bytes(m).subrange(0, t.len() as int));
    encode_utf8_valid_utf8(cs);
    lemma_token_boundary(m.buf, c0, t);
}

/// Eating valid text that the current token, dashes included, starts with is
/// a legal commit.
proof fn lemma_raw_prefix_commit(m: InputModel, cs: Seq<char>, t: Seq<u8>)
    requires
        model_wf(m),
        m.cursor is Some,
        t == encode_utf8(cs),
        t.len() <= current_with_dashes_bytes(m).len(),
        current_with_dashes_bytes(m).subrange(0, t.len() as int) == t,
    ensures
        can_commit(m, m.cursor.unwrap().1, t.len() as int),
        m.buf.len() <= usize::MAX,
{
    lemma_total_len_nonneg(m.pending);
    let r = m.cursor.unwrap().1;
    assert(m.buf.subrange(r, r + t.len()) =~= current_with_dashes_bytes(m).subrange(
        0,
        t.len() as int,
    ));
    encode_utf8_valid_utf8(cs);
    lemma_token_boundary(m.buf, r, t);
}

} // verus!
