//! The mathematical model of the tokenizer: its buffer as bytes, the raw
//! arguments not yet read, the cursor, and a ledger of what was handed out.

use vstd::prelude::*;
use vstd::utf8::*;

use crate::text::{lemma_ascii_boundary, lemma_end_boundary, DASH, EQUALS};
use crate::token_kind::TokenKind;

verus! {

/// The state of a tokenizer, as seen by the contracts.
pub struct InputModel {
    /// The bytes of every raw argument read so far, concatenated.
    pub buf: Seq<u8>,
    /// The raw arguments not read yet, in order.
    pub pending: Seq<Seq<u8>>,
    /// `(content start, raw start, kind)` of the current token, or `None`
    /// once the input is exhausted.
    pub cursor: Option<(int, int, TokenKind)>,
    /// Whether leading dashes are ignored.
    pub ignore_dashes: bool,
    /// Every byte handed out by a commit, in order.
    pub emitted: Seq<u8>,
    /// For each consumed byte of `buf`: `true` if a commit handed it out,
    /// `false` if it was stripped as a dash or an equals sign.
    pub marks: Seq<bool>,
}

/// The total number of bytes of a list of arguments.
pub open spec fn total_len(args: Seq<Seq<u8>>) -> int
    decreases args.len(),
{
    if args.len() == 0 {
        0
    } else {
        args[0].len() + total_len(args.drop_first())
    }
}

/// The cursor of a freshly read raw argument `arg` that starts at `start`:
/// two or more leading dashes, exactly one, or none.
pub open spec fn dash_cursor(ignore: bool, arg: Seq<u8>, start: int) -> (int, int, TokenKind) {
    if ignore {
        (start, start, TokenKind::NoDash)
    } else if arg.len() >= 2 && arg[0] == DASH && arg[1] == DASH {
        (start + 2, start, TokenKind::TwoDashes)
    } else if arg.len() >= 1 && arg[0] == DASH {
        (start + 1, start, TokenKind::OneDash)
    } else {
        (start, start, TokenKind::NoDash)
    }
}

/// The cursor after part of a token was eaten and the token goes on at `at`:
/// after a flag name an `=` is skipped and a value follows.
pub open spec fn equals_cursor(buf: Seq<u8>, at: int, kind: TokenKind) -> (int, int, TokenKind) {
    let eq = 0 <= at < buf.len() && buf[at] == EQUALS;
    match kind {
        TokenKind::NoDash => (at, at, TokenKind::NoDash),
        TokenKind::OneDash => if eq {
            (at + 1, at + 1, TokenKind::AfterEquals)
        } else {
            (at, at, TokenKind::AfterOneDash)
        },
        TokenKind::TwoDashes => if eq {
            (at + 1, at + 1, TokenKind::AfterEquals)
        } else {
            (at, at, TokenKind::TwoDashes)
        },
        TokenKind::AfterOneDash => if eq {
            (at + 1, at + 1, TokenKind::AfterEquals)
        } else {
            (at, at, TokenKind::AfterOneDash)
        },
        TokenKind::AfterEquals => (at, at, TokenKind::AfterEquals),
    }
}

/// `n` copies of `v`.
pub open spec fn run(n: int, v: bool) -> Seq<bool> {
    Seq::new(n as nat, |_i: int| v)
}

/// The bytes of `bytes` whose mark is `true`, in order.
pub open spec fn kept(bytes: Seq<u8>, marks: Seq<bool>) -> Seq<u8>
    decreases marks.len(),
{
    if marks.len() == 0 {
        Seq::empty()
    } else {
        (if marks[0] {
            seq![bytes[0]]
        } else {
            Seq::empty()
        }) + kept(bytes.drop_first(), marks.drop_first())
    }
}

/// The number of `false` marks.
pub open spec fn stripped_count(marks: Seq<bool>) -> int
    decreases marks.len(),
{
    if marks.len() == 0 {
        0
    } else {
        (if marks[0] {
            0int
        } else {
            1int
        }) + stripped_count(marks.drop_first())
    }
}

/// Where the consumed part of the buffer ends: the raw start of the current
/// token, or the whole buffer once the input is exhausted.
pub open spec fn consumed_len(m: InputModel) -> int {
    match m.cursor {
        Some(c) => c.1,
        None => m.buf.len() as int,
    }
}

/// The current token without its leading dashes.
pub open spec fn current_bytes(m: InputModel) -> Seq<u8> {
    m.buf.subrange(m.cursor.unwrap().0, m.buf.len() as int)
}

/// The current token with its leading dashes.
pub open spec fn current_with_dashes_bytes(m: InputModel) -> Seq<u8> {
    m.buf.subrange(m.cursor.unwrap().1, m.buf.len() as int)
}

/// The kind of the current token.
pub open spec fn current_kind(m: InputModel) -> TokenKind {
    m.cursor.unwrap().2
}

/// The state after `len` bytes starting at `from` (the content start or the
/// raw start of the current token) were handed out.
pub open spec fn commit(m: InputModel, from: int, len: int) -> InputModel {
    let r = m.cursor.unwrap().1;
    let kind = m.cursor.unwrap().2;
    let end = from + len;
    let marks = m.marks + run(from - r, false) + run(len, true);
    let emitted = m.emitted + m.buf.subrange(from, end);
    if end == m.buf.len() {
        if m.pending.len() > 0 {
            InputModel {
                buf: m.buf + m.pending[0],
                pending: m.pending.drop_first(),
                cursor: Some(dash_cursor(m.ignore_dashes, m.pending[0], end)),
                ignore_dashes: m.ignore_dashes,
                emitted,
                marks,
            }
        } else {
            InputModel {
                buf: m.buf,
                pending: m.pending,
                cursor: None,
                ignore_dashes: m.ignore_dashes,
                emitted,
                marks,
            }
        }
    } else {
        let next = equals_cursor(m.buf, end, kind);
        InputModel {
            buf: m.buf,
            pending: m.pending,
            cursor: Some(next),
            ignore_dashes: m.ignore_dashes,
            emitted,
            marks: marks + run(next.1 - end, false),
        }
    }
}

/// A commit of `len` bytes from `from` is allowed: the input is not
/// exhausted, `from` is the content or the raw start, the bytes lie in the
/// current argument and end on a character boundary.
pub open spec fn can_commit(m: InputModel, from: int, len: int) -> bool {
    &&& m.cursor is Some
    &&& (from == m.cursor.unwrap().0 || from == m.cursor.unwrap().1)
    &&& 0 <= len
    &&& from + len <= m.buf.len()
    &&& is_char_boundary(m.buf, from + len)
}

/// The state after the ignore-dashes mode was set to `ignore`.
pub open spec fn with_ignore_dashes(m: InputModel, ignore: bool) -> InputModel {
    InputModel {
        cursor: match m.cursor {
            Some(c) => if ignore {
                Some((c.1, c.1, TokenKind::NoDash))
            } else {
                Some(dash_cursor(false, m.buf.subrange(c.1, m.buf.len() as int), c.1))
            },
            None => None,
        },
        ignore_dashes: ignore,
        ..m
    }
}

/// The invariant of every tokenizer state.
pub open spec fn model_wf(m: InputModel) -> bool {
    &&& valid_utf8(m.buf)
    &&& forall|i: int| 0 <= i < m.pending.len() ==> #[trigger] valid_utf8(m.pending[i])
    &&& m.buf.len() + total_len(m.pending) <= usize::MAX
    &&& (m.cursor is None ==> m.pending.len() == 0)
    &&& m.marks.len() == consumed_len(m)
    &&& kept(m.buf.subrange(0, consumed_len(m)), m.marks) == m.emitted
    &&& forall|i: int|
        0 <= i < m.marks.len() && !#[trigger] m.marks[i] ==> (m.buf[i] == DASH || m.buf[i]
            == EQUALS)
    &&& match m.cursor {
        Some(c) => {
            &&& 0 <= c.1 <= c.0 <= m.buf.len()
            &&& c.0 - c.1 <= 2
            &&& is_char_boundary(m.buf, c.0)
            &&& is_char_boundary(m.buf, c.1)
            &&& forall|i: int| c.1 <= i < c.0 ==> m.buf[i] == DASH
        },
        None => true,
    }
}

/// `kept` distributes over concatenation.
pub proof fn lemma_kept_concat(b1: Seq<u8>, m1: Seq<bool>, b2: Seq<u8>, m2: Seq<bool>)
    requires
        b1.len() == m1.len(),
        b2.len() == m2.len(),
    ensures
        kept(b1 + b2, m1 + m2) == kept(b1, m1) + kept(b2, m2),
    decreases m1.len(),
{
    if m1.len() == 0 {
        assert(b1 + b2 =~= b2);
        assert(m1 + m2 =~= m2);
        assert(kept(b1, m1) + kept(b2, m2) =~= kept(b2, m2));
    } else {
        assert((b1 + b2).drop_first() =~= b1.drop_first() + b2);
        assert((m1 + m2).drop_first() =~= m1.drop_first() + m2);
        lemma_kept_concat(b1.drop_first(), m1.drop_first(), b2, m2);
        assert(kept(b1 + b2, m1 + m2) =~= kept(b1, m1) + kept(b2, m2));
    }
}

/// `stripped_count` distributes over concatenation.
pub proof fn lemma_stripped_concat(m1: Seq<bool>, m2: Seq<bool>)
    ensures
        stripped_count(m1 + m2) == stripped_count(m1) + stripped_count(m2),
    decreases m1.len(),
{
    if m1.len() == 0 {
        assert(m1 + m2 =~= m2);
    } else {
        assert((m1 + m2).drop_first() =~= m1.drop_first() + m2);
        lemma_stripped_concat(m1.drop_first(), m2);
    }
}

/// Bytes marked as handed out are all kept; bytes marked as stripped are all
/// dropped.
pub proof fn lemma_kept_run(b: Seq<u8>, v: bool)
    ensures
        kept(b, run(b.len() as int, v)) == (if v {
            b
        } else {
            Seq::empty()
        }),
        stripped_count(run(b.len() as int, v)) == (if v {
            0
        } else {
            b.len() as int
        }),
    decreases b.len(),
{
    if b.len() > 0 {
        assert(run(b.len() as int, v).drop_first() =~= run(b.drop_first().len() as int, v));
        lemma_kept_run(b.drop_first(), v);
        if v {
            assert(seq![b[0]] + b.drop_first() =~= b);
        } else {
            assert(Seq::<u8>::empty() + Seq::<u8>::empty() =~= Seq::<u8>::empty());
        }
    } else {
        assert(run(0, v) =~= Seq::<bool>::empty());
    }
}

/// The handed-out bytes are as many as the consumed bytes less the stripped
/// ones.
pub proof fn lemma_kept_len(b: Seq<u8>, m: Seq<bool>)
    requires
        b.len() == m.len(),
    ensures
        kept(b, m).len() + stripped_count(m) == b.len(),
    decreases m.len(),
{
    if m.len() > 0 {
        lemma_kept_len(b.drop_first(), m.drop_first());
    }
}

/// A total length is never negative.
pub proof fn lemma_total_len_nonneg(args: Seq<Seq<u8>>)
    ensures
        total_len(args) >= 0,
    decreases args.len(),
{
    if args.len() > 0 {
        lemma_total_len_nonneg(args.drop_first());
    }
}

/// The cursor of a freshly read argument satisfies the invariant's cursor
/// conditions.
pub proof fn lemma_fresh_cursor_wf(buf: Seq<u8>, ignore: bool, start: int)
    requires
        valid_utf8(buf),
        is_char_boundary(buf, start),
        0 <= start <= buf.len(),
    ensures
        ({
            let c = dash_cursor(ignore, buf.subrange(start, buf.len() as int), start);
            &&& c.1 == start
            &&& start <= c.0 <= buf.len()
            &&& c.0 - c.1 <= 2
            &&& is_char_boundary(buf, c.0)
            &&& forall|i: int| c.1 <= i < c.0 ==> buf[i] == DASH
        }),
{
    let arg = buf.subrange(start, buf.len() as int);
    if !ignore && arg.len() >= 1 && arg[0] == DASH {
        assert(buf[start] == DASH);
        lemma_ascii_boundary(buf, start);
        if arg.len() >= 2 && arg[1] == DASH {
            assert(buf[start + 1] == DASH);
            lemma_ascii_boundary(buf, start + 1);
        }
    }
}

/// A commit keeps the invariant.
pub proof fn lemma_commit_wf(m: InputModel, from: int, len: int)
    requires
        model_wf(m),
        can_commit(m, from, len),
    ensures
        model_wf(commit(m, from, len)),
{
    let c = m.cursor.unwrap();
    let r = c.1;
    let end = from + len;
    let n = commit(m, from, len);
    let marks1 = m.marks + run(from - r, false) + run(len, true);
    let emitted1 = m.emitted + m.buf.subrange(from, end);
    assert(r <= from);
    assert(marks1.len() == end);
    assert(m.buf.subrange(0, end) =~= m.buf.subrange(0, r) + m.buf.subrange(r, from)
        + m.buf.subrange(from, end));
    lemma_kept_concat(
        m.buf.subrange(0, r),
        m.marks,
        m.buf.subrange(r, from),
        run(from - r, false),
    );
    lemma_kept_concat(
        m.buf.subrange(0, r) + m.buf.subrange(r, from),
        m.marks + run(from - r, false),
        m.buf.subrange(from, end),
        run(len, true),
    );
    lemma_kept_run(m.buf.subrange(r, from), false);
    lemma_kept_run(m.buf.subrange(from, end), true);
    assert(kept(m.buf.subrange(0, end), marks1) =~= emitted1);
    assert forall|i: int| 0 <= i < marks1.len() && !#[trigger] marks1[i] implies (m.buf[i] == DASH
        || m.buf[i] == EQUALS) by {
        if i >= r {
            assert(i < from);
        }
    }
    if end == m.buf.len() {
        if m.pending.len() > 0 {
            let arg = m.pending[0];
            assert(valid_utf8(arg));
            lemma_end_boundary(m.buf, arg);
            assert((m.buf + arg).subrange(end, (m.buf + arg).len() as int) =~= arg);
            lemma_fresh_cursor_wf(m.buf + arg, m.ignore_dashes, end);
            assert forall|i: int| 0 <= i < n.pending.len() implies #[trigger] valid_utf8(
                n.pending[i],
            ) by {
                assert(n.pending[i] == m.pending[i + 1]);
            }
            assert((m.buf + arg).subrange(0, end) =~= m.buf.subrange(0, end));
            assert forall|i: int| 0 <= i < n.marks.len() && !#[trigger] n.marks[i] implies (
            n.buf[i] == DASH || n.buf[i] == EQUALS) by {
                assert(n.marks[i] == marks1[i]);
                assert(n.buf[i] == m.buf[i]);
            }
        }
    } else {
        let next = equals_cursor(m.buf, end, c.2);
        let skip = next.1 - end;
        assert(m.buf.subrange(0, next.1) =~= m.buf.subrange(0, end) + m.buf.subrange(end, next.1));
        lemma_kept_concat(m.buf.subrange(0, end), marks1, m.buf.subrange(end, next.1), run(skip, false));
        lemma_kept_run(m.buf.subrange(end, next.1), false);
        assert(kept(m.buf.subrange(0, next.1), n.marks) =~= n.emitted);
        if skip == 1 {
            assert(m.buf[end] == EQUALS);
            lemma_ascii_boundary(m.buf, end);
        }
        assert forall|i: int| 0 <= i < n.marks.len() && !#[trigger] n.marks[i] implies (
        n.buf[i] == DASH || n.buf[i] == EQUALS) by {
            if i < end {
                assert(n.marks[i] == marks1[i]);
            }
        }
    }
}

/// Changing the ignore-dashes mode keeps the invariant.
pub proof fn lemma_ignore_dashes_wf(m: InputModel, ignore: bool)
    requires
        model_wf(m),
    ensures
        model_wf(with_ignore_dashes(m, ignore)),
{
    if let Some(c) = m.cursor {
        lemma_fresh_cursor_wf(m.buf, false, c.1);
    }
}

} // verus!
