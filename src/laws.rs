//! Laws of the tokenizer, stated over its model and proved.

use vstd::prelude::*;

use crate::input::{
    initial_model, no_dash_match, one_dash_match, two_dashes_match, value_ld_match, value_match,
};
use crate::model::{
    can_commit, commit, consumed_len, current_kind, current_with_dashes_bytes, dash_cursor,
    kept, lemma_commit_wf, lemma_kept_len, model_wf, stripped_count, total_len,
    with_ignore_dashes, InputModel,
};
use crate::text::{DASH, EQUALS};
use crate::token_kind::TokenKind;

verus! {

/// The input is exhausted exactly when no token is current, and then no
/// matcher matches any text and changing the mode leaves it exhausted; while
/// a token is current, it matches as a value with its dashes.
pub proof fn law_exhaustion(m: InputModel, t: Seq<u8>, ignore: bool)
    ensures
        m.cursor is None ==> {
            &&& !no_dash_match(m, t)
            &&& !one_dash_match(m, t)
            &&& !two_dashes_match(m, t)
            &&& !value_match(m, t)
            &&& !value_ld_match(m, t)
            &&& with_ignore_dashes(m, ignore).cursor is None
        },
        m.cursor is Some ==> value_ld_match(m, current_with_dashes_bytes(m)),
{
}

/// Every consumed byte was either handed out by a commit or stripped as a
/// leading dash or a skipped `=`: the handed-out bytes, in order, are the
/// consumed bytes without the stripped ones, and they number the consumed
/// length less the stripped count. A commit hands out exactly the bytes it
/// covers, and the bytes read plus the bytes still to come stay the same.
pub proof fn law_conservation(m: InputModel, from: int, len: int)
    requires
        model_wf(m),
    ensures
        m.emitted == kept(m.buf.subrange(0, consumed_len(m)), m.marks),
        m.emitted.len() + stripped_count(m.marks) == consumed_len(m),
        forall|i: int|
            0 <= i < consumed_len(m) && !#[trigger] m.marks[i] ==> (m.buf[i] == DASH || m.buf[i]
                == EQUALS),
        can_commit(m, from, len) ==> {
            let n = commit(m, from, len);
            &&& model_wf(n)
            &&& n.emitted == m.emitted + m.buf.subrange(from, from + len)
            &&& n.buf.len() + total_len(n.pending) == m.buf.len() + total_len(m.pending)
        },
{
    lemma_kept_len(m.buf.subrange(0, consumed_len(m)), m.marks);
    if can_commit(m, from, len) {
        lemma_commit_wf(m, from, len);
        if from + len == m.buf.len() && m.pending.len() > 0 {
            assert(total_len(m.pending) == m.pending[0].len() + total_len(m.pending.drop_first()));
        }
    }
}

/// A run starts with every byte of the raw arguments either in the buffer or
/// still to come, and ends, once the input is exhausted, with all of them in
/// the buffer and consumed: the handed-out bytes then number the total length
/// of the raw arguments less the stripped dashes and equals signs.
pub proof fn law_whole_run(args: Seq<Seq<u8>>, m: InputModel)
    ensures
        initial_model(args).buf.len() + total_len(initial_model(args).pending) == total_len(args),
        initial_model(args).emitted.len() == 0,
        model_wf(m) && m.cursor is None ==> {
            &&& m.pending.len() == 0
            &&& consumed_len(m) == m.buf.len()
            &&& m.emitted.len() + stripped_count(m.marks) == m.buf.len() + total_len(m.pending)
        },
{
    if model_wf(m) && m.cursor is None {
        lemma_kept_len(m.buf.subrange(0, consumed_len(m)), m.marks);
    }
}

/// Offsets only move forward: a commit keeps the buffer, the marks and the
/// handed-out bytes as prefixes, moves the consumed length past the committed
/// bytes, and a later cursor never starts before them. Changing the mode
/// moves nothing.
pub proof fn law_monotonicity(m: InputModel, from: int, len: int, ignore: bool)
    requires
        model_wf(m),
    ensures
        can_commit(m, from, len) ==> {
            let n = commit(m, from, len);
            &&& n.buf.subrange(0, m.buf.len() as int) == m.buf
            &&& n.marks.subrange(0, m.marks.len() as int) == m.marks
            &&& n.emitted.subrange(0, m.emitted.len() as int) == m.emitted
            &&& consumed_len(m) <= from + len <= consumed_len(n)
            &&& (n.cursor is Some ==> from + len <= n.cursor.unwrap().1 <= n.cursor.unwrap().0)
        },
        with_ignore_dashes(m, ignore).buf == m.buf,
        consumed_len(with_ignore_dashes(m, ignore)) == consumed_len(m),
{
    if can_commit(m, from, len) {
        lemma_commit_wf(m, from, len);
        let n = commit(m, from, len);
        assert(n.buf.subrange(0, m.buf.len() as int) =~= m.buf);
        assert(n.marks.subrange(0, m.marks.len() as int) =~= m.marks);
        assert(n.emitted.subrange(0, m.emitted.len() as int) =~= m.emitted);
    }
}

/// One leading dash makes `OneDash`, two or more make `TwoDashes`, none makes
/// `NoDash`; with dashes ignored every argument is `NoDash`. A token of one
/// class never matches the matcher of the other.
pub proof fn law_dash_classes(arg: Seq<u8>, start: int, m: InputModel, t: Seq<u8>)
    ensures
        dash_cursor(false, arg, start).2 == TokenKind::OneDash <==> (arg.len() >= 1 && arg[0]
            == DASH && !(arg.len() >= 2 && arg[1] == DASH)),
        dash_cursor(false, arg, start).2 == TokenKind::TwoDashes <==> (arg.len() >= 2 && arg[0]
            == DASH && arg[1] == DASH),
        dash_cursor(false, arg, start).2 == TokenKind::NoDash <==> !(arg.len() >= 1 && arg[0]
            == DASH),
        dash_cursor(true, arg, start).2 == TokenKind::NoDash,
        m.cursor is Some && current_kind(m) == TokenKind::OneDash ==> !two_dashes_match(m, t),
        m.cursor is Some && current_kind(m) == TokenKind::TwoDashes ==> !one_dash_match(m, t),
{
}

} // verus!
