//! Building the text of messages: decimal numbers, escaped text, and the
//! std calls that grow a `String`.

use vstd::prelude::*;

use crate::text::push_str;

verus! {

/// The text that `str::escape_debug` makes of `s`.
pub uninterp spec fn escape_debug_of(s: Seq<char>) -> Seq<char>;

/// Relies on `str::escape_debug`: the escaped text depends on `s` alone.
#[verifier::external_body]
pub(crate) fn escape_debug(s: &str) -> (r: String)
    ensures
        r@ == escape_debug_of(s@),
{
    s.escape_debug().to_string()
}

/// Relies on `String::push`: the string grows by exactly `c`.
#[verifier::external_body]
pub(crate) fn push_char(buf: &mut String, c: char)
    ensures
        final(buf)@ == old(buf)@.push(c),
{
    buf.push(c)
}

/// The decimal digit for `d < 10`.
pub open spec fn digit(d: nat) -> char {
    ('0' as u32 + d) as char
}

/// The decimal notation of `n`, without leading zeros.
pub open spec fn decimal(n: nat) -> Seq<char>
    decreases n,
{
    if n < 10 {
        seq![digit(n)]
    } else {
        decimal(n / 10).push(digit(n % 10))
    }
}

/// Appends the decimal notation of `n` to `buf`.
pub fn push_decimal(buf: &mut String, n: u64)
    ensures
        final(buf)@ == old(buf)@ + decimal(n as nat),
    decreases n,
{
    if n >= 10 {
        push_decimal(buf, n / 10);
    }
    let d = (n % 10) as u32;
    let c = char_from_digit(d);
    push_char(buf, c);
    proof {
        if n < 10 {
            assert(old(buf)@ + decimal(n as nat) =~= old(buf)@.push(digit(n as nat)));
        } else {
            assert(old(buf)@ + decimal(n as nat) =~= (old(buf)@ + decimal((n / 10) as nat)).push(
                digit((n % 10) as nat),
            ));
        }
    }
}

/// The character of the decimal digit `d < 10`.
fn char_from_digit(d: u32) -> (c: char)
    requires
        d < 10,
    ensures
        c == digit(d as nat),
{
    if d == 0 { '0' }
    else if d == 1 { '1' }
    else if d == 2 { '2' }
    else if d == 3 { '3' }
    else if d == 4 { '4' }
    else if d == 5 { '5' }
    else if d == 6 { '6' }
    else if d == 7 { '7' }
    else if d == 8 { '8' }
    else { '9' }
}

/// The names from index `i` on, each led by `, ` or, before the last,
/// ` or `.
pub open spec fn join_tail(names: Seq<Seq<char>>, i: int) -> Seq<char>
    decreases names.len() - i,
{
    if i < 0 || i >= names.len() {
        Seq::empty()
    } else {
        (if i < names.len() - 1 {
            ", "@
        } else {
            " or "@
        }) + names[i] + join_tail(names, i + 1)
    }
}

/// Names joined for a message: `a`, `a or b`, `a, b or c`.
pub open spec fn human_join(names: Seq<Seq<char>>) -> Seq<char> {
    if names.len() == 0 {
        Seq::empty()
    } else {
        names[0] + join_tail(names, 1)
    }
}

/// Joins `idents` as a message lists names: commas between them, `or`
/// before the last.
pub fn concat_strings_human_readable(idents: &[String]) -> (r: String)
    ensures
        r@ == human_join(idents@.map_values(|s: String| s@)),
{
    let ghost names = idents@.map_values(|s: String| s@);
    let mut result = String::new();
    let len = idents.len();
    let mut i: usize = 0;
    while i < len
        invariant
            len == idents@.len(),
            i <= len,
            names == idents@.map_values(|s: String| s@),
            i == 0 ==> result@ == Seq::<char>::empty(),
            0 < i ==> result@ + join_tail(names, i as int) == human_join(names),
        decreases len - i,
    {
        if i != 0 {
            if i < len - 1 {
                push_str(&mut result, ", ");
            } else {
                push_str(&mut result, " or ");
            }
        }
        push_str(&mut result, idents[i].as_str());
        proof {
            if i == 0 {
                assert(result@ =~= names[0]);
            } else {
                assert(result@ + join_tail(names, i + 1) =~= human_join(names));
            }
        }
        i = i + 1;
    }
    proof {
        if len > 0 {
            assert(result@ + join_tail(names, len as int) =~= result@);
        }
    }
    result
}

} // verus!
