//! The parsing contexts of values: strings, numbers, arrays, tuples and
//! lists.

use vstd::prelude::*;
use vstd::string::StringSliceAdditionalSpecFns;

use crate::error::Error;
use crate::fmt::{decimal, push_decimal};
use crate::from_input::FromInputValue;
use crate::help::{flat, flat_all, PossibleValues};
use crate::text::push_str;
use crate::util::Flag;

verus! {

/// The parsing context of strings.
pub struct StringCtx {
    /// The smallest length in bytes.
    pub min_length: usize,
    /// The largest length in bytes.
    pub max_length: usize,
    /// Whether the string may start with dashes.
    pub allow_leading_dashes: bool,
}

impl Default for StringCtx {
    fn default() -> (r: Self)
        ensures
            r.min_length == 0,
            r.max_length == usize::MAX,
            !r.allow_leading_dashes,
    {
        StringCtx { min_length: 0, max_length: usize::MAX, allow_leading_dashes: false }
    }
}

impl StringCtx {
    /// Creates a `StringCtx` that refuses strings starting with dashes.
    pub fn new(min_length: usize, max_length: usize) -> (r: Self)
        ensures
            r.min_length == min_length,
            r.max_length == max_length,
            !r.allow_leading_dashes,
    {
        StringCtx { min_length, max_length, allow_leading_dashes: false }
    }

    /// Lets the string start with dashes.
    pub fn allow_leading_dashes(self) -> (r: Self)
        ensures
            r.min_length == self.min_length,
            r.max_length == self.max_length,
            r.allow_leading_dashes,
    {
        StringCtx { allow_leading_dashes: true, ..self }
    }
}

/// The parsing context of numbers.
#[derive(Debug, PartialEq, Eq)]
pub struct NumberCtx<T> {
    /// The smallest number accepted.
    pub min: T,
    /// The largest number accepted.
    pub max: T,
}

/// The parsing context of arrays.
#[derive(Debug)]
pub struct ArrayCtx<C> {
    /// The delimiter between the items, if they share one argument.
    pub delimiter: Option<char>,
    /// The context of the items.
    pub inner: C,
}

impl<C> ArrayCtx<C> {
    /// Creates a new `ArrayCtx`.
    pub fn new(delimiter: Option<char>, inner: C) -> (r: Self)
        ensures
            r.delimiter == delimiter,
            r.inner == inner,
    {
        Self { delimiter, inner }
    }
}

/// The parsing context of tuples.
#[derive(Debug)]
pub struct TupleCtx<C> {
    /// The delimiter between the items.
    pub delimiter: char,
    /// The contexts of the items.
    pub inner: C,
}

impl<C> TupleCtx<C> {
    /// Creates a new `TupleCtx`.
    pub fn new(delimiter: char, inner: C) -> (r: Self)
        ensures
            r.delimiter == delimiter,
            r.inner == inner,
    {
        Self { delimiter, inner }
    }
}

/// The parsing context of list-like types. Lists can be written as
/// `-f a b c`, `-f=a,b,c` or `-f a -f b -f c`.
#[derive(Debug)]
pub struct ListCtx<'a, C> {
    /// The flag before the values.
    pub flag: Flag<'a>,
    /// The largest number of items parsed at once.
    pub max_items: usize,
    /// The delimiter of the `-f=a,b,c` form.
    pub delimiter: Option<char>,
    /// The context of the values.
    pub inner: C,
    /// Whether as many values as possible are parsed at once.
    pub greedy: bool,
}

/// The parsing context of vectors.
pub struct VecCtx<C> {
    /// The smallest number of items.
    pub min_items: usize,
    /// The largest number of items.
    pub max_items: usize,
    /// The delimiter between the items, if they share one argument.
    pub delimiter: Option<char>,
    /// The context of the items.
    pub inner: C,
}

/// The ASCII lower case of a byte.
pub open spec fn ascii_lower(b: u8) -> u8 {
    if 0x41 <= b <= 0x5a {
        (b + 0x20) as u8
    } else {
        b
    }
}

/// `a` and `b` are equal but for ASCII case.
pub open spec fn eq_ignore_case(a: Seq<u8>, b: Seq<u8>) -> bool {
    &&& a.len() == b.len()
    &&& forall|i: int| 0 <= i < a.len() ==> ascii_lower(#[trigger] a[i]) == ascii_lower(b[i])
}

/// Whether `a` and `b` are equal but for ASCII case.
pub fn eq_ignore_ascii_case(a: &str, b: &str) -> (r: bool)
    ensures
        r == eq_ignore_case(a.spec_bytes(), b.spec_bytes()),
{
    let x = a.as_bytes();
    let y = b.as_bytes();
    if x.len() != y.len() {
        return false;
    }
    let mut i: usize = 0;
    while i < x.len()
        invariant
            x@ == a.spec_bytes(),
            y@ == b.spec_bytes(),
            x@.len() == y@.len(),
            i <= x@.len(),
            forall|k: int| 0 <= k < i ==> ascii_lower(#[trigger] x@[k]) == ascii_lower(y@[k]),
        decreases x@.len() - i,
    {
        let p = x[i];
        let q = y[i];
        let lp = if 0x41 <= p && p <= 0x5a { p + 0x20 } else { p };
        let lq = if 0x41 <= q && q <= 0x5a { q + 0x20 } else { q };
        if lp != lq {
            return false;
        }
        i = i + 1;
    }
    true
}

/// The boolean that a value stands for: `1`, `y`, `yes`, `true` or `0`,
/// `n`, `no`, `false`, the words in any ASCII case.
pub open spec fn bool_value(v: Seq<u8>) -> Option<bool> {
    if v == "1".spec_bytes() {
        Some(true)
    } else if v == "0".spec_bytes() {
        Some(false)
    } else if eq_ignore_case(v, "y".spec_bytes()) {
        Some(true)
    } else if eq_ignore_case(v, "n".spec_bytes()) {
        Some(false)
    } else if eq_ignore_case(v, "yes".spec_bytes()) {
        Some(true)
    } else if eq_ignore_case(v, "no".spec_bytes()) {
        Some(false)
    } else if eq_ignore_case(v, "true".spec_bytes()) {
        Some(true)
    } else if eq_ignore_case(v, "false".spec_bytes()) {
        Some(false)
    } else {
        None
    }
}

/// The values shown for booleans: `yes` or `no`.
pub fn bool_possible_values() -> (r: PossibleValues)
    ensures
        flat(r) == seq![(true, "yes"@), (true, "no"@)],
{
    let mut v: Vec<PossibleValues> = Vec::new();
    v.push(PossibleValues::String("yes".to_owned()));
    v.push(PossibleValues::String("no".to_owned()));
    let ghost items = v@;
    proof {
        reveal_with_fuel(flat_all, 3);
        assert(items.drop_first().drop_first() =~= Seq::<PossibleValues>::empty());
        assert(items.drop_first()[0] == items[1]);
        assert(flat(items[0]) =~= seq![(true, "yes"@)]);
        assert(flat(items[1]) =~= seq![(true, "no"@)]);
        assert(flat_all(items) =~= seq![(true, "yes"@), (true, "no"@)]);
    }
    PossibleValues::OneOf(v)
}

/// Parses a boolean value; an unknown word gives `UnexpectedValue`.
pub fn parse_bool(value: &str) -> (r: Result<bool, Error>)
    ensures
        bool_value(value.spec_bytes()) is Some ==> r == Ok::<bool, Error>(
            bool_value(value.spec_bytes()).unwrap(),
        ),
        bool_value(value.spec_bytes()) is None ==> r is Err && r->Err_0.spec_source() is None
            && r->Err_0.spec_inner() is UnexpectedValue
            && r->Err_0.spec_inner()->UnexpectedValue_got@ == value@
            && r->Err_0.spec_inner()->UnexpectedValue_expected is Some,
{
    let b = value.as_bytes();
    if crate::text::bytes_eq(b, "1".as_bytes()) {
        Ok(true)
    } else if crate::text::bytes_eq(b, "0".as_bytes()) {
        Ok(false)
    } else if eq_ignore_ascii_case(value, "y") {
        Ok(true)
    } else if eq_ignore_ascii_case(value, "n") {
        Ok(false)
    } else if eq_ignore_ascii_case(value, "yes") {
        Ok(true)
    } else if eq_ignore_ascii_case(value, "no") {
        Ok(false)
    } else if eq_ignore_ascii_case(value, "true") {
        Ok(true)
    } else if eq_ignore_ascii_case(value, "false") {
        Ok(false)
    } else {
        Err(Error::unexpected_value(value, Some(bool_possible_values())))
    }
}

impl FromInputValue for bool {
    type Context = ();

    fn from_input_value(value: &str, _context: &()) -> Result<bool, Error> {
        parse_bool(value)
    }

    fn allow_leading_dashes(_context: &()) -> bool {
        false
    }

    fn possible_values(_context: &()) -> Option<PossibleValues> {
        Some(bool_possible_values())
    }
}

/// How the strings that a context accepts are described.
pub open spec fn string_values_text(min: usize, max: usize) -> Seq<char> {
    if max == usize::MAX {
        if min == 0 {
            "string"@
        } else if min == 1 {
            "non-empty string"@
        } else {
            "string with at least "@ + decimal(min as nat) + " bytes"@
        }
    } else if min == 0 {
        "string with at most "@ + decimal(max as nat) + " bytes"@
    } else {
        "string with "@ + decimal(min as nat) + " to "@ + decimal(max as nat) + " bytes"@
    }
}

/// Describes the strings that `context` accepts.
pub fn string_possible_values(context: &StringCtx) -> (r: PossibleValues)
    ensures
        flat(r) == seq![(false, string_values_text(context.min_length, context.max_length))],
{
    let mut t = String::new();
    if context.max_length == usize::MAX {
        if context.min_length == 0 {
            push_str(&mut t, "string");
        } else if context.min_length == 1 {
            push_str(&mut t, "non-empty string");
        } else {
            push_str(&mut t, "string with at least ");
            push_decimal(&mut t, context.min_length as u64);
            push_str(&mut t, " bytes");
        }
    } else if context.min_length == 0 {
        push_str(&mut t, "string with at most ");
        push_decimal(&mut t, context.max_length as u64);
        push_str(&mut t, " bytes");
    } else {
        push_str(&mut t, "string with ");
        push_decimal(&mut t, context.min_length as u64);
        push_str(&mut t, " to ");
        push_decimal(&mut t, context.max_length as u64);
        push_str(&mut t, " bytes");
    }
    proof {
        assert(t@ =~= string_values_text(context.min_length, context.max_length));
    }
    PossibleValues::Other(t)
}

/// Reads a string whose byte length lies within the bounds of `context`;
/// another length gives `UnexpectedValue` that names the length.
pub fn parse_string(value: &str, context: &StringCtx) -> (r: Result<String, Error>)
    ensures
        context.min_length <= value.len() <= context.max_length ==> r is Ok && r->Ok_0@
            == value@,
        !(context.min_length <= value.len() <= context.max_length) ==> r is Err
            && r->Err_0.spec_source() is None && r->Err_0.spec_inner() is UnexpectedValue
            && r->Err_0.spec_inner()->UnexpectedValue_got@ == "string with length "@ + decimal(
            value.len() as nat,
        ),
{
    let len = value.len();
    if len < context.min_length || len > context.max_length {
        let mut got = String::new();
        push_str(&mut got, "string with length ");
        push_decimal(&mut got, len as u64);
        proof {
            assert((len as u64) as nat == len as nat);
            assert(got@ =~= "string with length "@ + decimal(len as nat));
        }
        Err(Error::unexpected_value(got.as_str(), Some(string_possible_values(context))))
    } else {
        Ok(value.to_owned())
    }
}

impl FromInputValue for String {
    type Context = StringCtx;

    fn from_input_value(value: &str, context: &StringCtx) -> Result<String, Error> {
        parse_string(value, context)
    }

    fn allow_leading_dashes(context: &StringCtx) -> bool {
        context.allow_leading_dashes
    }

    fn possible_values(context: &StringCtx) -> Option<PossibleValues> {
        Some(string_possible_values(context))
    }
}

/// The character a value stands for: the value must be exactly one
/// character.
pub open spec fn char_value(v: Seq<char>) -> Option<char> {
    if v.len() == 1 {
        Some(v[0])
    } else {
        None
    }
}

/// The values shown for characters.
pub fn char_possible_values() -> (r: PossibleValues)
    ensures
        flat(r) == seq![(false, "character"@)],
{
    PossibleValues::Other("character".to_owned())
}

/// Reads a single character; an empty value or a longer one gives
/// `UnexpectedValue`.
pub fn parse_char(value: &str) -> (r: Result<char, Error>)
    ensures
        char_value(value@) is Some ==> r == Ok::<char, Error>(char_value(value@).unwrap()),
        char_value(value@) is None ==> r is Err && r->Err_0.spec_source() is None
            && r->Err_0.spec_inner() is UnexpectedValue
            && r->Err_0.spec_inner()->UnexpectedValue_got@ == value@,
{
    let mut chars = value.chars();
    let first = chars.next();
    match first {
        None => Err(Error::unexpected_value(value, Some(char_possible_values()))),
        Some(c) => {
            if chars.next().is_some() {
                return Err(Error::unexpected_value(value, Some(char_possible_values())));
            }
            Ok(c)
        },
    }
}

impl FromInputValue for char {
    type Context = ();

    fn from_input_value(value: &str, _context: &()) -> Result<char, Error> {
        parse_char(value)
    }

    fn allow_leading_dashes(_context: &()) -> bool {
        false
    }

    fn possible_values(_context: &()) -> Option<PossibleValues> {
        Some(char_possible_values())
    }
}

} // verus!
