//! Flags and the parsing contexts of named and positional arguments.

use vstd::prelude::*;
use vstd::string::StringSliceAdditionalSpecFns;

use crate::error::Error;
use crate::input::{one_dash_match, two_dashes_match, ArgsInput};
use crate::model::{commit, InputModel};
use crate::text::push_str;

verus! {

/// A flag: short (one dash) or long (two dashes). The dashes are not part of
/// the strings: `Flag::Long("version")` matches `--version`.
#[derive(Debug)]
pub enum Flag<'a> {
    /// A short flag, like `-h`.
    Short(&'a str),
    /// A long flag, like `--help`.
    Long(&'a str),
    /// A flag with a long and a short alias, e.g. `--help,-h`.
    LongShort(&'a str, &'a str),
    /// A flag with several aliases.
    Many(Vec<Flag<'a>>),
}

/// The state after a matcher was tried: committed if it matched, unchanged
/// otherwise.
pub open spec fn after_eat(m: InputModel, matched: bool, t: Seq<u8>) -> InputModel {
    if matched {
        commit(m, m.cursor.unwrap().0, t.len() as int)
    } else {
        m
    }
}

/// Whether `f` matches the input in state `m`, and the state after it was
/// tried. Aliases are tried in order, long before short, up to the first
/// that matches.
pub open spec fn flag_eat(m: InputModel, f: Flag) -> (bool, InputModel)
    decreases f,
{
    match f {
        Flag::Short(s) => (
            one_dash_match(m, s.spec_bytes()),
            after_eat(m, one_dash_match(m, s.spec_bytes()), s.spec_bytes()),
        ),
        Flag::Long(l) => (
            two_dashes_match(m, l.spec_bytes()),
            after_eat(m, two_dashes_match(m, l.spec_bytes()), l.spec_bytes()),
        ),
        Flag::LongShort(l, s) => if two_dashes_match(m, l.spec_bytes()) {
            (true, after_eat(m, true, l.spec_bytes()))
        } else {
            (
                one_dash_match(m, s.spec_bytes()),
                after_eat(m, one_dash_match(m, s.spec_bytes()), s.spec_bytes()),
            )
        },
        Flag::Many(v) => flags_eat(m, v@),
    }
}

/// Tries the flags of `fs` in order, up to the first that matches.
pub open spec fn flags_eat(m: InputModel, fs: Seq<Flag>) -> (bool, InputModel)
    decreases fs,
{
    if fs.len() == 0 {
        (false, m)
    } else {
        let first = flag_eat(m, fs[0]);
        if first.0 {
            first
        } else {
            flags_eat(first.1, fs.drop_first())
        }
    }
}

/// The number of flags in `f`, lists counted with their members.
pub open spec fn flag_size(f: Flag) -> nat
    decreases f,
{
    match f {
        Flag::Many(v) => 1 + flags_size(v@),
        _ => 1,
    }
}

/// The number of flags in `fs`, lists counted with their members.
pub open spec fn flags_size(fs: Seq<Flag>) -> nat
    decreases fs,
{
    if fs.len() == 0 {
        0
    } else {
        flag_size(fs[0]) + flags_size(fs.drop_first())
    }
}

/// A member of a list is smaller than the list.
proof fn lemma_member_size(fs: Seq<Flag>, i: int)
    requires
        0 <= i < fs.len(),
    ensures
        flag_size(fs[i]) <= flags_size(fs),
    decreases fs.len(),
{
    if i > 0 {
        lemma_member_size(fs.drop_first(), i - 1);
    }
}

/// How a flag is shown: each alias with its dashes, separated by commas.
pub open spec fn flag_text(f: Flag) -> Seq<char>
    decreases f,
{
    match f {
        Flag::Short(s) => "-"@ + s@,
        Flag::Long(l) => "--"@ + l@,
        Flag::LongShort(l, s) => "--"@ + l@ + ",-"@ + s@,
        Flag::Many(v) => flags_text(v@),
    }
}

/// The flags of `fs` shown one after the other, separated by commas.
pub open spec fn flags_text(fs: Seq<Flag>) -> Seq<char>
    decreases fs,
{
    if fs.len() == 0 {
        Seq::empty()
    } else if fs.len() == 1 {
        flag_text(fs[0])
    } else {
        flag_text(fs[0]) + ","@ + flags_text(fs.drop_first())
    }
}

/// A flag that does not match leaves the input as it was.
pub proof fn lemma_flag_miss(m: InputModel, f: Flag)
    ensures
        !flag_eat(m, f).0 ==> flag_eat(m, f).1 == m,
    decreases flag_size(f), 0nat,
{
    if let Flag::Many(v) = f {
        lemma_flags_miss(m, v@);
    }
}

/// A list of flags none of which matches leaves the input as it was.
pub proof fn lemma_flags_miss(m: InputModel, fs: Seq<Flag>)
    ensures
        !flags_eat(m, fs).0 ==> flags_eat(m, fs).1 == m,
    decreases flags_size(fs), 1nat,
{
    if fs.len() > 0 {
        lemma_member_size(fs, 0);
        lemma_flag_miss(m, fs[0]);
        if !flag_eat(m, fs[0]).0 {
            lemma_flags_miss(m, fs.drop_first());
        }
    }
}

/// `f` has a first alias: no list on the way to it is empty.
pub open spec fn has_first(f: Flag) -> bool
    decreases f,
{
    match f {
        Flag::Many(v) => v@.len() > 0 && has_first(v@[0]),
        _ => true,
    }
}

/// The first alias of `f`, with its dashes.
pub open spec fn first_flag_text(f: Flag) -> Seq<char>
    decreases f,
{
    match f {
        Flag::Short(s) => "-"@ + s@,
        Flag::Long(l) => "--"@ + l@,
        Flag::LongShort(l, _) => "--"@ + l@,
        Flag::Many(v) => if v@.len() > 0 {
            first_flag_text(v@[0])
        } else {
            Seq::empty()
        },
    }
}

impl<'a> Flag<'a> {
    /// Returns the first alias of the flag, with its dashes.
    pub fn first_to_string(&self) -> (r: String)
        requires
            has_first(*self),
        ensures
            r@ == first_flag_text(*self),
        decreases self,
    {
        match self {
            Flag::Short(s) => {
                let mut r = String::new();
                push_str(&mut r, "-");
                push_str(&mut r, s);
                r
            },
            Flag::Long(l) | Flag::LongShort(l, _) => {
                let mut r = String::new();
                push_str(&mut r, "--");
                push_str(&mut r, l);
                r
            },
            Flag::Many(v) => {
                proof {
                    vstd::std_specs::vec::axiom_vec_index_decreases(*v, 0);
                }
                v[0].first_to_string()
            },
        }
    }

    /// Returns how the flag is shown: each alias with its dashes, separated
    /// by commas.
    pub fn to_string(&self) -> (r: String)
        ensures
            r@ == flag_text(*self),
        decreases flag_size(*self),
    {
        let mut r = String::new();
        match self {
            Flag::Short(s) => {
                push_str(&mut r, "-");
                push_str(&mut r, s);
            },
            Flag::Long(l) => {
                push_str(&mut r, "--");
                push_str(&mut r, l);
            },
            Flag::LongShort(l, s) => {
                push_str(&mut r, "--");
                push_str(&mut r, l);
                push_str(&mut r, ",-");
                push_str(&mut r, s);
            },
            Flag::Many(v) => {
                let mut i: usize = 0;
                while i < v.len()
                    invariant
                        i <= v@.len(),
                        *self == Flag::Many(*v),
                        i == 0 ==> r@ == Seq::<char>::empty(),
                        0 < i ==> r@ + (if i < v@.len() {
                            ","@ + flags_text(v@.subrange(i as int, v@.len() as int))
                        } else {
                            Seq::empty()
                        }) == flags_text(v@),
                    decreases v@.len() - i,
                {
                    let ghost rest = v@.subrange(i as int, v@.len() as int);
                    proof {
                        lemma_member_size(v@, i as int);
                        assert(rest.drop_first() =~= v@.subrange(i + 1, v@.len() as int));
                        assert(rest[0] == v@[i as int]);
                        if i == 0 {
                            assert(rest =~= v@);
                        }
                    }
                    if i > 0 {
                        push_str(&mut r, ",");
                    }
                    let t = v[i].to_string();
                    push_str(&mut r, t.as_str());
                    proof {
                        if i + 1 < v@.len() {
                            assert(flags_text(rest) == flag_text(rest[0]) + ","@ + flags_text(
                                rest.drop_first(),
                            ));
                        }
                    }
                    i = i + 1;
                }
            },
        }
        proof {
            assert(r@ =~= flag_text(*self));
        }
        r
    }

    /// Eats the flag if the current token is one of its aliases; returns
    /// whether it did.
    pub fn from_input(input: &mut ArgsInput, context: &Flag) -> (r: Result<bool, Error>)
        requires
            old(input).wf(),
        ensures
            final(input).wf(),
            r == Ok::<bool, Error>(flag_eat(old(input)@, *context).0),
            final(input)@ == flag_eat(old(input)@, *context).1,
    {
        Ok(flag_from_input(input, context))
    }
}

/// Eats the flag if the current token is one of its aliases.
fn flag_from_input(input: &mut ArgsInput, context: &Flag) -> (r: bool)
    requires
        old(input).wf(),
    ensures
        final(input).wf(),
        r == flag_eat(old(input)@, *context).0,
        final(input)@ == flag_eat(old(input)@, *context).1,
    decreases flag_size(*context),
{
    match context {
        Flag::Short(f) => input.parse_short_flag(f),
        Flag::Long(f) => input.parse_long_flag(f),
        Flag::LongShort(l, s) => input.parse_long_flag(l) || input.parse_short_flag(s),
        Flag::Many(flags) => {
            proof {
                assert(flags@.subrange(0, flags@.len() as int) =~= flags@);
            }
            let mut i: usize = 0;
            while i < flags.len()
                invariant
                    i <= flags@.len(),
                    *context == Flag::Many(*flags),
                    input.wf(),
                    flags_eat(old(input)@, flags@) == flags_eat(
                        input@,
                        flags@.subrange(i as int, flags@.len() as int),
                    ),
                decreases flags@.len() - i,
            {
                let ghost rest = flags@.subrange(i as int, flags@.len() as int);
                proof {
                    lemma_member_size(flags@, i as int);
                    assert(rest.drop_first() =~= flags@.subrange(i + 1, flags@.len() as int));
                    assert(rest[0] == flags@[i as int]);
                }
                if flag_from_input(input, &flags[i]) {
                    return true;
                }
                i = i + 1;
            }
            proof {
                assert(flags@.subrange(i as int, flags@.len() as int) =~= Seq::<Flag>::empty());
            }
            false
        },
    }
}

/// The parsing context of a named argument, e.g. `--help=config`.
#[derive(Debug)]
pub struct ArgCtx<'a, C> {
    /// The flag before the value(s).
    pub flag: Flag<'a>,
    /// The context of the value(s).
    pub inner: C,
}

impl<'a, C> ArgCtx<'a, C> {
    /// Creates a new `ArgCtx`.
    pub fn new(flag: Flag<'a>, inner: C) -> (r: Self)
        ensures
            r.flag == flag,
            r.inner == inner,
    {
        ArgCtx { flag, inner }
    }
}

/// The parsing context of a positional argument.
#[derive(Debug)]
pub struct PosCtx<'a, C> {
    /// The name of the argument, used in error messages.
    pub name: &'a str,
    /// The context of the value.
    pub inner: C,
}

impl<'a, C> PosCtx<'a, C> {
    /// Creates a new `PosCtx`.
    pub fn new(name: &'a str, inner: C) -> (r: Self)
        ensures
            r.name == name,
            r.inner == inner,
    {
        PosCtx { name, inner }
    }
}

} // verus!
