//! The values a value-parser accepts, for help texts and error messages.

use vstd::prelude::*;

use crate::fmt::{escape_debug, escape_debug_of, push_char};
use crate::text::{bytes_eq, push_str};

verus! {

/// The values accepted where a value is expected.
#[derive(Debug)]
pub enum PossibleValues {
    /// A literal value; `String("1")` if the value `1` is accepted.
    String(String),
    /// A description of the accepted values, e.g. `Other("positive number")`.
    Other(String),
    /// A list of possible values; nested lists are flattened when iterating
    /// and when shown.
    OneOf(Vec<PossibleValues>),
}

/// One accepted value, as produced when iterating over [`PossibleValues`].
#[derive(Debug, PartialEq, Eq, Clone, Copy)]
pub enum PossibleValue<'a> {
    /// A literal value.
    String(&'a str),
    /// A description of the accepted values.
    Other(&'a str),
}

/// A possible value as a pair: whether it is a literal, and its text.
pub open spec fn value_view(p: PossibleValue) -> (bool, Seq<char>) {
    match p {
        PossibleValue::String(s) => (true, s@),
        PossibleValue::Other(s) => (false, s@),
    }
}

/// The values of `v`, nested lists flattened, in order.
pub open spec fn flat(v: PossibleValues) -> Seq<(bool, Seq<char>)>
    decreases v,
{
    match v {
        PossibleValues::String(s) => seq![(true, s@)],
        PossibleValues::Other(s) => seq![(false, s@)],
        PossibleValues::OneOf(vs) => flat_all(vs@),
    }
}

/// The values of each of `vs`, flattened and concatenated.
pub open spec fn flat_all(vs: Seq<PossibleValues>) -> Seq<(bool, Seq<char>)>
    decreases vs,
{
    if vs.len() == 0 {
        Seq::empty()
    } else {
        flat(vs[0]) + flat_all(vs.drop_first())
    }
}

/// How one value is shown: a literal in backticks, escaped; a description as
/// it is.
pub open spec fn value_text(p: (bool, Seq<char>)) -> Seq<char> {
    if p.0 {
        seq!['`'] + escape_debug_of(p.1) + seq!['`']
    } else {
        p.1
    }
}

/// The values after the first, each led by `, ` or, before the last, ` or `.
pub open spec fn rest_text(items: Seq<(bool, Seq<char>)>) -> Seq<char>
    decreases items.len(),
{
    if items.len() == 0 {
        Seq::empty()
    } else {
        (if items.len() == 1 {
            " or "@
        } else {
            ", "@
        }) + value_text(items[0]) + rest_text(items.drop_first())
    }
}

/// How a list of values is shown: `nothing` when empty, else `a`, `b` or `c`.
pub open spec fn values_text(items: Seq<(bool, Seq<char>)>) -> Seq<char> {
    if items.len() == 0 {
        "nothing"@
    } else {
        value_text(items[0]) + rest_text(items.drop_first())
    }
}

impl<'a> PossibleValue<'a> {
    /// Returns how the value is shown in messages.
    pub fn to_string(&self) -> (r: String)
        ensures
            r@ == value_text(value_view(*self)),
    {
        match *self {
            PossibleValue::String(s) => {
                let mut r = String::new();
                push_char(&mut r, '`');
                let e = escape_debug(s);
                push_str(&mut r, e.as_str());
                push_char(&mut r, '`');
                proof {
                    assert(r@ =~= seq!['`'] + escape_debug_of(s@) + seq!['`']);
                }
                r
            },
            PossibleValue::Other(o) => {
                let mut r = String::new();
                push_str(&mut r, o);
                proof {
                    assert(r@ =~= o@);
                }
                r
            },
        }
    }
}

/// Appends the values of `v`, flattened, to `out`.
fn flatten_into<'a>(v: &'a PossibleValues, out: &mut Vec<PossibleValue<'a>>)
    ensures
        final(out)@.map_values(|p: PossibleValue<'a>| value_view(p)) == old(out)@.map_values(
            |p: PossibleValue<'a>| value_view(p),
        ) + flat(*v),
    decreases v,
{
    match v {
        PossibleValues::String(s) => {
            out.push(PossibleValue::String(s.as_str()));
            proof {
                assert(out@.map_values(|p: PossibleValue<'a>| value_view(p)) =~= old(
                    out,
                )@.map_values(|p: PossibleValue<'a>| value_view(p)) + flat(*v));
            }
        },
        PossibleValues::Other(s) => {
            out.push(PossibleValue::Other(s.as_str()));
            proof {
                assert(out@.map_values(|p: PossibleValue<'a>| value_view(p)) =~= old(
                    out,
                )@.map_values(|p: PossibleValue<'a>| value_view(p)) + flat(*v));
            }
        },
        PossibleValues::OneOf(vs) => {
            proof {
                assert(vs@.subrange(0, vs@.len() as int) =~= vs@);
            }
            let mut i: usize = 0;
            while i < vs.len()
                invariant
                    i <= vs@.len(),
                    *v == PossibleValues::OneOf(*vs),
                    out@.map_values(|p: PossibleValue<'a>| value_view(p)) + flat_all(
                        vs@.subrange(i as int, vs@.len() as int),
                    ) == old(out)@.map_values(|p: PossibleValue<'a>| value_view(p)) + flat(*v),
                decreases vs@.len() - i,
            {
                let ghost before = out@.map_values(|p: PossibleValue<'a>| value_view(p));
                proof {
                    assert(vs@.subrange(i as int, vs@.len() as int).drop_first() =~= vs@.subrange(
                        i + 1,
                        vs@.len() as int,
                    ));
                    vstd::std_specs::vec::axiom_vec_index_decreases(*vs, i as int);
                }
                flatten_into(&vs[i], out);
                proof {
                    assert(flat_all(vs@.subrange(i as int, vs@.len() as int)) == flat(vs@[i as int])
                        + flat_all(vs@.subrange(i + 1, vs@.len() as int)));
                    assert(before + flat_all(vs@.subrange(i as int, vs@.len() as int)) =~= out@.map_values(
                        |p: PossibleValue<'a>| value_view(p),
                    ) + flat_all(vs@.subrange(i + 1, vs@.len() as int)));
                }
                i = i + 1;
            }
            proof {
                assert(vs@.subrange(i as int, vs@.len() as int) =~= Seq::<PossibleValues>::empty());
                assert(out@.map_values(|p: PossibleValue<'a>| value_view(p)) + flat_all(
                    Seq::<PossibleValues>::empty(),
                ) =~= out@.map_values(|p: PossibleValue<'a>| value_view(p)));
            }
        },
    }
}

impl PossibleValues {
    /// Returns an iterator over the values, nested lists flattened.
    pub fn iter(&self) -> (r: PossibleValueIter<'_>)
        ensures
            r.wf(),
            r.remaining() == flat(*self),
    {
        let mut items: Vec<PossibleValue<'_>> = Vec::new();
        flatten_into(self, &mut items);
        proof {
            assert(items@.map_values(|p: PossibleValue<'_>| value_view(p)) =~= flat(*self));
        }
        let r = PossibleValueIter { items, index: 0 };
        proof {
            assert(r.items@.subrange(0, r.items@.len() as int) =~= r.items@);
        }
        r
    }

    /// Returns how the values are shown in messages: `nothing`, or the
    /// values joined by `, ` and, before the last, ` or `.
    pub fn to_string(&self) -> (r: String)
        ensures
            r@ == values_text(flat(*self)),
    {
        let it = self.iter();
        let items = it.collect();
        let ghost all = flat(*self);
        let mut r = String::new();
        if items.len() == 0 {
            push_str(&mut r, "nothing");
            proof {
                assert(r@ =~= "nothing"@);
            }
            return r;
        }
        let first = items[0].to_string();
        push_str(&mut r, first.as_str());
        let mut i: usize = 1;
        while i < items.len()
            invariant
                1 <= i <= items@.len(),
                items@.map_values(|p: PossibleValue<'_>| value_view(p)) == all,
                r@ + rest_text(all.subrange(i as int, all.len() as int)) == values_text(all),
            decreases items@.len() - i,
        {
            let ghost rest = all.subrange(i as int, all.len() as int);
            proof {
                assert(rest.drop_first() =~= all.subrange(i + 1, all.len() as int));
                assert(rest[0] == value_view(items@[i as int]));
            }
            if i + 1 == items.len() {
                push_str(&mut r, " or ");
            } else {
                push_str(&mut r, ", ");
            }
            let t = items[i].to_string();
            push_str(&mut r, t.as_str());
            proof {
                assert(rest_text(rest) == (if rest.len() == 1 {
                    " or "@
                } else {
                    ", "@
                }) + value_text(rest[0]) + rest_text(rest.drop_first()));
            }
            i = i + 1;
        }
        proof {
            assert(all.subrange(i as int, all.len() as int) =~= Seq::<(bool, Seq<char>)>::empty());
            assert(r@ + Seq::<char>::empty() =~= r@);
        }
        r
    }
}

impl PartialEq for PossibleValues {
    fn eq(&self, other: &Self) -> (r: bool) {
        let a = self.iter().collect();
        let b = other.iter().collect();
        if a.len() != b.len() {
            proof {
                assert(flat(*self).len() != flat(*other).len());
            }
            return false;
        }
        let mut i: usize = 0;
        while i < a.len()
            invariant
                a@.len() == b@.len(),
                i <= a@.len(),
                a@.map_values(|p: PossibleValue<'_>| value_view(p)) == flat(*self),
                b@.map_values(|p: PossibleValue<'_>| value_view(p)) == flat(*other),
                forall|k: int| 0 <= k < i ==> value_view(#[trigger] a@[k]) == value_view(b@[k]),
            decreases a@.len() - i,
        {
            let same = match (a[i], b[i]) {
                (PossibleValue::String(x), PossibleValue::String(y))
                | (PossibleValue::Other(x), PossibleValue::Other(y)) => {
                    let e = bytes_eq(x.as_bytes(), y.as_bytes());
                    proof {
                        vstd::utf8::encode_utf8_decode_utf8(x@);
                        vstd::utf8::encode_utf8_decode_utf8(y@);
                    }
                    e
                },
                _ => false,
            };
            if !same {
                proof {
                    assert(flat(*self)[i as int] != flat(*other)[i as int]);
                }
                return false;
            }
            i = i + 1;
        }
        proof {
            assert(flat(*self) =~= flat(*other));
        }
        true
    }
}

impl vstd::std_specs::cmp::PartialEqSpecImpl for PossibleValues {
    open spec fn obeys_eq_spec() -> bool {
        true
    }

    open spec fn eq_spec(&self, other: &PossibleValues) -> bool {
        flat(*self) == flat(*other)
    }
}

impl Eq for PossibleValues {}

/// Iterator over possible values that flattens [`PossibleValues::OneOf`].
pub struct PossibleValueIter<'a> {
    items: Vec<PossibleValue<'a>>,
    index: usize,
}

impl<'a> PossibleValueIter<'a> {
    /// The position lies within the values.
    pub closed spec fn wf(&self) -> bool {
        self.index <= self.items@.len()
    }

    /// The values not returned yet.
    pub closed spec fn remaining(&self) -> Seq<(bool, Seq<char>)> {
        self.items@.subrange(self.index as int, self.items@.len() as int).map_values(
            |p: PossibleValue<'a>| value_view(p),
        )
    }

    /// Returns the next value, or `None` when all were returned.
    pub fn next(&mut self) -> (r: Option<PossibleValue<'a>>)
        requires
            old(self).wf(),
        ensures
            final(self).wf(),
            old(self).remaining().len() == 0 ==> r is None && final(self).remaining() == old(
                self,
            ).remaining(),
            old(self).remaining().len() > 0 ==> r is Some && value_view(r.unwrap()) == old(
                self,
            ).remaining()[0] && final(self).remaining() == old(self).remaining().drop_first(),
    {
        if self.index < self.items.len() {
            let p = self.items[self.index];
            self.index = self.index + 1;
            proof {
                assert(self.remaining() =~= old(self).remaining().drop_first());
            }
            Some(p)
        } else {
            None
        }
    }

    /// Returns the values not returned yet, in order.
    pub fn collect(self) -> (r: Vec<PossibleValue<'a>>)
        requires
            self.wf(),
        ensures
            r@.map_values(|p: PossibleValue<'a>| value_view(p)) == self.remaining(),
    {
        let mut r: Vec<PossibleValue<'a>> = Vec::new();
        let mut i = self.index;
        while i < self.items.len()
            invariant
                self.index <= i <= self.items@.len(),
                r@ == self.items@.subrange(self.index as int, i as int),
            decreases self.items@.len() - i,
        {
            r.push(self.items[i]);
            i = i + 1;
            proof {
                assert(r@ =~= self.items@.subrange(self.index as int, i as int));
            }
        }
        r
    }
}

} // verus!
