//! Parsing values from the tokenizer: the trait of types that can be read
//! from a value, and the parsing of named arguments (`--flag value`).

use vstd::prelude::*;
use vstd::string::StringSliceAdditionalSpecFns;

use crate::error::{Error, ErrorInner};
use crate::help::PossibleValues;
use crate::input::ArgsInput;
use crate::model::{commit, current_bytes, current_kind, current_with_dashes_bytes, InputModel};
use crate::token_kind::TokenKind;
use crate::util::{first_flag_text, flag_eat, has_first, lemma_flag_miss, ArgCtx, Flag};

verus! {

/// Types that can be read from a value: a positional argument, or the text
/// after a flag (`bar` in `--foo bar` or `--foo=bar`).
///
/// A value that starts with a dash is refused unless `allow_leading_dashes`
/// says otherwise.
pub trait FromInputValue: Sized {
    /// What is known while parsing, e.g. bounds.
    type Context;

    /// Parses the value from `value`.
    fn from_input_value(value: &str, context: &Self::Context) -> Result<Self, Error>;

    /// Whether the value may start with dashes (e.g. negative numbers).
    fn allow_leading_dashes(context: &Self::Context) -> bool;

    /// The accepted values, or a short description of them.
    fn possible_values(context: &Self::Context) -> Option<PossibleValues>;
}

/// The current token can be a value: its kind is `NoDash`, `AfterOneDash` or
/// `AfterEquals`.
pub open spec fn is_value_kind(m: InputModel) -> bool {
    m.cursor is Some && (current_kind(m) == TokenKind::NoDash || current_kind(m)
        == TokenKind::AfterOneDash || current_kind(m) == TokenKind::AfterEquals)
}

/// The state after the whole current token was read as a value, with or
/// without its leading dashes.
pub open spec fn value_eaten(m: InputModel, n: InputModel) -> bool {
    ||| (is_value_kind(m) && n == commit(m, m.cursor.unwrap().0, current_bytes(m).len() as int))
    ||| (m.cursor is Some && n == commit(
        m,
        m.cursor.unwrap().1,
        current_with_dashes_bytes(m).len() as int,
    ))
}

/// The error of a missing value: it arose in the named argument.
pub open spec fn is_missing_value_in(e: Error, flag: Flag) -> bool {
    &&& e.spec_inner() is MissingValue
    &&& e.spec_source() is Some
    &&& e.spec_source().unwrap().spec_inner() is InArgument
    &&& e.spec_source().unwrap().spec_inner()->InArgument_0@ == first_flag_text(flag)
    &&& e.spec_source().unwrap().spec_source() is None
}

impl ArgsInput {
    /// Parses the current token as a value and eats it if that succeeds.
    ///
    /// Fails with `NoValue`, eating nothing, where no value can stand; fails
    /// with the error of `V`, eating nothing, where the text is refused.
    pub fn parse_value<V: FromInputValue>(&mut self, context: &V::Context) -> (r: Result<
        V,
        Error,
    >)
        requires
            old(self).wf(),
        ensures
            final(self).wf(),
            r is Ok ==> value_eaten(old(self)@, final(self)@),
            r is Err ==> final(self)@ == old(self)@,
            old(self)@.cursor is None ==> r is Err && r->Err_0.spec_inner() is NoValue,
    {
        if V::allow_leading_dashes(context) {
            match self.value_allows_leading_dashes() {
                Some(value) => {
                    let result = V::from_input_value(value.as_str(), context)?;
                    value.eat();
                    Ok(result)
                },
                None => Err(Error::no_value()),
            }
        } else {
            match self.value() {
                Some(value) => {
                    let result = V::from_input_value(value.as_str(), context)?;
                    value.eat();
                    Ok(result)
                },
                None => Err(Error::no_value()),
            }
        }
    }

    /// Like [`ArgsInput::parse_value`], but a `NoValue` error becomes
    /// `Ok(None)`.
    pub fn try_parse_value<V: FromInputValue>(&mut self, context: &V::Context) -> (r: Result<
        Option<V>,
        Error,
    >)
        requires
            old(self).wf(),
        ensures
            final(self).wf(),
            (r matches Ok(Some(_))) ==> value_eaten(old(self)@, final(self)@),
            !(r matches Ok(Some(_))) ==> final(self)@ == old(self)@,
            old(self)@.cursor is None ==> (r matches Ok(None)),
            r is Err ==> !(r->Err_0.spec_inner() is NoValue),
    {
        match self.parse_value(context) {
            Ok(value) => Ok(Some(value)),
            Err(e) => if e.is_no_value() {
                Ok(None)
            } else {
                Err(e)
            },
        }
    }
}

/// Parses a named argument: its flag, then its value.
///
/// Fails with `NoValue`, eating nothing, if the flag is not there; where the
/// flag is there but no value follows, fails with `MissingValue` that arose
/// in the flag.
pub fn from_input<V: FromInputValue>(input: &mut ArgsInput, context: &ArgCtx<V::Context>) -> (r:
    Result<V, Error>)
    requires
        old(input).wf(),
        has_first(context.flag),
    ensures
        final(input).wf(),
        !flag_eat(old(input)@, context.flag).0 ==> r is Err && r->Err_0.spec_inner() is NoValue
            && final(input)@ == old(input)@,
        flag_eat(old(input)@, context.flag).0 ==> {
            let m = flag_eat(old(input)@, context.flag).1;
            &&& r is Ok ==> value_eaten(m, final(input)@)
            &&& r is Err ==> final(input)@ == m && !(r->Err_0.spec_inner() is NoValue)
            &&& m.cursor is None ==> r is Err && is_missing_value_in(r->Err_0, context.flag)
        },
{
    proof {
        lemma_flag_miss(input@, context.flag);
    }
    if Flag::from_input(input, &context.flag)? {
        match input.parse_value(&context.inner) {
            Ok(value) => Ok(value),
            Err(e) => if e.is_no_value() {
                Err(
                    Error::missing_value().chain(
                        ErrorInner::InArgument(context.flag.first_to_string()),
                    ),
                )
            } else {
                Err(e)
            },
        }
    } else {
        Err(Error::no_value())
    }
}

/// Like [`from_input`], but a missing flag gives `Ok(None)`.
pub fn try_from_input<V: FromInputValue>(input: &mut ArgsInput, context: &ArgCtx<V::Context>) -> (r:
    Result<Option<V>, Error>)
    requires
        old(input).wf(),
        has_first(context.flag),
    ensures
        final(input).wf(),
        !flag_eat(old(input)@, context.flag).0 ==> (r matches Ok(None)) && final(input)@ == old(
            input,
        )@,
        flag_eat(old(input)@, context.flag).0 ==> {
            let m = flag_eat(old(input)@, context.flag).1;
            &&& (r matches Ok(Some(_))) ==> value_eaten(m, final(input)@)
            &&& r is Err ==> final(input)@ == m
            &&& !(r is Err) ==> (r matches Ok(Some(_)))
            &&& m.cursor is None ==> r is Err && is_missing_value_in(r->Err_0, context.flag)
        },
{
    match from_input(input, context) {
        Ok(value) => Ok(Some(value)),
        Err(e) => if e.is_no_value() {
            Ok(None)
        } else {
            Err(e)
        },
    }
}

} // verus!
