//! Actions store what was parsed in a variable of the caller; some of them
//! make sure that an argument is given at most once.

use vstd::prelude::*;

use crate::error::{Error, ErrorInner};
use crate::from_input::{try_from_input, value_eaten, FromInputValue};
use crate::input::ArgsInput;
use crate::util::{first_flag_text, flag_eat, has_first, lemma_flag_miss, ArgCtx, Flag, PosCtx};

verus! {

/// Sets the parsed value, at most once: performed again while the value is
/// no longer in its initial state, it fails.
pub struct SetOnce<'a, T>(pub &'a mut T);

/// Sets the value back to its initial state; fails if it is still in it.
pub struct Unset<'a, T>(pub &'a mut T);

/// Sets the parsed value; performed several times, the last value stays.
pub struct SetLast<'a, T>(pub &'a mut T);

/// Sets the value back to its initial state, whatever it was.
pub struct Reset<'a, T>(pub &'a mut T);

/// Increments the value.
pub struct Inc<'a, T>(pub &'a mut T);

/// Decrements the value.
pub struct Dec<'a, T>(pub &'a mut T);

/// Appends the parsed value(s) to the existing ones.
pub struct Append<'a, T>(pub &'a mut T);

/// Like [`SetLast`], for positional arguments.
pub struct SetPositional<'a, T>(pub &'a mut T);

/// Like [`SetLast`], for subcommands.
pub struct SetSubcommand<'a, T>(pub &'a mut T);

/// The error of a flag given more often than allowed.
pub open spec fn is_too_often(e: Error, context: Flag, max: Option<u32>) -> bool {
    &&& e.spec_source() is None
    &&& e.spec_inner() is TooManyArgOccurrences
    &&& e.spec_inner()->TooManyArgOccurrences_arg@ == first_flag_text(context)
    &&& e.spec_inner()->TooManyArgOccurrences_max == max
}

impl<'a> SetLast<'a, bool> {
    /// Sets the variable to `true` if the flag is eaten; returns whether it
    /// was.
    pub fn apply(self, input: &mut ArgsInput, context: &Flag) -> (r: Result<bool, Error>)
        requires
            old(input).wf(),
        ensures
            final(input).wf(),
            final(input)@ == flag_eat(old(input)@, *context).1,
            r == Ok::<bool, Error>(flag_eat(old(input)@, *context).0),
            *final(self.0) == (flag_eat(old(input)@, *context).0 || *old(self.0)),
    {
        if Flag::from_input(input, context)? {
            *self.0 = true;
            Ok(true)
        } else {
            Ok(false)
        }
    }
}

impl<'a> Reset<'a, bool> {
    /// Sets the variable to `false` if the flag is eaten; returns whether it
    /// was.
    pub fn apply(self, input: &mut ArgsInput, context: &Flag) -> (r: Result<bool, Error>)
        requires
            old(input).wf(),
        ensures
            final(input).wf(),
            final(input)@ == flag_eat(old(input)@, *context).1,
            r == Ok::<bool, Error>(flag_eat(old(input)@, *context).0),
            *final(self.0) == (!flag_eat(old(input)@, *context).0 && *old(self.0)),
    {
        if Flag::from_input(input, context)? {
            *self.0 = false;
            Ok(true)
        } else {
            Ok(false)
        }
    }
}

impl<'a> SetOnce<'a, bool> {
    /// Sets the variable to `true` if the flag is eaten; fails if it was
    /// `true` already.
    pub fn apply(self, input: &mut ArgsInput, context: &Flag) -> (r: Result<bool, Error>)
        requires
            old(input).wf(),
            flag_eat(old(input)@, *context).0 && *old(self.0) ==> has_first(*context),
        ensures
            final(input).wf(),
            final(input)@ == flag_eat(old(input)@, *context).1,
            !flag_eat(old(input)@, *context).0 ==> r == Ok::<bool, Error>(false) && *final(self.0)
                == *old(self.0),
            flag_eat(old(input)@, *context).0 && !*old(self.0) ==> r == Ok::<bool, Error>(true)
                && *final(self.0),
            flag_eat(old(input)@, *context).0 && *old(self.0) ==> r is Err && is_too_often(
                r->Err_0,
                *context,
                Some(1u32),
            ) && *final(self.0),
    {
        if Flag::from_input(input, context)? {
            if *self.0 {
                return Err(
                    Error::from_inner(
                        ErrorInner::TooManyArgOccurrences {
                            arg: context.first_to_string(),
                            max: Some(1),
                        },
                    ),
                );
            }
            *self.0 = true;
            Ok(true)
        } else {
            Ok(false)
        }
    }
}

impl<'a> Unset<'a, bool> {
    /// Sets the variable to `false` if the flag is eaten; fails if it was
    /// `false` already.
    pub fn apply(self, input: &mut ArgsInput, context: &Flag) -> (r: Result<bool, Error>)
        requires
            old(input).wf(),
            flag_eat(old(input)@, *context).0 && !*old(self.0) ==> has_first(*context),
        ensures
            final(input).wf(),
            final(input)@ == flag_eat(old(input)@, *context).1,
            !flag_eat(old(input)@, *context).0 ==> r == Ok::<bool, Error>(false) && *final(self.0)
                == *old(self.0),
            flag_eat(old(input)@, *context).0 && *old(self.0) ==> r == Ok::<bool, Error>(true)
                && !*final(self.0),
            flag_eat(old(input)@, *context).0 && !*old(self.0) ==> r is Err && is_too_often(
                r->Err_0,
                *context,
                None,
            ) && !*final(self.0),
    {
        if Flag::from_input(input, context)? {
            if !*self.0 {
                return Err(
                    Error::from_inner(
                        ErrorInner::TooManyArgOccurrences {
                            arg: context.first_to_string(),
                            max: None,
                        },
                    ),
                );
            }
            *self.0 = false;
            Ok(true)
        } else {
            Ok(false)
        }
    }
}

/// The error arose in the named argument: its source says so.
pub open spec fn arose_in(e: Error, flag: Flag) -> bool {
    &&& e.spec_source() is Some
    &&& e.spec_source().unwrap().spec_inner() is InArgument
    &&& e.spec_source().unwrap().spec_inner()->InArgument_0@ == first_flag_text(flag)
}

/// Parses a named argument, if its flag is there; an error is marked as
/// arising in the flag.
fn parse_named<V: FromInputValue>(input: &mut ArgsInput, context: &ArgCtx<V::Context>) -> (r:
    Result<Option<V>, Error>)
    requires
        old(input).wf(),
        has_first(context.flag),
    ensures
        final(input).wf(),
        (r matches Ok(None)) <==> !flag_eat(old(input)@, context.flag).0,
        (r matches Ok(None)) ==> final(input)@ == old(input)@,
        (r matches Ok(Some(_))) ==> value_eaten(flag_eat(old(input)@, context.flag).1, final(input)@),
        r is Err ==> final(input)@ == flag_eat(old(input)@, context.flag).1 && arose_in(
            r->Err_0,
            context.flag,
        ),
{
    match try_from_input(input, context) {
        Ok(v) => Ok(v),
        Err(e) => Err(e.chain(ErrorInner::InArgument(context.flag.first_to_string()))),
    }
}

impl<'a, V: FromInputValue> SetLast<'a, Option<V>> {
    /// Parses the named argument and stores its value if its flag is there;
    /// returns whether it was.
    pub fn apply(self, input: &mut ArgsInput, context: &ArgCtx<V::Context>) -> (r: Result<
        bool,
        Error,
    >)
        requires
            old(input).wf(),
            has_first(context.flag),
        ensures
            final(input).wf(),
            (r == Ok::<bool, Error>(false)) <==> !flag_eat(old(input)@, context.flag).0,
            r == Ok::<bool, Error>(false) ==> final(input)@ == old(input)@ && *final(self.0)
                == *old(self.0),
            r == Ok::<bool, Error>(true) ==> value_eaten(
                flag_eat(old(input)@, context.flag).1,
                final(input)@,
            ) && (*final(self.0)) is Some,
            r is Err ==> final(input)@ == flag_eat(old(input)@, context.flag).1 && arose_in(
                r->Err_0,
                context.flag,
            ) && *final(self.0) == *old(self.0),
    {
        match parse_named(input, context)? {
            Some(s) => {
                *self.0 = Some(s);
                Ok(true)
            },
            None => Ok(false),
        }
    }
}

impl<'a, V: FromInputValue> SetOnce<'a, Option<V>> {
    /// Parses the named argument and stores its value if its flag is there;
    /// fails if a value was stored already.
    pub fn apply(self, input: &mut ArgsInput, context: &ArgCtx<V::Context>) -> (r: Result<
        bool,
        Error,
    >)
        requires
            old(input).wf(),
            has_first(context.flag),
        ensures
            final(input).wf(),
            (r == Ok::<bool, Error>(false)) <==> !flag_eat(old(input)@, context.flag).0,
            r == Ok::<bool, Error>(false) ==> final(input)@ == old(input)@ && *final(self.0)
                == *old(self.0),
            r == Ok::<bool, Error>(true) ==> value_eaten(
                flag_eat(old(input)@, context.flag).1,
                final(input)@,
            ) && (*old(self.0)) is None && (*final(self.0)) is Some,
            r is Err ==> *final(self.0) == *old(self.0) && ((final(input)@ == flag_eat(
                old(input)@,
                context.flag,
            ).1 && arose_in(r->Err_0, context.flag)) || (value_eaten(
                flag_eat(old(input)@, context.flag).1,
                final(input)@,
            ) && (*old(self.0)) is Some && is_too_often(r->Err_0, context.flag, Some(1u32)))),
    {
        match parse_named(input, context)? {
            Some(s) => {
                if self.0.is_some() {
                    return Err(
                        Error::from_inner(
                            ErrorInner::TooManyArgOccurrences {
                                arg: context.flag.first_to_string(),
                                max: Some(1),
                            },
                        ),
                    );
                }
                *self.0 = Some(s);
                Ok(true)
            },
            None => Ok(false),
        }
    }
}

impl<'a, V> Reset<'a, Option<V>> {
    /// Sets the variable to `None` if the flag is eaten; returns whether it
    /// was.
    pub fn apply(self, input: &mut ArgsInput, context: &Flag) -> (r: Result<bool, Error>)
        requires
            old(input).wf(),
        ensures
            final(input).wf(),
            final(input)@ == flag_eat(old(input)@, *context).1,
            r == Ok::<bool, Error>(flag_eat(old(input)@, *context).0),
            flag_eat(old(input)@, *context).0 ==> (*final(self.0)) is None,
            !flag_eat(old(input)@, *context).0 ==> *final(self.0) == *old(self.0),
    {
        if Flag::from_input(input, context)? {
            *self.0 = None;
            Ok(true)
        } else {
            Ok(false)
        }
    }
}

impl<'a, V> Unset<'a, Option<V>> {
    /// Sets the variable to `None` if the flag is eaten; fails if it was
    /// `None` already.
    pub fn apply(self, input: &mut ArgsInput, context: &Flag) -> (r: Result<bool, Error>)
        requires
            old(input).wf(),
            flag_eat(old(input)@, *context).0 && (*old(self.0)) is None ==> has_first(*context),
        ensures
            final(input).wf(),
            final(input)@ == flag_eat(old(input)@, *context).1,
            !flag_eat(old(input)@, *context).0 ==> r == Ok::<bool, Error>(false) && *final(self.0)
                == *old(self.0),
            flag_eat(old(input)@, *context).0 && (*old(self.0)) is Some ==> r == Ok::<bool, Error>(
                true,
            ) && (*final(self.0)) is None,
            flag_eat(old(input)@, *context).0 && (*old(self.0)) is None ==> r is Err && is_too_often(
                r->Err_0,
                *context,
                None,
            ) && (*final(self.0)) is None,
    {
        if Flag::from_input(input, context)? {
            if self.0.is_none() {
                return Err(
                    Error::from_inner(
                        ErrorInner::TooManyArgOccurrences {
                            arg: context.first_to_string(),
                            max: None,
                        },
                    ),
                );
            }
            *self.0 = None;
            Ok(true)
        } else {
            Ok(false)
        }
    }
}

impl<'a, T: FromInputValue> SetPositional<'a, Option<T>> {
    /// Parses a positional value and stores it; fails if a value was stored
    /// already.
    pub fn apply(self, input: &mut ArgsInput, context: &PosCtx<T::Context>) -> (r: Result<
        bool,
        Error,
    >)
        requires
            old(input).wf(),
        ensures
            final(input).wf(),
            r == Ok::<bool, Error>(false) ==> final(input)@ == old(input)@ && *final(self.0)
                == *old(self.0),
            r == Ok::<bool, Error>(true) ==> value_eaten(old(input)@, final(input)@) && (*old(self.0)) is None && (*final(self.0)) is Some,
            r is Err ==> *final(self.0) == *old(self.0) && (final(input)@ == old(input)@ || (
            value_eaten(old(input)@, final(input)@) && (*old(self.0)) is Some
                && r->Err_0.spec_source() is None && r->Err_0.spec_inner() is TooManyArgOccurrences
                && r->Err_0.spec_inner()->TooManyArgOccurrences_arg@ == context.name@)),
            old(input)@.cursor is None ==> r == Ok::<bool, Error>(false),
    {
        match input.try_parse_value(&context.inner)? {
            Some(s) => {
                if self.0.is_some() {
                    return Err(
                        Error::from_inner(
                            ErrorInner::TooManyArgOccurrences {
                                arg: context.name.to_owned(),
                                max: None,
                            },
                        ),
                    );
                }
                *self.0 = Some(s);
                Ok(true)
            },
            None => Ok(false),
        }
    }
}

} // verus!
