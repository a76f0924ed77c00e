//! The error of parsing command-line arguments, and its message.

use vstd::prelude::*;

use crate::fmt::{decimal, escape_debug, escape_debug_of, push_decimal};
use crate::help::{flat, values_text, PossibleValues};
use crate::text::push_str;
use crate::util::{first_flag_text, has_first, Flag};

verus! {

/// The kinds of error when parsing command-line arguments.
#[derive(Debug)]
#[allow(inconsistent_fields)]
pub enum ErrorInner {
    /// The argument was not present at the current position; used like
    /// `Option::None`.
    NoValue,
    /// The argument was not present at the current position, but is required.
    MissingValue,
    /// The argument was only partly present; the number is the missing part.
    IncompleteValue(usize),
    /// Parsing was aborted on purpose, e.g. after `--help`.
    EarlyExit,
    /// The error arose in the named argument; used as a source.
    InArgument(String),
    /// The error arose in the named subcommand; used as a source.
    InSubcommand(String),
    /// The value does not meet the expectation.
    UnexpectedValue {
        /// The value that was read.
        got: String,
        /// What was expected, e.g. the accepted values.
        expected: Option<PossibleValues>,
    },
    /// The list holds more items than allowed.
    TooManyValues {
        /// The largest number of items allowed.
        max: usize,
        /// The number of items read.
        count: usize,
    },
    /// The array has the wrong length.
    WrongNumberOfValues {
        /// The length of the array.
        expected: usize,
        /// The number of items read.
        got: usize,
    },
    /// A required argument was not given.
    MissingArgument {
        /// The name of the missing argument.
        arg: String,
    },
    /// An unknown argument was given.
    UnexpectedArgument {
        /// The argument, as it was read.
        arg: String,
    },
    /// An argument was given more often than allowed.
    TooManyArgOccurrences {
        /// The name of the argument.
        arg: String,
        /// How often it may be given, if there is a bound.
        max: Option<u32>,
    },
}

/// The message of an error kind.
pub open spec fn message(inner: ErrorInner) -> Seq<char> {
    match inner {
        ErrorInner::NoValue => "no value"@,
        ErrorInner::MissingValue => "missing value"@,
        ErrorInner::IncompleteValue(part) => "missing part "@ + decimal(part as nat)
            + " of value"@,
        ErrorInner::EarlyExit => "early exit"@,
        ErrorInner::InArgument(opt) => "in `"@ + escape_debug_of(opt@) + "`"@,
        ErrorInner::InSubcommand(cmd) => "in subcommand "@ + escape_debug_of(cmd@),
        ErrorInner::UnexpectedValue { got, expected } => match expected {
            Some(e) => "unexpected value `"@ + escape_debug_of(got@) + "`, expected "@
                + values_text(flat(e)),
            None => "unexpected value `"@ + escape_debug_of(got@) + "`"@,
        },
        ErrorInner::UnexpectedArgument { arg } => "unexpected argument `"@ + escape_debug_of(
            arg@,
        ) + "`"@,
        ErrorInner::TooManyValues { max, count } => "too many values, expected at most "@
            + decimal(max as nat) + ", got "@ + decimal(count as nat),
        ErrorInner::WrongNumberOfValues { expected, got } => "wrong number of values, expected "@
            + decimal(expected as nat) + ", got "@ + decimal(got as nat),
        ErrorInner::MissingArgument { arg } => "required "@ + arg@ + " was not provided"@,
        ErrorInner::TooManyArgOccurrences { arg, max } => match max {
            Some(n) => arg@ + " was used too often, it can be used at most "@ + decimal(n as nat)
                + " times"@,
            None => arg@ + " was used too often"@,
        },
    }
}

/// The error of parsing command-line arguments: a kind, and optionally the
/// error it arose in, which gives context.
#[derive(Debug)]
pub struct Error {
    inner: ErrorInner,
    source: Option<Box<Error>>,
}

impl Error {
    /// The kind of this error.
    pub closed spec fn spec_inner(&self) -> ErrorInner {
        self.inner
    }

    /// The error this one arose in, if any.
    pub closed spec fn spec_source(&self) -> Option<Error> {
        match self.source {
            Some(b) => Some(*b),
            None => None,
        }
    }

    /// Creates an error of kind `inner` without a source.
    pub fn from_inner(inner: ErrorInner) -> (r: Error)
        ensures
            r.spec_inner() == inner,
            r.spec_source() is None,
    {
        Error { inner, source: None }
    }

    /// Attaches `source` as context, replacing the source there was.
    pub fn with_source(self, source: Error) -> (r: Error)
        ensures
            r.spec_inner() == self.spec_inner(),
            r.spec_source() == Some(source),
    {
        Error { inner: self.inner, source: Some(Box::new(source)) }
    }

    /// Attaches an error of kind `source` as context; the source there was
    /// becomes the source of the new one, so the sources form a chain.
    pub fn chain(self, source: ErrorInner) -> (r: Error)
        ensures
            r.spec_inner() == self.spec_inner(),
            r.spec_source() is Some,
            r.spec_source().unwrap().spec_inner() == source,
            r.spec_source().unwrap().spec_source() == self.spec_source(),
    {
        let new = Error { inner: source, source: self.source };
        Error { inner: self.inner, source: Some(Box::new(new)) }
    }

    /// Creates a `NoValue` error.
    pub fn no_value() -> (r: Error)
        ensures
            r.spec_inner() is NoValue,
            r.spec_source() is None,
    {
        Self::from_inner(ErrorInner::NoValue)
    }

    /// Returns `true` if this is a `NoValue` error.
    pub fn is_no_value(&self) -> (r: bool)
        ensures
            r == self.spec_inner() is NoValue,
    {
        matches!(self.inner, ErrorInner::NoValue)
    }

    /// Creates a `MissingValue` error.
    pub fn missing_value() -> (r: Error)
        ensures
            r.spec_inner() is MissingValue,
            r.spec_source() is None,
    {
        Self::from_inner(ErrorInner::MissingValue)
    }

    /// Returns the kind of this error.
    pub fn inner(&self) -> (r: &ErrorInner)
        ensures
            *r == self.spec_inner(),
    {
        &self.inner
    }

    /// Returns the error this one arose in, if any.
    pub fn source(&self) -> (r: Option<&Error>)
        ensures
            match r {
                Some(e) => self.spec_source() == Some(*e),
                None => self.spec_source() is None,
            },
    {
        match &self.source {
            Some(b) => Some(&**b),
            None => None,
        }
    }

    /// Creates an `EarlyExit` error.
    pub fn early_exit() -> (r: Error)
        ensures
            r.spec_inner() is EarlyExit,
            r.spec_source() is None,
    {
        Self::from_inner(ErrorInner::EarlyExit)
    }

    /// Returns `true` if this is an `EarlyExit` error.
    pub fn is_early_exit(&self) -> (r: bool)
        ensures
            r == self.spec_inner() is EarlyExit,
    {
        matches!(self.inner, ErrorInner::EarlyExit)
    }

    /// Creates an `UnexpectedValue` error.
    pub fn unexpected_value(got: &str, expected: Option<PossibleValues>) -> (r: Error)
        ensures
            r.spec_inner() is UnexpectedValue,
            r.spec_inner()->UnexpectedValue_got@ == got@,
            r.spec_inner()->UnexpectedValue_expected == expected,
            r.spec_source() is None,
    {
        Self::from_inner(ErrorInner::UnexpectedValue { got: got.to_owned(), expected })
    }

    /// Creates a `MissingArgument` error.
    pub fn missing_argument(arg: &str) -> (r: Error)
        ensures
            r.spec_inner() is MissingArgument,
            r.spec_inner()->MissingArgument_arg@ == arg@,
            r.spec_source() is None,
    {
        Self::from_inner(ErrorInner::MissingArgument { arg: arg.to_owned() })
    }

    /// Creates an `InArgument` error for the first alias of `flag`.
    pub fn in_argument(flag: &Flag) -> (r: Error)
        requires
            has_first(*flag),
        ensures
            r.spec_inner() is InArgument,
            r.spec_inner()->InArgument_0@ == first_flag_text(*flag),
            r.spec_source() is None,
    {
        Self::from_inner(ErrorInner::InArgument(flag.first_to_string()))
    }

    /// Creates an `InSubcommand` error.
    pub fn in_subcommand(cmd: &str) -> (r: Error)
        ensures
            r.spec_inner() is InSubcommand,
            r.spec_inner()->InSubcommand_0@ == cmd@,
            r.spec_source() is None,
    {
        Self::from_inner(ErrorInner::InSubcommand(cmd.to_owned()))
    }

    /// Creates a `TooManyArgOccurrences` error.
    pub fn too_many_arg_occurrences(arg: &str, max: Option<u32>) -> (r: Error)
        ensures
            r.spec_inner() is TooManyArgOccurrences,
            r.spec_inner()->TooManyArgOccurrences_arg@ == arg@,
            r.spec_inner()->TooManyArgOccurrences_max == max,
            r.spec_source() is None,
    {
        Self::from_inner(ErrorInner::TooManyArgOccurrences { arg: arg.to_owned(), max })
    }

    /// Returns the message of this error, without its sources.
    pub fn to_string(&self) -> (r: String)
        ensures
            r@ == message(self.spec_inner()),
    {
        let mut r = String::new();
        match &self.inner {
            ErrorInner::NoValue => push_str(&mut r, "no value"),
            ErrorInner::MissingValue => push_str(&mut r, "missing value"),
            ErrorInner::IncompleteValue(part) => {
                push_str(&mut r, "missing part ");
                push_decimal(&mut r, *part as u64);
                push_str(&mut r, " of value");
            },
            ErrorInner::EarlyExit => push_str(&mut r, "early exit"),
            ErrorInner::InArgument(opt) => {
                push_str(&mut r, "in `");
                push_str(&mut r, escape_debug(opt.as_str()).as_str());
                push_str(&mut r, "`");
            },
            ErrorInner::InSubcommand(cmd) => {
                push_str(&mut r, "in subcommand ");
                push_str(&mut r, escape_debug(cmd.as_str()).as_str());
            },
            ErrorInner::UnexpectedValue { got, expected } => {
                push_str(&mut r, "unexpected value `");
                push_str(&mut r, escape_debug(got.as_str()).as_str());
                match expected {
                    Some(e) => {
                        push_str(&mut r, "`, expected ");
                        push_str(&mut r, e.to_string().as_str());
                    },
                    None => push_str(&mut r, "`"),
                }
            },
            ErrorInner::UnexpectedArgument { arg } => {
                push_str(&mut r, "unexpected argument `");
                push_str(&mut r, escape_debug(arg.as_str()).as_str());
                push_str(&mut r, "`");
            },
            ErrorInner::TooManyValues { max, count } => {
                push_str(&mut r, "too many values, expected at most ");
                push_decimal(&mut r, *max as u64);
                push_str(&mut r, ", got ");
                push_decimal(&mut r, *count as u64);
            },
            ErrorInner::WrongNumberOfValues { expected, got } => {
                push_str(&mut r, "wrong number of values, expected ");
                push_decimal(&mut r, *expected as u64);
                push_str(&mut r, ", got ");
                push_decimal(&mut r, *got as u64);
            },
            ErrorInner::MissingArgument { arg } => {
                push_str(&mut r, "required ");
                push_str(&mut r, arg.as_str());
                push_str(&mut r, " was not provided");
            },
            ErrorInner::TooManyArgOccurrences { arg, max } => {
                push_str(&mut r, arg.as_str());
                match max {
                    Some(n) => {
                        push_str(&mut r, " was used too often, it can be used at most ");
                        push_decimal(&mut r, *n as u64);
                        push_str(&mut r, " times");
                    },
                    None => push_str(&mut r, " was used too often"),
                }
            },
        }
        proof {
            assert(r@ =~= message(self.spec_inner()));
        }
        r
    }
}

} // verus!
