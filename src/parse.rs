//! Convenience operations on the tokenizer for parsers built on it: flags,
//! commands, and the checks that end an argument or the input.

use vstd::prelude::*;
use vstd::string::StringSliceAdditionalSpecFns;
use vstd::utf8::*;

use crate::error::{Error, ErrorInner};
use crate::input::{no_dash_match, one_dash_match, two_dashes_match, ArgsInput};
use crate::model::{commit, current_bytes, current_kind};
use crate::token_kind::TokenKind;
use crate::util::after_eat;

verus! {

impl ArgsInput {
    /// Eats a flag with one dash, like `-h`; returns whether it did.
    pub fn parse_short_flag(&mut self, flag: &str) -> (r: bool)
        requires
            old(self).wf(),
        ensures
            final(self).wf(),
            r == one_dash_match(old(self)@, flag.spec_bytes()),
            final(self)@ == after_eat(old(self)@, r, flag.spec_bytes()),
    {
        self.eat_one_dash(flag).is_some()
    }

    /// Eats a flag with two dashes, like `--help`; returns whether it did.
    pub fn parse_long_flag(&mut self, flag: &str) -> (r: bool)
        requires
            old(self).wf(),
        ensures
            final(self).wf(),
            r == two_dashes_match(old(self)@, flag.spec_bytes()),
            final(self)@ == after_eat(old(self)@, r, flag.spec_bytes()),
    {
        self.eat_two_dashes(flag).is_some()
    }

    /// Eats a (sub)command, an argument without dashes equal to `command`;
    /// returns whether it did.
    pub fn parse_command(&mut self, command: &str) -> (r: bool)
        requires
            old(self).wf(),
        ensures
            final(self).wf(),
            r == no_dash_match(old(self)@, command.spec_bytes()),
            final(self)@ == after_eat(old(self)@, r, command.spec_bytes()),
    {
        self.eat_no_dash(command).is_some()
    }

    /// Fails with `UnexpectedArgument`, eating the rest of the current
    /// argument, unless the input is exhausted.
    pub fn expect_empty(&mut self) -> (r: Result<(), Error>)
        requires
            old(self).wf(),
        ensures
            final(self).wf(),
            old(self)@.cursor is None ==> r is Ok && final(self)@ == old(self)@,
            old(self)@.cursor is Some ==> r is Err && final(self)@ == commit(
                old(self)@,
                old(self)@.cursor.unwrap().0,
                current_bytes(old(self)@).len() as int,
            ) && r->Err_0.spec_source() is None && r->Err_0.spec_inner() is UnexpectedArgument
                && encode_utf8(r->Err_0.spec_inner()->UnexpectedArgument_arg@) == current_bytes(
                old(self)@,
            ),
    {
        match self.bump_argument() {
            Some(arg) => Err(Error::from_inner(ErrorInner::UnexpectedArgument { arg: arg.to_owned() })),
            None => Ok(()),
        }
    }

    /// Fails with `UnexpectedValue`, eating the rest of the current argument,
    /// if a value follows within it (after a single-dash flag or an `=`).
    pub fn expect_end_of_argument(&mut self) -> (r: Result<(), Error>)
        requires
            old(self).wf(),
        ensures
            final(self).wf(),
            !(old(self)@.cursor is Some && (current_kind(old(self)@) == TokenKind::AfterOneDash
                || current_kind(old(self)@) == TokenKind::AfterEquals)) ==> r is Ok && final(self)@ == old(self)@,
            (old(self)@.cursor is Some && (current_kind(old(self)@) == TokenKind::AfterOneDash
                || current_kind(old(self)@) == TokenKind::AfterEquals)) ==> r is Err && final(self)@ == commit(
                old(self)@,
                old(self)@.cursor.unwrap().0,
                current_bytes(old(self)@).len() as int,
            ) && r->Err_0.spec_source() is None && r->Err_0.spec_inner() is UnexpectedValue
                && encode_utf8(r->Err_0.spec_inner()->UnexpectedValue_got@) == current_bytes(
                old(self)@,
            ) && r->Err_0.spec_inner()->UnexpectedValue_expected is None,
    {
        if self.can_parse_value_no_whitespace() {
            let got = self.bump_argument().unwrap().to_owned();
            return Err(Error::from_inner(ErrorInner::UnexpectedValue { got, expected: None }));
        }
        Ok(())
    }
}

} // verus!
