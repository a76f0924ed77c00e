//! The classification of the current token.

use vstd::prelude::*;

verus! {

/// The kind of the current token.
///
/// It acts as the state of the argument being read, because one argument can
/// hold several tokens.
#[derive(Debug, Clone, Copy, PartialEq, Eq, Structural)]
pub enum TokenKind {
    /// An argument that does not start with a dash, e.g. `program`.
    NoDash,
    /// An argument that starts with exactly one dash, e.g. `-foo`, `-V`,
    /// `-h=config`.
    OneDash,
    /// An argument that starts with two or more dashes, e.g. `--version`.
    TwoDashes,
    /// The rest of a single-dash argument after a flag name was eaten from it,
    /// e.g. `bcd=efg` of `-abcd=efg` after `a`.
    AfterOneDash,
    /// The value of an argument after its name and the `=` were eaten, e.g.
    /// `efg` of `--abcd=efg`.
    AfterEquals,
}

} // verus!
