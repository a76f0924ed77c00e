//! A lexer for command-line argument vectors, with every operation proved
//! against a byte-level model of the tokenizer, and the pieces of an argument
//! parser built on it: flags, actions, errors and possible values.

pub mod actions;
pub mod error;
pub mod fmt;
pub mod from_input;
pub mod help;
pub mod impls;
pub mod input;
pub mod laws;
pub mod model;
pub mod offset_string;
pub mod parse;
pub mod part;
pub mod text;
pub mod token_kind;
pub mod util;

pub use error::{Error, ErrorInner};
pub use from_input::FromInputValue;
pub use input::{ArgsInput, StringInput};
pub use token_kind::TokenKind;
