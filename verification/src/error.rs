//! Error kinds of the parser, the lexer and the compilation pipeline.

use crate::location::Location;
use crate::parser::Tok;
use vstd::prelude::*;

verus! {

/// A parse or compilation error together with its source position.
#[derive(Debug)]
pub struct ZokError {
    pub error: ZokErrorType,
    pub location: Location,
}

#[derive(Debug)]
pub enum ZokErrorType {
    /// Parser encountered an unexpected end of input
    EOF,
    /// Parser encountered an extra token
    ExtraToken(Tok),
    /// Parser encountered an invalid token
    InvalidToken,
    /// Parser encountered an unexpected token
    UnrecognizedToken(char),
    /// A lexical error below the token level
    Lexical(LexicalErrorType),
    SyntaxError(String),
    TypeError(String),
    UnsupportedError,
    Unreachable,
}

/// A tokenizer error together with its source position.
#[derive(Debug)]
pub struct LexicalError {
    pub error: LexicalErrorType,
    pub location: Location,
}

#[derive(Debug)]
pub enum LexicalErrorType {
    UnrecognizedToken(char),
    OtherError(String),
}

impl ZokError {
    /// A rendering of the error kind, one line.
    pub fn message(&self) -> (r: String)
        ensures
            r@ == self.error.message_spec(),
    {
        self.error.message()
    }
}

impl ZokErrorType {
    pub open spec fn message_spec(self) -> Seq<char> {
        match self {
            ZokErrorType::InvalidToken => "Got invalid token"@,
            ZokErrorType::UnrecognizedToken(_) => "Got unexpected token"@,
            _ => "Got parser Error"@,
        }
    }

    /// A rendering of the error kind, one line.
    pub fn message(&self) -> (r: String)
        ensures
            r@ == self.message_spec(),
    {
        match self {
            ZokErrorType::InvalidToken => "Got invalid token".to_owned(),
            ZokErrorType::UnrecognizedToken(_) => "Got unexpected token".to_owned(),
            _ => "Got parser Error".to_owned(),
        }
    }
}

impl From<LexicalError> for ZokError {
    /// Lift a tokenizer error to a parse error, keeping its position.
    fn from(err: LexicalError) -> (r: ZokError) {
        ZokError { error: ZokErrorType::Lexical(err.error), location: err.location }
    }
}

impl vstd::std_specs::convert::FromSpecImpl<LexicalError> for ZokError {
    open spec fn obeys_from_spec() -> bool {
        true
    }

    open spec fn from_spec(err: LexicalError) -> ZokError {
        ZokError { error: ZokErrorType::Lexical(err.error), location: err.location }
    }
}

} // verus!
