//! A zero-knowledge proof toolchain for a small contract language: a lexer
//! and parser for the source text, a compiler to secret-shared circuit
//! evaluation, and the three-party proof engine with its two-party verifier.

pub mod caller;
pub mod error;
pub mod generator;
pub mod location;
pub mod operation;
pub mod parser;
pub mod traverser;
pub mod utils;
pub mod variable;
pub mod zkboo;

use crate::error::ZokError;
use crate::parser::ast;
use crate::parser::lexer::tokenize;
use crate::parser::syntax::Parser;
use vstd::prelude::*;

verus! {

/// Parse a source text into a program.
pub fn parse_program(source: &str) -> (r: Result<ast::Program, ZokError>) {
    let toks = match tokenize(source) {
        Ok(t) => t,
        Err(e) => {
            return Err(ZokError::from(e));
        },
    };
    let mut parser = Parser::new(toks);
    parser.parse_program()
}

/// Parse a source text into a program; the entry point callers use.
pub fn parse_zok(code: &str) -> (r: Result<ast::Program, ZokError>) {
    let ast = match parse_program(code) {
        Ok(a) => a,
        Err(e) => {
            return Err(e);
        },
    };
    Ok(ast)
}

} // verus!
