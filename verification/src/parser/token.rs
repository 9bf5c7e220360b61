//! The tokens of the contract source language.

use vstd::prelude::*;

verus! {

/// Source code is tokenized into a sequence of these tokens.
#[derive(Clone, Debug, PartialEq)]
pub enum Tok {
    // Arithmetic operators
    Plus,
    Minus,
    Mul,
    Div,
    Mod,
    // Shift operators
    LShift,
    RShift,
    // Assignment
    Assign,
    // Comparison operators
    Lt,
    Le,
    Gt,
    Ge,
    Eq,
    NotEq,
    // Logical operators
    And,
    Or,
    // Bit operators
    BitAnd,
    BitXor,
    BitOr,
    // Types
    UInt256,
    // Keywords
    Function,
    Contract,
    If,
    Else,
    For,
    In,
    Returns,
    Return,
    Private,
    // Marks
    LPar,
    RPar,
    LBrace,
    RBrace,
    Semi,
    Comma,
    // Variables
    Num { number: u64 },
    Identifier { name: String },
    Literal { literal: String },
    EOF,
}

} // verus!
