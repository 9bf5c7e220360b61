//! The abstract syntax tree of the contract source language.

use crate::location::Location;
use vstd::prelude::*;

verus! {

#[derive(Debug)]
pub enum Program {
    GlobalStatements(Vec<GlobalStatement>),
}

/// A syntax node together with its source position.
#[derive(Clone, Debug)]
pub struct Located<T> {
    pub location: Location,
    pub node: T,
}

pub type GlobalStatement = Located<GlobalStatementType>;

pub type ContractStatement = Located<ContractStatementType>;

pub type Statement = Located<StatementType>;

pub type Expression = Located<ExpressionType>;

pub type Parameter = Located<ParameterType>;

#[derive(Debug)]
pub enum GlobalStatementType {
    ContractStatement { contract_name: String, members: Vec<ContractStatement> },
}

#[derive(Debug)]
pub enum ContractStatementType {
    FunctionStatement {
        function_name: String,
        parameters: Vec<Parameter>,
        return_type: Type,
        statements: Vec<Statement>,
    },
}

#[derive(Debug)]
pub enum StatementType {
    IfStatement {
        condition: Expression,
        if_statements: Vec<Statement>,
        else_statements: Vec<Statement>,
    },
    ForEachStatement { iterator: String, iterable: Expression, statements: Vec<Statement> },
    ReturnStatement { return_value: Expression },
    InitializerStatement { variable_type: Type, variable: String, default: Option<Expression> },
    AssignStatement { left: String, operator: AssignOperator, right: Expression },
    Expression { expression: Expression },
}

#[derive(Debug)]
pub enum ExpressionType {
    BinaryExpression { left: Box<Expression>, operator: BinaryOperator, right: Box<Expression> },
    FunctionCallExpression { function_name: String, arguments: Vec<Expression> },
    Number { value: u64 },
    Identifier { value: String },
}

#[derive(Clone, Debug)]
pub enum ParameterType {
    Private { variable_type: Type, variable: String },
    Public { variable_type: Type, variable: String },
}

/// The global statements of a program.
pub open spec fn globals_of(p: Program) -> Seq<GlobalStatement> {
    match p {
        Program::GlobalStatements(v) => v@,
    }
}

/// The name of a contract statement.
pub open spec fn contract_name_of(gs: GlobalStatement) -> Seq<char> {
    match gs.node {
        GlobalStatementType::ContractStatement { contract_name, members: _ } => contract_name@,
    }
}

/// The members of a contract statement.
pub open spec fn members_of(gs: GlobalStatement) -> Seq<ContractStatement> {
    match gs.node {
        GlobalStatementType::ContractStatement { contract_name: _, members } => members@,
    }
}

/// The parameters of a function member.
pub open spec fn parameters_of(m: ContractStatement) -> Seq<Parameter> {
    match m.node {
        ContractStatementType::FunctionStatement {
            function_name: _,
            parameters,
            return_type: _,
            statements: _,
        } => parameters@,
    }
}

/// The name of a function member.
pub open spec fn function_name_of(m: ContractStatement) -> Seq<char> {
    match m.node {
        ContractStatementType::FunctionStatement {
            function_name,
            parameters: _,
            return_type: _,
            statements: _,
        } => function_name@,
    }
}

impl ExpressionType {
    /// The identifier's name, if this expression is an identifier.
    pub fn identifier_name(&self) -> (r: Option<String>)
        ensures
            match self {
                ExpressionType::Identifier { value } => r is Some && r->0@ == value@,
                _ => r is None,
            },
    {
        if let ExpressionType::Identifier { value } = self {
            let name = clone_string(value);
            Some(name)
        } else {
            None
        }
    }
}

/// A copy of a string, equal to the original.
pub fn clone_string(s: &String) -> (r: String)
    ensures
        r == *s,
        r@ == s@,
{
    s.clone()
}

#[derive(Clone, Copy, Debug, PartialEq, Eq, Structural)]
pub enum BinaryOperator {
    Add,
    Sub,
    Mul,
    Div,
    Mod,
    And,
    Or,
    Lt,
    Le,
    Gt,
    Ge,
    Eq,
    NotEq,
    BitAnd,
    BitOr,
    BitXor,
    LShift,
    RShift,
}

#[derive(Clone, Copy, Debug, PartialEq, Eq, Structural)]
pub enum AssignOperator {
    Assign,
}

#[derive(Clone, Copy, Debug, PartialEq, Eq, Structural)]
pub enum Type {
    // Static size
    UInt256,
}

} // verus!
