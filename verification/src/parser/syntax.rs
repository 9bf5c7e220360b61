//! The recursive-descent parser of the contract source language: contracts
//! hold functions, functions hold statements, and expressions follow the
//! usual precedence ladder (logical or down to multiplication).

use crate::error::{ZokError, ZokErrorType};
use crate::location::Location;
use crate::parser::ast::{
    clone_string, AssignOperator, BinaryOperator, ContractStatement, ContractStatementType,
    Expression, ExpressionType, GlobalStatement, GlobalStatementType, Located, Parameter,
    ParameterType, Program, Statement, StatementType, Type,
};
use crate::parser::lexer::Spanned;
use crate::parser::token::Tok;
use vstd::prelude::*;

verus! {

pub(crate) struct Parser {
    pub(crate) toks: Vec<Spanned>,
    pub(crate) pos: usize,
}

impl Parser {
    pub(crate) open spec fn wf(self) -> bool {
        self.pos <= self.toks@.len()
    }

    pub(crate) fn new(toks: Vec<Spanned>) -> (r: Parser)
        ensures
            r.wf(),
            r.toks@ == toks@,
    {
        Parser { toks, pos: 0 }
    }

    /// The position of the current token, or of the end of the input.
    fn here(&self) -> (r: Location)
        requires
            self.wf(),
    {
        if self.pos < self.toks.len() {
            self.toks[self.pos].0
        } else {
            Location::new(0, 0)
        }
    }

    fn err_eof(&self) -> (r: ZokError)
        requires
            self.wf(),
    {
        ZokError { error: ZokErrorType::EOF, location: self.here() }
    }

    fn err_invalid(&self) -> (r: ZokError)
        requires
            self.wf(),
    {
        ZokError { error: ZokErrorType::InvalidToken, location: self.here() }
    }

    /// Consume one expected keyword or mark; any other token is an error.
    fn expect(&mut self, t: Tok) -> (r: Result<(), ZokError>)
        requires
            old(self).wf(),
        ensures
            final(self).wf(),
            final(self).toks == old(self).toks,
            final(self).pos >= old(self).pos,
            r is Ok ==> final(self).pos == old(self).pos + 1,
    {
        if self.pos >= self.toks.len() {
            return Err(self.err_eof());
        }
        let found = token_matches(&self.toks[self.pos].1, &t);
        if found {
            self.pos = self.pos + 1;
            Ok(())
        } else {
            Err(self.err_invalid())
        }
    }

    /// Whether the current token equals `t` (for keywords and marks).
    fn peek_is(&self, t: Tok) -> (r: bool)
        requires
            self.wf(),
        ensures
            r ==> self.pos < self.toks@.len(),
    {
        if self.pos >= self.toks.len() {
            return false;
        }
        token_matches(&self.toks[self.pos].1, &t)
    }

    /// A whole program: a list of contracts covering all tokens.
    pub(crate) fn parse_program(&mut self) -> (r: Result<Program, ZokError>)
        requires
            old(self).wf(),
        ensures
            final(self).wf(),
    {
        let mut contracts: Vec<GlobalStatement> = Vec::new();
        loop
            invariant
                self.wf(),
            decreases self.toks@.len() - self.pos,
        {
            if self.pos >= self.toks.len() {
                break ;
            }
            let gs = match self.parse_contract() {
                Ok(g) => g,
                Err(e) => {
                    return Err(e);
                },
            };
            contracts.push(gs);
        }
        Ok(Program::GlobalStatements(contracts))
    }

    /// `contract Name { function* }`
    fn parse_contract(&mut self) -> (r: Result<GlobalStatement, ZokError>)
        requires
            old(self).wf(),
        ensures
            final(self).wf(),
            final(self).toks == old(self).toks,
            final(self).pos >= old(self).pos,
            r is Ok ==> final(self).pos > old(self).pos,
        decreases old(self).toks@.len() - old(self).pos, 16int, 0int,
    {
        let location = self.here();
        match self.expect(Tok::Contract) {
            Ok(_) => {},
            Err(e) => {
                return Err(e);
            },
        }
        let contract_name = match self.parse_identifier() {
            Ok(n) => n,
            Err(e) => {
                return Err(e);
            },
        };
        match self.expect(Tok::LBrace) {
            Ok(_) => {},
            Err(e) => {
                return Err(e);
            },
        }
        let mut members: Vec<ContractStatement> = Vec::new();
        loop
            invariant
                self.wf(),
                self.toks == old(self).toks,
                self.pos > old(self).pos,
            decreases self.toks@.len() - self.pos,
        {
            if self.peek_is(Tok::RBrace) {
                break ;
            }
            let m = match self.parse_member() {
                Ok(m) => m,
                Err(e) => {
                    return Err(e);
                },
            };
            members.push(m);
        }
        match self.expect(Tok::RBrace) {
            Ok(_) => {},
            Err(e) => {
                return Err(e);
            },
        }
        Ok(
            Located {
                location,
                node: GlobalStatementType::ContractStatement { contract_name, members },
            },
        )
    }

    /// `function name(params) returns type { statements }`
    fn parse_member(&mut self) -> (r: Result<ContractStatement, ZokError>)
        requires
            old(self).wf(),
        ensures
            final(self).wf(),
            final(self).toks == old(self).toks,
            final(self).pos >= old(self).pos,
            r is Ok ==> final(self).pos > old(self).pos,
        decreases old(self).toks@.len() - old(self).pos, 15int, 0int,
    {
        let location = self.here();
        match self.expect(Tok::Function) {
            Ok(_) => {},
            Err(e) => {
                return Err(e);
            },
        }
        let function_name = match self.parse_identifier() {
            Ok(n) => n,
            Err(e) => {
                return Err(e);
            },
        };
        match self.expect(Tok::LPar) {
            Ok(_) => {},
            Err(e) => {
                return Err(e);
            },
        }
        let mut parameters: Vec<Parameter> = Vec::new();
        if !self.peek_is(Tok::RPar) {
            loop
                invariant
                    self.wf(),
                    self.toks == old(self).toks,
                    self.pos > old(self).pos,
                decreases self.toks@.len() - self.pos,
            {
                let p = match self.parse_parameter() {
                    Ok(p) => p,
                    Err(e) => {
                        return Err(e);
                    },
                };
                parameters.push(p);
                if self.peek_is(Tok::Comma) {
                    match self.expect(Tok::Comma) {
                        Ok(_) => {},
                        Err(e) => {
                            return Err(e);
                        },
                    }
                } else {
                    break ;
                }
            }
        }
        match self.expect(Tok::RPar) {
            Ok(_) => {},
            Err(e) => {
                return Err(e);
            },
        }
        match self.expect(Tok::Returns) {
            Ok(_) => {},
            Err(e) => {
                return Err(e);
            },
        }
        let return_type = match self.parse_type() {
            Ok(t) => t,
            Err(e) => {
                return Err(e);
            },
        };
        match self.expect(Tok::LBrace) {
            Ok(_) => {},
            Err(e) => {
                return Err(e);
            },
        }
        let statements = match self.parse_statement_list() {
            Ok(s) => s,
            Err(e) => {
                return Err(e);
            },
        };
        match self.expect(Tok::RBrace) {
            Ok(_) => {},
            Err(e) => {
                return Err(e);
            },
        }
        Ok(
            Located {
                location,
                node: ContractStatementType::FunctionStatement {
                    function_name,
                    parameters,
                    return_type,
                    statements,
                },
            },
        )
    }

    /// `private? type name`; a parameter without `private` is public.
    fn parse_parameter(&mut self) -> (r: Result<Parameter, ZokError>)
        requires
            old(self).wf(),
        ensures
            final(self).wf(),
            final(self).toks == old(self).toks,
            final(self).pos >= old(self).pos,
            r is Ok ==> final(self).pos > old(self).pos,
        decreases old(self).toks@.len() - old(self).pos, 14int, 0int,
    {
        let location = self.here();
        let mut private = false;
        if self.peek_is(Tok::Private) {
            match self.expect(Tok::Private) {
                Ok(_) => {},
                Err(e) => {
                    return Err(e);
                },
            }
            private = true;
        }
        let variable_type = match self.parse_type() {
            Ok(t) => t,
            Err(e) => {
                return Err(e);
            },
        };
        let variable = match self.parse_identifier() {
            Ok(n) => n,
            Err(e) => {
                return Err(e);
            },
        };
        if private {
            Ok(Located { location, node: ParameterType::Private { variable_type, variable } })
        } else {
            Ok(Located { location, node: ParameterType::Public { variable_type, variable } })
        }
    }

    fn parse_type(&mut self) -> (r: Result<Type, ZokError>)
        requires
            old(self).wf(),
        ensures
            final(self).wf(),
            final(self).toks == old(self).toks,
            final(self).pos >= old(self).pos,
            r is Ok ==> final(self).pos > old(self).pos,
    {
        match self.expect(Tok::UInt256) {
            Ok(_) => Ok(Type::UInt256),
            Err(e) => Err(e),
        }
    }

    fn parse_identifier(&mut self) -> (r: Result<String, ZokError>)
        requires
            old(self).wf(),
        ensures
            final(self).wf(),
            final(self).toks == old(self).toks,
            final(self).pos >= old(self).pos,
            r is Ok ==> final(self).pos == old(self).pos + 1,
    {
        if self.pos >= self.toks.len() {
            return Err(self.err_eof());
        }
        let name = match &self.toks[self.pos].1 {
            Tok::Identifier { name } => clone_string(name),
            _ => {
                return Err(self.err_invalid());
            },
        };
        self.pos = self.pos + 1;
        Ok(name)
    }

    /// Statements up to the closing brace of the enclosing block.
    fn parse_statement_list(&mut self) -> (r: Result<Vec<Statement>, ZokError>)
        requires
            old(self).wf(),
        ensures
            final(self).wf(),
            final(self).toks == old(self).toks,
            final(self).pos >= old(self).pos,
        decreases old(self).toks@.len() - old(self).pos, 13int, 0int,
    {
        let mut statements: Vec<Statement> = Vec::new();
        loop
            invariant
                self.wf(),
                self.toks == old(self).toks,
                self.pos >= old(self).pos,
            decreases self.toks@.len() - self.pos,
        {
            if self.peek_is(Tok::RBrace) {
                break ;
            }
            if self.pos >= self.toks.len() {
                break ;
            }
            let s = match self.parse_statement() {
                Ok(s) => s,
                Err(e) => {
                    return Err(e);
                },
            };
            statements.push(s);
        }
        Ok(statements)
    }

    /// One statement: a return, a conditional, an initializer, an assignment
    /// or a bare expression. Iteration statements are not part of the
    /// accepted grammar.
    fn parse_statement(&mut self) -> (r: Result<Statement, ZokError>)
        requires
            old(self).wf(),
        ensures
            final(self).wf(),
            final(self).toks == old(self).toks,
            final(self).pos >= old(self).pos,
            r is Ok ==> final(self).pos > old(self).pos,
        decreases old(self).toks@.len() - old(self).pos, 12int, 0int,
    {
        let location = self.here();
        if self.peek_is(Tok::Return) {
            match self.expect(Tok::Return) {
                Ok(_) => {},
                Err(e) => {
                    return Err(e);
                },
            }
            let return_value = match self.parse_expression() {
                Ok(v) => v,
                Err(e) => {
                    return Err(e);
                },
            };
            match self.expect(Tok::Semi) {
                Ok(_) => {},
                Err(e) => {
                    return Err(e);
                },
            }
            return Ok(Located { location, node: StatementType::ReturnStatement { return_value } });
        }
        if self.peek_is(Tok::If) {
            return self.parse_if_statement();
        }
        if self.peek_is(Tok::For) {
            return Err(
                ZokError {
                    error: ZokErrorType::SyntaxError("iteration is not supported".to_owned()),
                    location,
                },
            );
        }
        if self.peek_is(Tok::UInt256) {
            let variable_type = match self.parse_type() {
                Ok(t) => t,
                Err(e) => {
                    return Err(e);
                },
            };
            let variable = match self.parse_identifier() {
                Ok(n) => n,
                Err(e) => {
                    return Err(e);
                },
            };
            let mut default: Option<Expression> = None;
            if self.peek_is(Tok::Assign) {
                match self.expect(Tok::Assign) {
                    Ok(_) => {},
                    Err(e) => {
                        return Err(e);
                    },
                }
                let d = match self.parse_expression() {
                    Ok(d) => d,
                    Err(e) => {
                        return Err(e);
                    },
                };
                default = Some(d);
            }
            match self.expect(Tok::Semi) {
                Ok(_) => {},
                Err(e) => {
                    return Err(e);
                },
            }
            return Ok(
                Located {
                    location,
                    node: StatementType::InitializerStatement {
                        variable_type,
                        variable,
                        default,
                    },
                },
            );
        }
        // `name = expr;` is an assignment; any other shape is an expression
        // statement.
        if self.toks.len() - self.pos > 1 {
            let is_assign = match (&self.toks[self.pos].1, &self.toks[self.pos + 1].1) {
                (Tok::Identifier { name: _ }, Tok::Assign) => true,
                _ => false,
            };
            if is_assign {
                let left = match self.parse_identifier() {
                    Ok(n) => n,
                    Err(e) => {
                        return Err(e);
                    },
                };
                match self.expect(Tok::Assign) {
                    Ok(_) => {},
                    Err(e) => {
                        return Err(e);
                    },
                }
                let right = match self.parse_expression() {
                    Ok(v) => v,
                    Err(e) => {
                        return Err(e);
                    },
                };
                match self.expect(Tok::Semi) {
                    Ok(_) => {},
                    Err(e) => {
                        return Err(e);
                    },
                }
                return Ok(
                    Located {
                        location,
                        node: StatementType::AssignStatement {
                            left,
                            operator: AssignOperator::Assign,
                            right,
                        },
                    },
                );
            }
        }
        let expression = match self.parse_expression() {
            Ok(v) => v,
            Err(e) => {
                return Err(e);
            },
        };
        match self.expect(Tok::Semi) {
            Ok(_) => {},
            Err(e) => {
                return Err(e);
            },
        }
        Ok(Located { location, node: StatementType::Expression { expression } })
    }

    /// `if (cond) { then } else { otherwise }`; the else block is optional.
    fn parse_if_statement(&mut self) -> (r: Result<Statement, ZokError>)
        requires
            old(self).wf(),
            old(self).pos < old(self).toks@.len(),
        ensures
            final(self).wf(),
            final(self).toks == old(self).toks,
            final(self).pos >= old(self).pos,
            r is Ok ==> final(self).pos > old(self).pos,
        decreases old(self).toks@.len() - old(self).pos, 11int, 0int,
    {
        let location = self.here();
        match self.expect(Tok::If) {
            Ok(_) => {},
            Err(e) => {
                return Err(e);
            },
        }
        match self.expect(Tok::LPar) {
            Ok(_) => {},
            Err(e) => {
                return Err(e);
            },
        }
        let condition = match self.parse_expression() {
            Ok(c) => c,
            Err(e) => {
                return Err(e);
            },
        };
        match self.expect(Tok::RPar) {
            Ok(_) => {},
            Err(e) => {
                return Err(e);
            },
        }
        match self.expect(Tok::LBrace) {
            Ok(_) => {},
            Err(e) => {
                return Err(e);
            },
        }
        let if_statements = match self.parse_statement_list() {
            Ok(s) => s,
            Err(e) => {
                return Err(e);
            },
        };
        match self.expect(Tok::RBrace) {
            Ok(_) => {},
            Err(e) => {
                return Err(e);
            },
        }
        let mut else_statements: Vec<Statement> = Vec::new();
        if self.peek_is(Tok::Else) {
            match self.expect(Tok::Else) {
                Ok(_) => {},
                Err(e) => {
                    return Err(e);
                },
            }
            match self.expect(Tok::LBrace) {
                Ok(_) => {},
                Err(e) => {
                    return Err(e);
                },
            }
            else_statements = match self.parse_statement_list() {
                Ok(s) => s,
                Err(e) => {
                    return Err(e);
                },
            };
            match self.expect(Tok::RBrace) {
                Ok(_) => {},
                Err(e) => {
                    return Err(e);
                },
            }
        }
        Ok(
            Located {
                location,
                node: StatementType::IfStatement { condition, if_statements, else_statements },
            },
        )
    }

    /// The precedence ladder, from loosest to tightest.
    fn parse_expression(&mut self) -> (r: Result<Expression, ZokError>)
        requires
            old(self).wf(),
        ensures
            final(self).wf(),
            final(self).toks == old(self).toks,
            final(self).pos >= old(self).pos,
            r is Ok ==> final(self).pos > old(self).pos,
        decreases old(self).toks@.len() - old(self).pos, 10int, 0int,
    {
        self.parse_binary_level(10)
    }

    /// One level of left-associative binary operators; level 0 is a primary
    /// expression.
    fn parse_binary_level(&mut self, level: u8) -> (r: Result<Expression, ZokError>)
        requires
            old(self).wf(),
            level <= 10,
        ensures
            final(self).wf(),
            final(self).toks == old(self).toks,
            final(self).pos >= old(self).pos,
            r is Ok ==> final(self).pos > old(self).pos,
        decreases old(self).toks@.len() - old(self).pos, 9int, level,
    {
        if level == 0 {
            return self.parse_primary();
        }
        let location = self.here();
        let mut left = match self.parse_binary_level(level - 1) {
            Ok(x) => x,
            Err(e) => {
                return Err(e);
            },
        };
        loop
            invariant
                self.wf(),
                self.toks == old(self).toks,
                self.pos > old(self).pos,
                1 <= level <= 10,
            decreases self.toks@.len() - self.pos,
        {
            let op = if self.pos < self.toks.len() {
                level_operator(&self.toks[self.pos].1, level)
            } else {
                None
            };
            let operator = match op {
                Some(o) => o,
                None => {
                    break ;
                },
            };
            self.pos = self.pos + 1;
            let right = match self.parse_binary_level(level - 1) {
                Ok(x) => x,
                Err(e) => {
                    return Err(e);
                },
            };
            left = Located {
                location,
                node: ExpressionType::BinaryExpression {
                    left: Box::new(left),
                    operator,
                    right: Box::new(right),
                },
            };
        }
        Ok(left)
    }

    /// A number, an identifier, a function call or a parenthesized
    /// expression.
    fn parse_primary(&mut self) -> (r: Result<Expression, ZokError>)
        requires
            old(self).wf(),
        ensures
            final(self).wf(),
            final(self).toks == old(self).toks,
            final(self).pos >= old(self).pos,
            r is Ok ==> final(self).pos > old(self).pos,
        decreases old(self).toks@.len() - old(self).pos, 8int, 0int,
    {
        let location = self.here();
        if self.pos >= self.toks.len() {
            return Err(self.err_eof());
        }
        let number = match &self.toks[self.pos].1 {
            Tok::Num { number } => Some(*number),
            _ => None,
        };
        if let Some(value) = number {
            self.pos = self.pos + 1;
            return Ok(Located { location, node: ExpressionType::Number { value } });
        }
        if self.peek_is(Tok::LPar) {
            match self.expect(Tok::LPar) {
                Ok(_) => {},
                Err(e) => {
                    return Err(e);
                },
            }
            let inner = match self.parse_expression() {
                Ok(x) => x,
                Err(e) => {
                    return Err(e);
                },
            };
            match self.expect(Tok::RPar) {
                Ok(_) => {},
                Err(e) => {
                    return Err(e);
                },
            }
            return Ok(inner);
        }
        let value = match self.parse_identifier() {
            Ok(n) => n,
            Err(e) => {
                return Err(e);
            },
        };
        if self.peek_is(Tok::LPar) {
            match self.expect(Tok::LPar) {
                Ok(_) => {},
                Err(e) => {
                    return Err(e);
                },
            }
            let mut arguments: Vec<Expression> = Vec::new();
            if !self.peek_is(Tok::RPar) {
                loop
                    invariant
                        self.wf(),
                        self.toks == old(self).toks,
                        self.pos > old(self).pos,
                    decreases self.toks@.len() - self.pos,
                {
                    let a = match self.parse_expression() {
                        Ok(a) => a,
                        Err(e) => {
                            return Err(e);
                        },
                    };
                    arguments.push(a);
                    if self.peek_is(Tok::Comma) {
                        match self.expect(Tok::Comma) {
                            Ok(_) => {},
                            Err(e) => {
                                return Err(e);
                            },
                        }
                    } else {
                        break ;
                    }
                }
            }
            match self.expect(Tok::RPar) {
                Ok(_) => {},
                Err(e) => {
                    return Err(e);
                },
            }
            return Ok(
                Located {
                    location,
                    node: ExpressionType::FunctionCallExpression {
                        function_name: value,
                        arguments,
                    },
                },
            );
        }
        Ok(Located { location, node: ExpressionType::Identifier { value } })
    }
}

/// Keyword and mark tokens compare by shape; payload tokens never match here.
fn token_matches(a: &Tok, b: &Tok) -> (r: bool) {
    match (a, b) {
        (Tok::Plus, Tok::Plus) => true,
        (Tok::Minus, Tok::Minus) => true,
        (Tok::Mul, Tok::Mul) => true,
        (Tok::Div, Tok::Div) => true,
        (Tok::Mod, Tok::Mod) => true,
        (Tok::LShift, Tok::LShift) => true,
        (Tok::RShift, Tok::RShift) => true,
        (Tok::Assign, Tok::Assign) => true,
        (Tok::Lt, Tok::Lt) => true,
        (Tok::Le, Tok::Le) => true,
        (Tok::Gt, Tok::Gt) => true,
        (Tok::Ge, Tok::Ge) => true,
        (Tok::Eq, Tok::Eq) => true,
        (Tok::NotEq, Tok::NotEq) => true,
        (Tok::And, Tok::And) => true,
        (Tok::Or, Tok::Or) => true,
        (Tok::BitAnd, Tok::BitAnd) => true,
        (Tok::BitXor, Tok::BitXor) => true,
        (Tok::BitOr, Tok::BitOr) => true,
        (Tok::UInt256, Tok::UInt256) => true,
        (Tok::Function, Tok::Function) => true,
        (Tok::Contract, Tok::Contract) => true,
        (Tok::If, Tok::If) => true,
        (Tok::Else, Tok::Else) => true,
        (Tok::For, Tok::For) => true,
        (Tok::In, Tok::In) => true,
        (Tok::Returns, Tok::Returns) => true,
        (Tok::Return, Tok::Return) => true,
        (Tok::Private, Tok::Private) => true,
        (Tok::LPar, Tok::LPar) => true,
        (Tok::RPar, Tok::RPar) => true,
        (Tok::LBrace, Tok::LBrace) => true,
        (Tok::RBrace, Tok::RBrace) => true,
        (Tok::Semi, Tok::Semi) => true,
        (Tok::Comma, Tok::Comma) => true,
        _ => false,
    }
}

/// The operator a token denotes at a precedence level, loosest (10) to
/// tightest (1).
fn level_operator(t: &Tok, level: u8) -> (r: Option<BinaryOperator>) {
    match level {
        10 => match t {
            Tok::Or => Some(BinaryOperator::Or),
            _ => None,
        },
        9 => match t {
            Tok::And => Some(BinaryOperator::And),
            _ => None,
        },
        8 => match t {
            Tok::Eq => Some(BinaryOperator::Eq),
            Tok::NotEq => Some(BinaryOperator::NotEq),
            _ => None,
        },
        7 => match t {
            Tok::Lt => Some(BinaryOperator::Lt),
            Tok::Le => Some(BinaryOperator::Le),
            Tok::Gt => Some(BinaryOperator::Gt),
            Tok::Ge => Some(BinaryOperator::Ge),
            _ => None,
        },
        6 => match t {
            Tok::BitOr => Some(BinaryOperator::BitOr),
            _ => None,
        },
        5 => match t {
            Tok::BitXor => Some(BinaryOperator::BitXor),
            _ => None,
        },
        4 => match t {
            Tok::BitAnd => Some(BinaryOperator::BitAnd),
            _ => None,
        },
        3 => match t {
            Tok::LShift => Some(BinaryOperator::LShift),
            Tok::RShift => Some(BinaryOperator::RShift),
            _ => None,
        },
        2 => match t {
            Tok::Plus => Some(BinaryOperator::Add),
            Tok::Minus => Some(BinaryOperator::Sub),
            _ => None,
        },
        1 => match t {
            Tok::Mul => Some(BinaryOperator::Mul),
            Tok::Div => Some(BinaryOperator::Div),
            Tok::Mod => Some(BinaryOperator::Mod),
            _ => None,
        },
        _ => None,
    }
}

} // verus!
