//! Compilation of a parsed program into contracts of deferred computations.

use crate::caller::{Contract, Func};
use crate::error::{ZokError, ZokErrorType};
use crate::location::Location;
use crate::operation::{lazy_add, lazy_constant, lazy_div, lazy_mul, lazy_sub, LazyFn, LazyOp};
use crate::parser::ast;
use crate::parser::ast::{
    clone_string, contract_name_of, function_name_of, globals_of, members_of, BinaryOperator,
    ContractStatementType, ExpressionType, GlobalStatementType, ParameterType, StatementType,
};
use crate::variable::Variable;
use vstd::prelude::*;

verus! {

fn err_syntax() -> (r: ZokError) {
    ZokError { error: ZokErrorType::Unreachable, location: Location::new(0, 0) }
}

/// The compile context: named variables in scope and a value stack.
struct Context {
    variables: Vec<(String, Variable)>,
    stack: Vec<Variable>,
}

impl Context {
    fn new() -> (r: Context) {
        Context { variables: Vec::new(), stack: Vec::new() }
    }

    /// A nested scope seeded with copies of the visible variables.
    fn sub_context(&self) -> (r: Context)
        decreases self.variables@.len(),
    {
        let mut variables: Vec<(String, Variable)> = Vec::new();
        let mut i: usize = 0;
        while i < self.variables.len()
            invariant
                i <= self.variables@.len(),
            decreases self.variables@.len() - i,
        {
            let entry = &self.variables[i];
            variables.push((clone_string(&entry.0), entry.1.capture()));
            i = i + 1;
        }
        Context { variables, stack: Vec::new() }
    }

    fn push(self, v: Variable) -> (r: Context) {
        let mut zelf = self;
        zelf.stack.push(v);
        zelf
    }

    /// Push a copy of the named variable; unknown names are an error.
    fn load(self, k: String) -> (r: Result<Context, ZokError>) {
        let mut zelf = self;
        let mut found: Option<Variable> = None;
        let mut i: usize = 0;
        while i < zelf.variables.len()
            invariant
                i <= zelf.variables@.len(),
            decreases zelf.variables@.len() - i,
        {
            if zelf.variables[i].0 == k {
                found = Some(zelf.variables[i].1.capture());
            }
            i = i + 1;
        }
        match found {
            Some(v) => {
                zelf.stack.push(v);
                Ok(zelf)
            },
            None => Err(err_syntax()),
        }
    }

    /// Bind the top of the stack to a name and keep a copy on the stack.
    fn store(self, k: String) -> (r: Result<Context, ZokError>) {
        let mut zelf = self;
        let v = match zelf.stack.pop() {
            Some(v) => v,
            None => {
                return Err(err_syntax());
            },
        };
        zelf.stack.push(v.capture());
        zelf.variables.push((k, v));
        Ok(zelf)
    }

    /// Replace the two top stack values by one binary combination. The first
    /// value popped — the most recently compiled operand — becomes the left
    /// subtree of the combined node, as inherited from the evaluation-stack
    /// order.
    fn bin_op(self, op: &BinaryOperator) -> (r: Result<Context, ZokError>)
        ensures
            (r is Ok) == (self.stack@.len() >= 2 && (op is Add || op is Sub || op is Mul
                || op is Div)),
            r matches Ok(c) ==> {
                &&& c.variables@ == self.variables@
                &&& c.stack@.len() == self.stack@.len() - 1
                &&& c.stack@.drop_last() == self.stack@.drop_last().drop_last()
                &&& ({
                    let a = self.stack@.last().lazy.func;
                    let b = self.stack@[self.stack@.len() - 2].lazy.func;
                    match *op {
                        BinaryOperator::Add => c.stack@.last().lazy.func matches LazyFn::Add(
                            x,
                            y,
                        ) && *x == a && *y == b,
                        BinaryOperator::Sub => c.stack@.last().lazy.func matches LazyFn::Sub(
                            x,
                            y,
                        ) && *x == a && *y == b,
                        BinaryOperator::Mul => c.stack@.last().lazy.func matches LazyFn::Mul(
                            x,
                            y,
                        ) && *x == a && *y == b,
                        BinaryOperator::Div => c.stack@.last().lazy.func matches LazyFn::Div(
                            x,
                            y,
                        ) && *x == a && *y == b,
                        _ => false,
                    }
                })
            },
    {
        let mut zelf = self;
        let ghost stack0 = zelf.stack@;
        let a = match zelf.stack.pop() {
            Some(v) => v,
            None => {
                return Err(err_syntax());
            },
        };
        let b = match zelf.stack.pop() {
            Some(v) => v,
            None => {
                return Err(err_syntax());
            },
        };
        proof {
            assert(stack0.subrange(0, stack0.len() - 1).subrange(0, stack0.len() - 2)
                =~= stack0.drop_last().drop_last());
        }
        let combined: LazyOp = match op {
            BinaryOperator::Add => lazy_add(a.inject(), b.inject()),
            BinaryOperator::Sub => lazy_sub(a.inject(), b.inject()),
            BinaryOperator::Mul => lazy_mul(a.inject(), b.inject()),
            BinaryOperator::Div => lazy_div(a.inject(), b.inject()),
            _ => {
                return Err(err_syntax());
            },
        };
        zelf.stack.push(Variable::temp(combined));
        Ok(zelf)
    }
}

pub struct ASTTraverser {}

impl ASTTraverser {
    /// Compile every contract of a program: one compiled contract per
    /// global statement, in source order, keeping names; one compiled
    /// function per member, in source order, keeping names. Nothing is
    /// evaluated during compilation.
    pub fn traverse(ast: ast::Program) -> (r: Result<Vec<Contract>, ZokError>)
        ensures
            r matches Ok(cs) ==> {
                &&& cs@.len() == globals_of(ast).len()
                &&& forall|i: int|
                    0 <= i < cs@.len() ==> {
                        &&& (#[trigger] cs@[i]).name@ == contract_name_of(globals_of(ast)[i])
                        &&& cs@[i].funcs@.len() == members_of(globals_of(ast)[i]).len()
                        &&& forall|j: int|
                            0 <= j < cs@[i].funcs@.len() ==> (#[trigger] cs@[i].funcs@[j]).name@
                                == function_name_of(members_of(globals_of(ast)[i])[j])
                    }
            },
    {
        match ast {
            ast::Program::GlobalStatements(v) => {
                let mut contracts: Vec<Contract> = Vec::new();
                let mut i: usize = 0;
                #[verifier::loop_isolation(false)]
                while i < v.len()
                    invariant
                        i <= v@.len(),
                        contracts@.len() == i,
                        forall|k: int|
                            0 <= k < i ==> {
                                &&& (#[trigger] contracts@[k]).name@ == contract_name_of(v@[k])
                                &&& contracts@[k].funcs@.len() == members_of(v@[k]).len()
                                &&& forall|j: int|
                                    0 <= j < contracts@[k].funcs@.len() ==> (
                                    #[trigger] contracts@[k].funcs@[j]).name@ == function_name_of(
                                        members_of(v@[k])[j],
                                    )
                            },
                    decreases v@.len() - i,
                {
                    let c = match Self::traverse_global_statement(&v[i]) {
                        Ok(c) => c,
                        Err(e) => {
                            return Err(e);
                        },
                    };
                    contracts.push(c);
                    i = i + 1;
                }
                Ok(contracts)
            },
        }
    }

    fn traverse_global_statement(stmt: &ast::GlobalStatement) -> (r: Result<Contract, ZokError>)
        ensures
            r matches Ok(c) ==> {
                &&& c.name@ == contract_name_of(*stmt)
                &&& c.funcs@.len() == members_of(*stmt).len()
                &&& forall|j: int|
                    0 <= j < c.funcs@.len() ==> (#[trigger] c.funcs@[j]).name@
                        == function_name_of(members_of(*stmt)[j])
            },
    {
        match &stmt.node {
            GlobalStatementType::ContractStatement { contract_name, members } => {
                let mut funcs: Vec<Func> = Vec::new();
                let mut i: usize = 0;
                #[verifier::loop_isolation(false)]
                while i < members.len()
                    invariant
                        i <= members@.len(),
                        funcs@.len() == i,
                        forall|j: int|
                            0 <= j < i ==> (#[trigger] funcs@[j]).name@ == function_name_of(
                                members@[j],
                            ),
                    decreases members@.len() - i,
                {
                    let f = match Self::traverse_member(&members[i]) {
                        Ok(f) => f,
                        Err(e) => {
                            return Err(e);
                        },
                    };
                    funcs.push(f);
                    i = i + 1;
                }
                Ok(Contract::new(clone_string(contract_name), funcs))
            },
        }
    }

    fn traverse_member(stmt: &ast::ContractStatement) -> (r: Result<Func, ZokError>)
        ensures
            r matches Ok(f) ==> f.name@ == function_name_of(*stmt),
    {
        match &stmt.node {
            ContractStatementType::FunctionStatement {
                function_name,
                parameters,
                return_type: _return_type,
                statements,
            } => {
                let mut ctx = Context::new();
                let mut i: usize = 0;
                while i < parameters.len()
                    invariant
                        i <= parameters@.len(),
                    decreases parameters@.len() - i,
                {
                    ctx = match Self::traverse_parameter(ctx, &parameters[i]) {
                        Ok(c) => c,
                        Err(e) => {
                            return Err(e);
                        },
                    };
                    i = i + 1;
                }
                let mut i: usize = 0;
                while i < statements.len()
                    invariant
                        i <= statements@.len(),
                    decreases statements@.len() - i,
                {
                    ctx = match Self::traverse_statement(ctx, &statements[i]) {
                        Ok(c) => c,
                        Err(e) => {
                            return Err(e);
                        },
                    };
                    i = i + 1;
                }
                let ret = match ctx.stack.pop() {
                    Some(v) => v,
                    None => {
                        return Err(err_syntax());
                    },
                };
                Ok(Func::new(clone_string(function_name), ret.inject()))
            },
        }
    }

    fn traverse_parameter(ctx: Context, param: &ast::Parameter) -> (r: Result<Context, ZokError>) {
        match &param.node {
            ParameterType::Private { variable_type: _variable_type, variable } => {
                ctx.push(Variable::private(clone_string(variable))).store(clone_string(variable))
            },
            ParameterType::Public { variable_type: _variable_type, variable } => {
                ctx.push(Variable::public(clone_string(variable))).store(clone_string(variable))
            },
        }
    }

    fn traverse_statement(ctx: Context, stmt: &ast::Statement) -> (r: Result<Context, ZokError>)
        decreases stmt,
    {
        match &stmt.node {
            StatementType::IfStatement {
                condition,
                if_statements: _if_statements,
                else_statements: _else_statements,
            } => {
                // Conditional compilation to deferred trees is not realized;
                // only the condition is traversed, as inherited.
                Self::traverse_expression(ctx, condition)
            },
            StatementType::ForEachStatement { iterator: _iterator, iterable, statements: _s } => {
                // Iteration is not realized; only the iterable is traversed.
                Self::traverse_expression(ctx, iterable)
            },
            StatementType::ReturnStatement { return_value } => {
                Self::traverse_expression(ctx, return_value)
            },
            StatementType::InitializerStatement {
                variable_type: _variable_type,
                variable,
                default,
            } => {
                let ctx = match ctx.push(Variable::public(clone_string(variable))).store(
                    clone_string(variable),
                ) {
                    Ok(c) => c,
                    Err(e) => {
                        return Err(e);
                    },
                };
                match default {
                    Some(expr) => Self::traverse_expression(ctx, expr),
                    None => Ok(ctx),
                }
            },
            StatementType::AssignStatement { left, operator: _operator, right } => {
                let ctx = match Self::traverse_expression(ctx, right) {
                    Ok(c) => c,
                    Err(e) => {
                        return Err(e);
                    },
                };
                ctx.store(clone_string(left))
            },
            StatementType::Expression { expression } => Self::traverse_expression(ctx, expression),
        }
    }

    fn traverse_expression(ctx: Context, expr: &ast::Expression) -> (r: Result<Context, ZokError>)
        decreases expr,
    {
        match &expr.node {
            ExpressionType::BinaryExpression { left, operator, right } => {
                let ctx = match Self::traverse_expression(ctx, left) {
                    Ok(c) => c,
                    Err(e) => {
                        return Err(e);
                    },
                };
                let ctx = match Self::traverse_expression(ctx, right) {
                    Ok(c) => c,
                    Err(e) => {
                        return Err(e);
                    },
                };
                Self::traverse_operator(ctx, operator)
            },
            ExpressionType::FunctionCallExpression { function_name: _function_name, arguments } => {
                let mut ctx = ctx;
                let mut i: usize = 0;
                #[verifier::loop_isolation(false)]
                while i < arguments.len()
                    invariant
                        i <= arguments@.len(),
                    decreases arguments@.len() - i,
                {
                    proof {
                        assert(decreases_to!(*expr => expr.node));
                        assert(decreases_to!(expr.node => expr.node->arguments));
                        assert(*arguments == expr.node->arguments);
                        assert(decreases_to!(*arguments => arguments@));
                        assert(decreases_to!(arguments@ => arguments@[i as int]));
                    }
                    ctx = match Self::traverse_expression(ctx, &arguments[i]) {
                        Ok(c) => c,
                        Err(e) => {
                            return Err(e);
                        },
                    };
                    i = i + 1;
                }
                Ok(ctx)
            },
            ExpressionType::Number { value } => {
                Ok(ctx.push(Variable::temp(lazy_constant(*value))))
            },
            ExpressionType::Identifier { value } => {
                Ok(ctx.push(Variable::public(clone_string(value))))
            },
        }
    }

    fn traverse_operator(ctx: Context, op: &BinaryOperator) -> (r: Result<Context, ZokError>) {
        match op {
            BinaryOperator::Add => ctx.bin_op(&BinaryOperator::Add),
            BinaryOperator::Sub => ctx.bin_op(&BinaryOperator::Sub),
            BinaryOperator::Mul => ctx.bin_op(&BinaryOperator::Mul),
            BinaryOperator::Div => ctx.bin_op(&BinaryOperator::Div),
            _ => Ok(ctx),
        }
    }
}

} // verus!
