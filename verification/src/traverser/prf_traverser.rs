//! The prover-side circuit evaluator: walks a function body against
//! three-share wires, consuming randomness and filling views.

use crate::error::{ZokError, ZokErrorType};
use crate::location::Location;
use crate::parser::ast;
use crate::parser::ast::{
    clone_string, contract_name_of, function_name_of, globals_of, members_of, parameters_of,
    BinaryOperator, ContractStatementType, ExpressionType, GlobalStatementType, ParameterType,
    StatementType,
};
use crate::utils::{
    append_str, append_string, clone_u32_vec, dec_of, dec_string_u64, hex_of, hex_string,
};
use crate::zkboo::ikos::{ctxs_wf, IKosContext, IKosVariable4P, IKosView};
use crate::zkboo::zkboo::{ProvingProof, ZkBoo};
use vstd::prelude::*;

verus! {

type ZokResult<T> = Result<T, ZokError>;

#[derive(Clone, Copy, Debug, PartialEq, Eq, Structural)]
pub enum VarType {
    Private,
    Public,
    Instance,
}

#[derive(Clone, Copy, Debug, PartialEq, Eq, Structural)]
pub struct Var {
    pub id: usize,
    pub typ: VarType,
}

/// The binding a name resolves to: the latest entry wins, as the evaluator's
/// backwards-compatible scan does.
pub open spec fn lookup_var(vars: Seq<(String, Var)>, name: Seq<char>) -> Option<Var>
    decreases vars.len(),
{
    if vars.len() == 0 {
        Option::None
    } else if vars.last().0@ == name {
        Option::Some(vars.last().1)
    } else {
        lookup_var(vars.drop_last(), name)
    }
}

proof fn lemma_lookup_push(vars: Seq<(String, Var)>, p: (String, Var), name: Seq<char>)
    ensures
        lookup_var(vars.push(p), name) == (if p.0@ == name {
            Option::Some(p.1)
        } else {
            lookup_var(vars, name)
        }),
{
    assert(vars.push(p).last() == p);
    assert(vars.push(p).drop_last() =~= vars);
}

/// Whether an expression evaluates without an evaluation error, given the
/// bindings and the number of live input, public and instance wires. The
/// gates themselves are total on the prover side, so only identifier
/// resolution can fail.
pub open spec fn expr_evals(
    e: ast::Expression,
    vars: Seq<(String, Var)>,
    n_in: int,
    n_pub: int,
    n_inst: int,
) -> bool
    decreases e,
{
    match e.node {
        ExpressionType::BinaryExpression { left, operator: _, right } => expr_evals(
            *left,
            vars,
            n_in,
            n_pub,
            n_inst,
        ) && expr_evals(*right, vars, n_in, n_pub, n_inst),
        ExpressionType::FunctionCallExpression { function_name: _, arguments: _ } => true,
        ExpressionType::Number { value: _ } => true,
        ExpressionType::Identifier { value } => match lookup_var(vars, value@) {
            Option::None => false,
            Option::Some(var) => match var.typ {
                VarType::Private => (var.id as int) < n_in,
                VarType::Public => (var.id as int) < n_pub,
                VarType::Instance => (var.id as int) < n_inst,
            },
        },
    }
}

/// The evaluation state a statement list threads: whether everything so far
/// evaluated, the bindings, the live instance count, and how many output
/// wires stand.
#[verifier::ext_equal]
pub struct EvalShape {
    pub ok: bool,
    pub vars: Seq<(String, Var)>,
    pub n_inst: int,
    pub out_len: int,
}

/// The state after one statement: conditions and values bind and count
/// exactly as the evaluator executes them.
pub open spec fn stmt_shape(s: ast::Statement, st: EvalShape, n_in: int, n_pub: int) -> EvalShape
    decreases s, 0int, 0int,
{
    match s.node {
        StatementType::IfStatement { condition, if_statements, else_statements } => {
            let st1 = EvalShape {
                ok: st.ok && expr_evals(condition, st.vars, n_in, n_pub, st.n_inst),
                vars: st.vars,
                n_inst: st.n_inst,
                out_len: st.out_len,
            };
            let st2 = stmts_shape(if_statements@, 0, st1, n_in, n_pub);
            stmts_shape(else_statements@, 0, st2, n_in, n_pub)
        },
        StatementType::ForEachStatement { iterator: _, iterable: _, statements: _ } => st,
        StatementType::ReturnStatement { return_value } => EvalShape {
            ok: st.ok && expr_evals(return_value, st.vars, n_in, n_pub, st.n_inst),
            vars: st.vars,
            n_inst: st.n_inst,
            out_len: 1,
        },
        StatementType::InitializerStatement { variable_type: _, variable: _, default: _ } => st,
        StatementType::AssignStatement { left, operator: _, right } => EvalShape {
            ok: st.ok && expr_evals(right, st.vars, n_in, n_pub, st.n_inst),
            vars: st.vars.push(
                (left, Var { id: st.n_inst as usize, typ: VarType::Instance }),
            ),
            n_inst: st.n_inst + 1,
            out_len: st.out_len,
        },
        StatementType::Expression { expression: _ } => st,
    }
}

/// The state after the statements from index `i` on.
pub open spec fn stmts_shape(
    ss: Seq<ast::Statement>,
    i: int,
    st: EvalShape,
    n_in: int,
    n_pub: int,
) -> EvalShape
    decreases ss, ss.len() - i, 1int,
{
    if i < 0 || i >= ss.len() {
        st
    } else {
        stmts_shape(ss, i + 1, stmt_shape(ss[i], st, n_in, n_pub), n_in, n_pub)
    }
}

/// A clean shape state from its parts.
pub open spec fn shape_of_parts(vars: Seq<(String, Var)>, n_inst: int, out_len: int) -> EvalShape {
    EvalShape { ok: true, vars, n_inst, out_len }
}

/// The shape state an evaluator currently stands in.
pub open spec fn shape_of(tr: ProofTraverser) -> EvalShape {
    shape_of_parts(tr.vars@, tr.instance_var@.len() as int, tr.out@.len() as int)
}

/// One circuit pass starts from the parameter bindings with no instances and
/// no outputs.
pub open spec fn circuit_shape(
    ss: Seq<ast::Statement>,
    vars: Seq<(String, Var)>,
    n_in: int,
    n_pub: int,
) -> EvalShape {
    stmts_shape(ss, 0, EvalShape { ok: true, vars, n_inst: 0, out_len: 0 }, n_in, n_pub)
}

/// A failed state never recovers: the shape only ever conjoins conditions.
proof fn lemma_stmt_shape_false(s: ast::Statement, st: EvalShape, n_in: int, n_pub: int)
    requires
        !st.ok,
    ensures
        !stmt_shape(s, st, n_in, n_pub).ok,
    decreases s, 0int, 0int,
{
    match s.node {
        StatementType::IfStatement { condition, if_statements, else_statements } => {
            let st1 = EvalShape {
                ok: st.ok && expr_evals(condition, st.vars, n_in, n_pub, st.n_inst),
                vars: st.vars,
                n_inst: st.n_inst,
                out_len: st.out_len,
            };
            lemma_stmts_shape_false(if_statements@, 0, st1, n_in, n_pub);
            lemma_stmts_shape_false(
                else_statements@,
                0,
                stmts_shape(if_statements@, 0, st1, n_in, n_pub),
                n_in,
                n_pub,
            );
        },
        _ => {},
    }
}

proof fn lemma_stmts_shape_false(
    ss: Seq<ast::Statement>,
    i: int,
    st: EvalShape,
    n_in: int,
    n_pub: int,
)
    requires
        !st.ok,
    ensures
        !stmts_shape(ss, i, st, n_in, n_pub).ok,
    decreases ss, ss.len() - i, 1int,
{
    if 0 <= i < ss.len() {
        lemma_stmt_shape_false(ss[i], st, n_in, n_pub);
        lemma_stmts_shape_false(ss, i + 1, stmt_shape(ss[i], st, n_in, n_pub), n_in, n_pub);
    }
}

fn err_eval() -> (r: ZokError) {
    ZokError { error: ZokErrorType::Unreachable, location: Location::new(0, 0) }
}

/// Prover-side evaluation state for one function: parameter bindings, the
/// witness and public input words, and the wires of one repetition.
pub struct ProofTraverser {
    pub params: Vec<u32>,
    pub cond: Option<IKosVariable4P>,
    pub vars: Vec<(String, Var)>,
    pub input: Vec<u32>,
    pub in_pub: Vec<u32>,
    pub input_var: Vec<IKosVariable4P>,
    pub instance_var: Vec<IKosVariable4P>,
    pub out: Vec<IKosVariable4P>,
}

impl ProofTraverser {
    /// Every wire the evaluator holds carries three shares.
    pub open spec fn wires_wf(self) -> bool {
        &&& self.cond matches Some(c) ==> c.wf()
        &&& forall|i: int| 0 <= i < self.input_var@.len() ==> (#[trigger] self.input_var@[i]).wf()
        &&& forall|i: int|
            0 <= i < self.instance_var@.len() ==> (#[trigger] self.instance_var@[i]).wf()
    }

    pub fn new(params: Vec<u32>) -> (r: ProofTraverser)
        ensures
            r.wires_wf(),
            r.cond is None,
            r.params@ == params@,
            r.vars@.len() == 0,
            r.input@.len() == 0,
            r.in_pub@.len() == 0,
            r.input_var@.len() == 0,
    {
        ProofTraverser {
            params,
            cond: None,
            vars: Vec::new(),
            input: Vec::new(),
            in_pub: Vec::new(),
            input_var: Vec::new(),
            instance_var: Vec::new(),
            out: Vec::new(),
        }
    }

    /// Bind the parameters of the named function of the named contract:
    /// consume one witness or public word per parameter, in order.
    pub fn traverse_global_statement(
        &mut self,
        stmt: &ast::GlobalStatement,
        contract: &String,
        function: &String,
    ) -> (r: ZokResult<()>)
        ensures
            old(self).wires_wf() ==> final(self).wires_wf(),
            contract_name_of(*stmt) != contract@ ==> (r is Err && *final(self) == *old(self)),
            ({
                let ms = members_of(*stmt);
                (contract_name_of(*stmt) == contract@ && ms.len() == 1) ==> {
                    &&& (r is Ok) == (function_name_of(ms[0]) == function@ && old(
                        self,
                    ).params@.len() >= parameters_of(ms[0]).len())
                    &&& r is Ok ==> final(self).params@.len() == old(self).params@.len()
                        - parameters_of(ms[0]).len()
                }
            }),
    {
        match &stmt.node {
            GlobalStatementType::ContractStatement { contract_name, members } => {
                if *contract_name == *contract {
                    let mut i: usize = 0;
                    #[verifier::loop_isolation(false)]
                    while i < members.len()
                        invariant
                            i <= members@.len(),
                            old(self).wires_wf() ==> self.wires_wf(),
                            i == 0 ==> self.params@ == old(self).params@,
                            (members@.len() == 1 && i == 1) ==> !(function_name_of(members@[0])
                                == function@ && old(self).params@.len() >= parameters_of(
                                members@[0],
                            ).len()),
                        decreases members@.len() - i,
                    {
                        match self.traverse_member(&members[i], function) {
                            Ok(_) => {
                                return Ok(());
                            },
                            Err(_) => {},
                        }
                        i = i + 1;
                    }
                }
                Err(ZokError { error: ZokErrorType::EOF, location: Location::new(0, 0) })
            },
        }
    }

    /// Bind the parameters of this member if its name matches, consuming one
    /// provided word per parameter; the caller then evaluates the member's
    /// statements.
    pub(crate) fn traverse_member(&mut self, stmt: &ast::ContractStatement, function: &String) -> (r:
        ZokResult<usize>)
        ensures
            old(self).wires_wf() ==> final(self).wires_wf(),
            (r is Ok) == (function_name_of(*stmt) == function@ && old(self).params@.len()
                >= parameters_of(*stmt).len()),
            function_name_of(*stmt) != function@ ==> *final(self) == *old(self),
            r is Ok ==> final(self).params@.len() == old(self).params@.len() - parameters_of(
                *stmt,
            ).len(),
    {
        match &stmt.node {
            ContractStatementType::FunctionStatement {
                function_name,
                parameters,
                return_type: _return_type,
                statements: _statements,
            } => {
                if !(*function_name == *function) {
                    return Err(
                        ZokError { error: ZokErrorType::EOF, location: Location::new(0, 0) },
                    );
                }
                let mut i: usize = 0;
                #[verifier::loop_isolation(false)]
                while i < parameters.len()
                    invariant
                        i <= parameters@.len(),
                        old(self).wires_wf() ==> self.wires_wf(),
                        self.params@.len() == old(self).params@.len() - i,
                        old(self).params@.len() >= i,
                    decreases parameters@.len() - i,
                {
                    match self.traverse_parameter(&parameters[i]) {
                        Ok(_) => {},
                        Err(e) => {
                            proof {
                                assert(old(self).params@.len() < parameters@.len());
                            }
                            return Err(e);
                        },
                    }
                    i = i + 1;
                }
                Ok(0)
            },
        }
    }

    /// Bind one parameter: pop the next provided word; a missing word is a
    /// malformed witness and aborts before any repetition runs.
    pub(crate) fn traverse_parameter(&mut self, param: &ast::Parameter) -> (r: ZokResult<()>)
        ensures
            old(self).wires_wf() ==> final(self).wires_wf(),
            (r is Ok) == (old(self).params@.len() > 0),
            r is Err ==> {
                &&& final(self).params@ == old(self).params@
                &&& final(self).vars@ == old(self).vars@
                &&& final(self).input@ == old(self).input@
                &&& final(self).in_pub@ == old(self).in_pub@
            },
            r is Ok ==> {
                &&& final(self).params@ == old(self).params@.drop_last()
                &&& final(self).vars@.len() == old(self).vars@.len() + 1
                &&& final(self).vars@.drop_last() == old(self).vars@
                &&& match param.node {
                    ParameterType::Private { variable_type: _, variable } => {
                        &&& final(self).vars@.last().0@ == variable@
                        &&& final(self).vars@.last().1 == (Var {
                            id: old(self).input@.len() as usize,
                            typ: VarType::Private,
                        })
                        &&& final(self).input@ == old(self).input@.push(old(self).params@.last())
                        &&& final(self).in_pub@ == old(self).in_pub@
                    },
                    ParameterType::Public { variable_type: _, variable } => {
                        &&& final(self).vars@.last().0@ == variable@
                        &&& final(self).vars@.last().1 == (Var {
                            id: old(self).in_pub@.len() as usize,
                            typ: VarType::Public,
                        })
                        &&& final(self).in_pub@ == old(self).in_pub@.push(old(self).params@.last())
                        &&& final(self).input@ == old(self).input@
                    },
                }
            },
    {
        match &param.node {
            ParameterType::Private { variable_type: _variable_type, variable } => {
                let val = match self.params.pop() {
                    Some(v) => v,
                    None => {
                        return Err(
                            ZokError {
                                error: ZokErrorType::SyntaxError(
                                    "malformed witness: too few input words".to_owned(),
                                ),
                                location: Location::new(0, 0),
                            },
                        );
                    },
                };
                self.vars.push(
                    (clone_string(variable), Var { id: self.input.len(), typ: VarType::Private }),
                );
                self.input.push(val);
                Ok(())
            },
            ParameterType::Public { variable_type: _variable_type, variable } => {
                let val = match self.params.pop() {
                    Some(v) => v,
                    None => {
                        return Err(
                            ZokError {
                                error: ZokErrorType::SyntaxError(
                                    "malformed witness: too few input words".to_owned(),
                                ),
                                location: Location::new(0, 0),
                            },
                        );
                    },
                };
                self.vars.push(
                    (clone_string(variable), Var { id: self.in_pub.len(), typ: VarType::Public }),
                );
                self.in_pub.push(val);
                Ok(())
            },
        }
    }

    /// One circuit pass: evaluate the statements against this repetition's
    /// input wires and contexts, leaving the output wires in `out`.
    pub(crate) fn circuit(
        &mut self,
        input: Vec<IKosVariable4P>,
        statements: &Vec<ast::Statement>,
        ctxs: &mut Vec<IKosContext>,
    ) -> (r: ZokResult<Vec<IKosVariable4P>>)
        requires
            old(self).wires_wf(),
            ctxs_wf(old(ctxs)@),
            forall|i: int| 0 <= i < input@.len() ==> (#[trigger] input@[i]).wf(),
        ensures
            final(self).wires_wf(),
            ctxs_wf(final(ctxs)@),
            r matches Ok(out) ==> forall|i: int| 0 <= i < out@.len() ==> (#[trigger] out@[i]).wf(),
            ({
                let sh = circuit_shape(
                    statements@,
                    old(self).vars@,
                    input@.len() as int,
                    old(self).in_pub@.len() as int,
                );
                &&& (r is Ok) == sh.ok
                &&& r matches Ok(out) ==> out@.len() == sh.out_len
                &&& r is Ok ==> final(self).vars@ == sh.vars
            }),
            final(self).in_pub@ == old(self).in_pub@,
    {
        let ghost n_in_ = input@.len() as int;
        let ghost n_pub_ = old(self).in_pub@.len() as int;
        let ghost target = circuit_shape(statements@, old(self).vars@, n_in_, n_pub_);
        self.input_var = input;
        self.instance_var = Vec::new();
        self.out = Vec::new();
        self.cond = None;
        proof {
            assert(shape_of(*self) =~= EvalShape {
                ok: true,
                vars: old(self).vars@,
                n_inst: 0,
                out_len: 0,
            });
        }
        let mut i: usize = 0;
        #[verifier::loop_isolation(false)]
        while i < statements.len()
            invariant
                i <= statements@.len(),
                self.wires_wf(),
                ctxs_wf(ctxs@),
                self.in_pub@ == old(self).in_pub@,
                self.input_var@.len() == input@.len(),
                stmts_shape(statements@, i as int, shape_of(*self), n_in_, n_pub_) == target,
                forall|k: int| 0 <= k < self.out@.len() ==> (#[trigger] self.out@[k]).wf(),
            decreases statements@.len() - i,
        {
            let ghost cur = shape_of(*self);
            proof {
                assert(stmts_shape(statements@, i as int, cur, n_in_, n_pub_) == stmts_shape(
                    statements@,
                    i + 1,
                    stmt_shape(statements@[i as int], cur, n_in_, n_pub_),
                    n_in_,
                    n_pub_,
                ));
            }
            match self.traverse_statement(&statements[i], ctxs) {
                Ok(_) => {
                    proof {
                        assert(shape_of(*self) =~= stmt_shape(
                            statements@[i as int],
                            cur,
                            n_in_,
                            n_pub_,
                        ));
                    }
                },
                Err(e) => {
                    proof {
                        lemma_stmts_shape_false(
                            statements@,
                            i + 1,
                            stmt_shape(statements@[i as int], cur, n_in_, n_pub_),
                            n_in_,
                            n_pub_,
                        );
                    }
                    return Err(e);
                },
            }
            i = i + 1;
        }
        proof {
            assert(shape_of(*self) =~= target);
        }
        let mut out: Vec<IKosVariable4P> = Vec::new();
        let mut k: usize = 0;
        while k < self.out.len()
            invariant
                k <= self.out@.len(),
                self.wires_wf(),
                forall|j: int| 0 <= j < self.out@.len() ==> (#[trigger] self.out@[j]).wf(),
                out@.len() == k,
                forall|j: int| 0 <= j < k ==> (#[trigger] out@[j]).wf(),
            decreases self.out@.len() - k,
        {
            out.push(self.out[k].duplicate());
            k = k + 1;
        }
        Ok(out)
    }

    /// Evaluate one statement against the wires of this repetition.
    pub(crate) fn traverse_statement(
        &mut self,
        stmt: &ast::Statement,
        ctxs: &mut Vec<IKosContext>,
    ) -> (r: ZokResult<()>)
        requires
            old(self).wires_wf(),
            ctxs_wf(old(ctxs)@),
        ensures
            final(self).wires_wf(),
            ctxs_wf(final(ctxs)@),
            forall|k: int|
                0 <= k < final(self).out@.len() ==> ((#[trigger] final(self).out@[k]).wf() || (
                exists|j: int| 0 <= j < old(self).out@.len() && final(self).out@[k] == old(
                    self,
                ).out@[j])),
            ({
                let post = stmt_shape(
                    *stmt,
                    shape_of(*old(self)),
                    old(self).input_var@.len() as int,
                    old(self).in_pub@.len() as int,
                );
                &&& (r is Ok) == post.ok
                &&& r is Ok ==> {
                    &&& final(self).vars@ == post.vars
                    &&& final(self).instance_var@.len() == post.n_inst
                    &&& final(self).out@.len() == post.out_len
                }
            }),
            final(self).in_pub@ == old(self).in_pub@,
            final(self).input_var@.len() == old(self).input_var@.len(),
        decreases stmt,
    {
        let ghost n_in_ = old(self).input_var@.len() as int;
        let ghost n_pub_ = old(self).in_pub@.len() as int;
        let ghost pre = shape_of(*old(self));
        match &stmt.node {
            StatementType::IfStatement { condition, if_statements, else_statements } => {
                let ghost st1 = EvalShape {
                    ok: pre.ok && expr_evals(*condition, pre.vars, n_in_, n_pub_, pre.n_inst),
                    vars: pre.vars,
                    n_inst: pre.n_inst,
                    out_len: pre.out_len,
                };
                let ghost target1 = stmts_shape(if_statements@, 0, st1, n_in_, n_pub_);
                let ghost target2 = stmts_shape(else_statements@, 0, target1, n_in_, n_pub_);
                proof {
                    assert(stmt_shape(*stmt, pre, n_in_, n_pub_) == target2);
                }
                let new_cond = match self.traverse_expression(condition, ctxs) {
                    Ok(c) => c,
                    Err(e) => {
                        proof {
                            lemma_stmts_shape_false(if_statements@, 0, st1, n_in_, n_pub_);
                            lemma_stmts_shape_false(else_statements@, 0, target1, n_in_, n_pub_);
                        }
                        return Err(e);
                    },
                };
                // As inherited: a nested condition is not combined with the
                // outer one, and testing the pending condition clears it.
                let had = self.cond.is_some();
                self.cond = None;
                if !had {
                    self.cond = Some(new_cond.duplicate());
                }
                let mut i: usize = 0;
                proof {
                    assert(shape_of(*self) =~= st1);
                }
                #[verifier::loop_isolation(false)]
                while i < if_statements.len()
                    invariant
                        i <= if_statements@.len(),
                        self.wires_wf(),
                        ctxs_wf(ctxs@),
                        self.in_pub@ == old(self).in_pub@,
                        self.input_var@.len() == old(self).input_var@.len(),
                        stmts_shape(if_statements@, i as int, shape_of(*self), n_in_, n_pub_)
                            == target1,
                        forall|k: int|
                            0 <= k < self.out@.len() ==> ((#[trigger] self.out@[k]).wf() || (
                            exists|j: int| 0 <= j < old(self).out@.len() && self.out@[k] == old(
                                self,
                            ).out@[j])),
                    decreases if_statements@.len() - i,
                {
                    proof {
                        assert(decreases_to!(*stmt => stmt.node));
                        assert(decreases_to!(stmt.node => stmt.node->if_statements));
                        assert(*if_statements == stmt.node->if_statements);
                        assert(decreases_to!(*if_statements => if_statements@));
                        assert(decreases_to!(if_statements@ => if_statements@[i as int]));
                    }
                    let ghost cur = shape_of(*self);
                    proof {
                        assert(stmts_shape(if_statements@, i as int, cur, n_in_, n_pub_)
                            == stmts_shape(
                            if_statements@,
                            i + 1,
                            stmt_shape(if_statements@[i as int], cur, n_in_, n_pub_),
                            n_in_,
                            n_pub_,
                        ));
                    }
                    match self.traverse_statement(&if_statements[i], ctxs) {
                        Ok(_) => {
                            proof {
                                assert(shape_of(*self) =~= stmt_shape(
                                    if_statements@[i as int],
                                    cur,
                                    n_in_,
                                    n_pub_,
                                ));
                            }
                        },
                        Err(e) => {
                            proof {
                                lemma_stmts_shape_false(
                                    if_statements@,
                                    i + 1,
                                    stmt_shape(if_statements@[i as int], cur, n_in_, n_pub_),
                                    n_in_,
                                    n_pub_,
                                );
                                lemma_stmts_shape_false(
                                    else_statements@,
                                    0,
                                    target1,
                                    n_in_,
                                    n_pub_,
                                );
                            }
                            return Err(e);
                        },
                    }
                    i = i + 1;
                }
                let had2 = self.cond.is_some();
                self.cond = None;
                if !had2 {
                    self.cond = Some(new_cond.negate());
                }
                let mut i: usize = 0;
                proof {
                    assert(shape_of(*self) =~= target1);
                }
                #[verifier::loop_isolation(false)]
                while i < else_statements.len()
                    invariant
                        i <= else_statements@.len(),
                        self.wires_wf(),
                        ctxs_wf(ctxs@),
                        self.in_pub@ == old(self).in_pub@,
                        self.input_var@.len() == old(self).input_var@.len(),
                        stmts_shape(else_statements@, i as int, shape_of(*self), n_in_, n_pub_)
                            == target2,
                        forall|k: int|
                            0 <= k < self.out@.len() ==> ((#[trigger] self.out@[k]).wf() || (
                            exists|j: int| 0 <= j < old(self).out@.len() && self.out@[k] == old(
                                self,
                            ).out@[j])),
                    decreases else_statements@.len() - i,
                {
                    proof {
                        assert(decreases_to!(*stmt => stmt.node));
                        assert(decreases_to!(stmt.node => stmt.node->else_statements));
                        assert(*else_statements == stmt.node->else_statements);
                        assert(decreases_to!(*else_statements => else_statements@));
                        assert(decreases_to!(else_statements@ => else_statements@[i as int]));
                    }
                    let ghost cur = shape_of(*self);
                    proof {
                        assert(stmts_shape(else_statements@, i as int, cur, n_in_, n_pub_)
                            == stmts_shape(
                            else_statements@,
                            i + 1,
                            stmt_shape(else_statements@[i as int], cur, n_in_, n_pub_),
                            n_in_,
                            n_pub_,
                        ));
                    }
                    match self.traverse_statement(&else_statements[i], ctxs) {
                        Ok(_) => {
                            proof {
                                assert(shape_of(*self) =~= stmt_shape(
                                    else_statements@[i as int],
                                    cur,
                                    n_in_,
                                    n_pub_,
                                ));
                            }
                        },
                        Err(e) => {
                            proof {
                                lemma_stmts_shape_false(
                                    else_statements@,
                                    i + 1,
                                    stmt_shape(else_statements@[i as int], cur, n_in_, n_pub_),
                                    n_in_,
                                    n_pub_,
                                );
                            }
                            return Err(e);
                        },
                    }
                    i = i + 1;
                }
                self.cond = None;
                proof {
                    assert(shape_of(*self) =~= target2);
                }
                Ok(())
            },
            StatementType::ForEachStatement { iterator: _i, iterable: _e, statements: _s } => {
                // Iteration is not realized, as inherited.
                Ok(())
            },
            StatementType::ReturnStatement { return_value } => {
                let v = match self.traverse_expression(return_value, ctxs) {
                    Ok(v) => v,
                    Err(e) => {
                        return Err(e);
                    },
                };
                self.out = Vec::new();
                self.out.push(v);
                Ok(())
            },
            StatementType::InitializerStatement {
                variable_type: _variable_type,
                variable: _variable,
                default: _default,
            } => {
                // As inherited: a declaration alone binds nothing.
                Ok(())
            },
            StatementType::AssignStatement { left, operator: _operator, right } => {
                let v = match self.traverse_expression(right, ctxs) {
                    Ok(v) => v,
                    Err(e) => {
                        return Err(e);
                    },
                };
                self.vars.push(
                    (
                        clone_string(left),
                        Var { id: self.instance_var.len(), typ: VarType::Instance },
                    ),
                );
                self.instance_var.push(v);
                Ok(())
            },
            StatementType::Expression { expression: _expression } => Ok(()),
        }
    }

    /// Evaluate one expression to a wire; when a condition is pending it is
    /// applied to the result by a secure AND, as inherited.
    pub(crate) fn traverse_expression(
        &mut self,
        expr: &ast::Expression,
        ctxs: &mut Vec<IKosContext>,
    ) -> (r: ZokResult<IKosVariable4P>)
        requires
            old(self).wires_wf(),
            ctxs_wf(old(ctxs)@),
        ensures
            final(self).wires_wf(),
            ctxs_wf(final(ctxs)@),
            final(self).out@ == old(self).out@,
            final(self).vars@ == old(self).vars@,
            final(self).in_pub@ == old(self).in_pub@,
            final(self).input_var@.len() == old(self).input_var@.len(),
            final(self).instance_var@.len() == old(self).instance_var@.len(),
            (r is Ok) == expr_evals(
                *expr,
                old(self).vars@,
                old(self).input_var@.len() as int,
                old(self).in_pub@.len() as int,
                old(self).instance_var@.len() as int,
            ),
            r matches Ok(v) ==> v.wf(),
        decreases expr,
    {
        let res: IKosVariable4P = match &expr.node {
            ExpressionType::BinaryExpression { left, operator, right } => {
                let v1 = match self.traverse_expression(left, ctxs) {
                    Ok(v) => v,
                    Err(e) => {
                        return Err(e);
                    },
                };
                let v2 = match self.traverse_expression(right, ctxs) {
                    Ok(v) => v,
                    Err(e) => {
                        return Err(e);
                    },
                };
                match operator {
                    BinaryOperator::Add => v1.add_op(&v2, ctxs),
                    BinaryOperator::Gt => v1.gt(&v2, ctxs),
                    BinaryOperator::BitAnd => v1.bit_and(&v2, ctxs),
                    BinaryOperator::BitOr => v1.bit_or(&v2),
                    BinaryOperator::BitXor => v1.xor(&v2),
                    _ => IKosVariable4P::new_value(0),
                }
            },
            ExpressionType::FunctionCallExpression { function_name: _f, arguments: _a } => {
                // Function calls inside expressions are not realized, as
                // inherited.
                IKosVariable4P::new_value(0)
            },
            ExpressionType::Number { value } => {
                IKosVariable4P::new_value(#[verifier::truncate] (*value as u32))
            },
            ExpressionType::Identifier { value } => {
                let mut found: Option<Var> = None;
                let mut i: usize = 0;
                #[verifier::loop_isolation(false)]
                while i < self.vars.len()
                    invariant
                        i <= self.vars@.len(),
                        found == lookup_var(self.vars@.take(i as int), value@),
                    decreases self.vars@.len() - i,
                {
                    proof {
                        assert(self.vars@.take(i + 1 as int) =~= self.vars@.take(i as int).push(
                            self.vars@[i as int],
                        ));
                        lemma_lookup_push(
                            self.vars@.take(i as int),
                            self.vars@[i as int],
                            value@,
                        );
                    }
                    if self.vars[i].0 == *value {
                        found = Some(self.vars[i].1);
                    }
                    i = i + 1;
                }
                proof {
                    assert(self.vars@.take(self.vars@.len() as int) =~= self.vars@);
                }
                let var = match found {
                    Some(v) => v,
                    None => {
                        return Err(err_eval());
                    },
                };
                match var.typ {
                    VarType::Private => {
                        if var.id >= self.input_var.len() {
                            return Err(err_eval());
                        }
                        self.input_var[var.id].duplicate()
                    },
                    VarType::Public => {
                        if var.id >= self.in_pub.len() {
                            return Err(err_eval());
                        }
                        IKosVariable4P::new_value(self.in_pub[var.id])
                    },
                    VarType::Instance => {
                        if var.id >= self.instance_var.len() {
                            return Err(err_eval());
                        }
                        self.instance_var[var.id].duplicate()
                    },
                }
            },
        };
        let cond = match &self.cond {
            Some(c) => Some(c.duplicate()),
            None => None,
        };
        match cond {
            Some(c) => {
                self.cond = None;
                Ok(res.bit_and(&c, ctxs))
            },
            None => Ok(res),
        }
    }

    /// The whole protocol for one function of one contract: bind the
    /// provided words to the parameters, prove over two repetitions, derive
    /// the challenge from the committed transcript, reveal the two
    /// unchallenged views per repetition, replay them, and render the
    /// exported transcript text.
    pub fn traverse(ast: &ast::Program, contract: &String, function: &String, params: Vec<u32>) -> (r:
        ZokResult<String>)
        ensures
            // A proof comes out only for the declared witness arity: on the
            // common single-function contract, a params list that does not
            // match the parameter count exactly is a malformed witness and
            // the driver errors before any repetition runs.
            ({
                let gs = globals_of(*ast);
                (gs.len() > 0 && contract_name_of(gs[0]) == contract@ && members_of(
                    gs[0],
                ).len() == 1) ==> (r is Ok ==> (function_name_of(members_of(gs[0])[0])
                    == function@ && params@.len() == parameters_of(members_of(gs[0])[0]).len()))
            }),
            r matches Ok(t) ==> exists|
                il: u64,
                input_pub: Seq<u32>,
                output: Seq<u32>,
                challenge: Seq<u8>,
                agg: Seq<u8>,
                response: Seq<IKosView>,
            |
                {
                    &&& t@ == #[trigger] transcript_text(
                        il,
                        input_pub,
                        output,
                        challenge,
                        agg,
                        response,
                    )
                    &&& challenge.len() == 2
                    &&& (forall|i: int| 0 <= i < challenge.len() ==> challenge[i] < 3)
                    &&& response.len() == 4
                    &&& agg.len() == 32
                    &&& output.len() == 1
                },
    {
        let zk_boo = ZkBoo::new(2, 3, 2, 32);
        match ast {
            ast::Program::GlobalStatements(v) => {
                if v.len() == 0 {
                    return Err(
                        ZokError { error: ZokErrorType::EOF, location: Location::new(0, 0) },
                    );
                }
                let gs = &v[0];
                let mut zelf = ProofTraverser::new(params);
                match zelf.traverse_global_statement(gs, contract, function) {
                    Ok(_) => {},
                    Err(e) => {
                        return Err(e);
                    },
                }
                // Any witness-arity mismatch aborts before a repetition
                // runs; words left unconsumed are as malformed as missing
                // ones.
                if zelf.params.len() > 0 {
                    return Err(
                        ZokError {
                            error: ZokErrorType::SyntaxError(
                                "malformed witness: surplus input words".to_owned(),
                            ),
                            location: Location::new(0, 0),
                        },
                    );
                }
                let found = find_function(gs, function);
                let (parameters, statements) = match found {
                    Some(p) => p,
                    None => {
                        return Err(
                            ZokError { error: ZokErrorType::EOF, location: Location::new(0, 0) },
                        );
                    },
                };
                let input = clone_u32_vec(&zelf.input);
                let input_pub = clone_u32_vec(&zelf.in_pub);
                let proving = ProvingProof::new(input, input_pub, 1);
                let res = match zk_boo.prove(proving, &mut zelf, statements) {
                    Ok(r2) => r2,
                    Err(e) => {
                        return Err(
                            ZokError {
                                error: ZokErrorType::TypeError(e.error),
                                location: Location::new(0, 0),
                            },
                        );
                    },
                };
                if res.input_len > 0xffffffffusize {
                    return Err(
                        ZokError {
                            error: ZokErrorType::UnsupportedError,
                            location: Location::new(0, 0),
                        },
                    );
                }
                let challenge = ZkBoo::query_random_oracle(
                    res.input_len,
                    1,
                    &res.out_data,
                    &res.three_views,
                );
                let response = ZkBoo::build_response(&res.views, &challenge);
                let two_views = match zk_boo.rebuild_proof(
                    &res,
                    &challenge,
                    &response,
                    parameters,
                    statements,
                ) {
                    Ok(h) => h,
                    Err(e) => {
                        return Err(
                            ZokError {
                                error: ZokErrorType::TypeError(e.error),
                                location: Location::new(0, 0),
                            },
                        );
                    },
                };
                let t = render_transcript(
                    res.input_len as u64,
                    &res.input_pub,
                    &res.output,
                    &challenge,
                    &two_views,
                    &response,
                );
                proof {
                    let il = res.input_len as u64;
                    assert(t@ == transcript_text(
                        il,
                        res.input_pub@,
                        res.output@,
                        challenge@,
                        two_views@,
                        response@,
                    ));
                }
                Ok(t)
            },
        }
    }
}

/// The parameters and body of the named function inside one contract.
pub fn find_function<'a>(gs: &'a ast::GlobalStatement, function: &String) -> (r: Option<
    (&'a Vec<ast::Parameter>, &'a Vec<ast::Statement>),
>) {
    match &gs.node {
        GlobalStatementType::ContractStatement { contract_name: _c, members } => {
            let mut i: usize = 0;
            while i < members.len()
                invariant
                    i <= members@.len(),
                decreases members@.len() - i,
            {
                match &members[i].node {
                    ContractStatementType::FunctionStatement {
                        function_name,
                        parameters,
                        return_type: _t,
                        statements,
                    } => {
                        if function_name == function {
                            return Some((parameters, statements));
                        }
                    },
                }
                i = i + 1;
            }
            None
        },
    }
}

/// The items of a word list in decimal, separated by comma and space.
pub open spec fn words_text(v: Seq<u32>) -> Seq<char>
    decreases v.len(),
{
    if v.len() == 0 {
        Seq::empty()
    } else if v.len() == 1 {
        dec_of(v[0] as nat)
    } else {
        (dec_of(v[0] as nat) + ", "@) + words_text(v.drop_first())
    }
}

/// A bracketed word list, as the transcript prints one.
pub open spec fn fmt_words_text(v: Seq<u32>) -> Seq<char> {
    ("["@ + words_text(v)) + "]"@
}

/// One revealed view in the transcript: its seed in hex, then its input and
/// output shares.
pub open spec fn view_entry_text(v: IKosView) -> Seq<char> {
    ((((("[\"0x"@ + hex_of(v.rand_tape_seed@)) + "\","@) + fmt_words_text(v.in_data@)) + ","@)
        + fmt_words_text(v.out_data@)) + "]"@
}

/// The revealed views of the transcript, comma separated.
pub open spec fn views_text(rs: Seq<IKosView>) -> Seq<char>
    decreases rs.len(),
{
    if rs.len() == 0 {
        Seq::empty()
    } else if rs.len() == 1 {
        view_entry_text(rs[0])
    } else {
        (view_entry_text(rs[0]) + ","@) + views_text(rs.drop_first())
    }
}

/// The exported transcript: a positional tuple of input length, public
/// inputs, claimed output, challenge bytes in hex, the aggregated two-party
/// commitment hash in hex, and the revealed views with seed, input shares
/// and output shares. Field order is part of the exchange format.
pub open spec fn transcript_text(
    il: u64,
    input_pub: Seq<u32>,
    output: Seq<u32>,
    challenge: Seq<u8>,
    agg: Seq<u8>,
    response: Seq<IKosView>,
) -> Seq<char> {
    (((((((((("["@ + dec_of(il as nat)) + ","@) + fmt_words_text(input_pub)) + ","@)
        + fmt_words_text(output)) + ",\"0x"@) + hex_of(challenge)) + "\",\"0x"@ + hex_of(agg))
        + "\",["@) + views_text(response)) + "]]"@
}

proof fn lemma_words_text_push(v: Seq<u32>, x: u32)
    ensures
        words_text(v.push(x)) =~= (if v.len() == 0 {
            dec_of(x as nat)
        } else {
            (words_text(v) + ", "@) + dec_of(x as nat)
        }),
    decreases v.len(),
{
    if v.len() == 0 {
        assert(v.push(x)[0] == x);
        assert(v.push(x).len() == 1);
    } else {
        assert(v.push(x).drop_first() =~= v.drop_first().push(x));
        lemma_words_text_push(v.drop_first(), x);
        assert(v.push(x)[0] == v[0]);
        if v.len() == 1 {
            assert(v.drop_first().len() == 0);
            assert(words_text(v.push(x)) =~= (dec_of(v[0] as nat) + ", "@) + dec_of(x as nat));
            assert(words_text(v) =~= dec_of(v[0] as nat));
            assert(words_text(v.push(x)) =~= (words_text(v) + ", "@) + dec_of(x as nat));
        } else {
            assert(words_text(v.push(x)) =~= (dec_of(v[0] as nat) + ", "@) + ((words_text(
                v.drop_first(),
            ) + ", "@) + dec_of(x as nat)));
            assert(words_text(v) =~= (dec_of(v[0] as nat) + ", "@) + words_text(v.drop_first()));
            assert(words_text(v.push(x)) =~= (words_text(v) + ", "@) + dec_of(x as nat));
        }
    }
}

proof fn lemma_views_text_push(rs: Seq<IKosView>, v: IKosView)
    ensures
        views_text(rs.push(v)) =~= (if rs.len() == 0 {
            view_entry_text(v)
        } else {
            (views_text(rs) + ","@) + view_entry_text(v)
        }),
    decreases rs.len(),
{
    if rs.len() == 0 {
        assert(rs.push(v)[0] == v);
        assert(rs.push(v).len() == 1);
    } else {
        assert(rs.push(v).drop_first() =~= rs.drop_first().push(v));
        lemma_views_text_push(rs.drop_first(), v);
        assert(rs.push(v)[0] == rs[0]);
        if rs.len() == 1 {
            assert(views_text(rs.push(v)) =~= (view_entry_text(rs[0]) + ","@) + view_entry_text(
                v,
            ));
            assert(views_text(rs) =~= view_entry_text(rs[0]));
            assert(views_text(rs.push(v)) =~= (views_text(rs) + ","@) + view_entry_text(v));
        } else {
            assert(views_text(rs.push(v)) =~= (view_entry_text(rs[0]) + ","@) + ((views_text(
                rs.drop_first(),
            ) + ","@) + view_entry_text(v)));
            assert(views_text(rs) =~= (view_entry_text(rs[0]) + ","@) + views_text(
                rs.drop_first(),
            ));
            assert(views_text(rs.push(v)) =~= (views_text(rs) + ","@) + view_entry_text(v));
        }
    }
}

/// A bracketed, comma-separated rendering of a word vector.
fn fmt_u32_vec(v: &Vec<u32>) -> (r: String)
    ensures
        r@ == fmt_words_text(v@),
{
    let mut s = String::new();
    append_str(&mut s, "[");
    let mut i: usize = 0;
    while i < v.len()
        invariant
            i <= v@.len(),
            i == 0 ==> s@ =~= "["@,
            0 < i < v@.len() ==> s@ =~= "["@ + (words_text(v@.take(i as int)) + ", "@),
            i == v@.len() && i > 0 ==> s@ =~= "["@ + words_text(v@.take(i as int)),
        decreases v@.len() - i,
    {
        let d = dec_string_u64(v[i] as u64);
        append_string(&mut s, &d);
        proof {
            assert(v@.take(i + 1 as int) =~= v@.take(i as int).push(v@[i as int]));
            lemma_words_text_push(v@.take(i as int), v@[i as int]);
            assert(s@ =~= "["@ + words_text(v@.take(i + 1 as int)));
        }
        if i + 1 < v.len() {
            append_str(&mut s, ", ");
            proof {
                assert(s@ =~= "["@ + (words_text(v@.take(i + 1 as int)) + ", "@));
            }
        }
        i = i + 1;
    }
    append_str(&mut s, "]");
    proof {
        assert(v@.take(v@.len() as int) =~= v@);
        if v@.len() == 0 {
            assert(words_text(v@) =~= Seq::<char>::empty());
            assert(s@ =~= ("["@ + words_text(v@)) + "]"@);
        }
        assert(s@ =~= fmt_words_text(v@));
    }
    s
}

/// Render the exported proof transcript from its already-derived pieces;
/// the text is fixed field by field.
#[verifier::rlimit(80)]
pub fn render_transcript(
    il: u64,
    input_pub: &Vec<u32>,
    output: &Vec<u32>,
    challenge: &Vec<u8>,
    aggregated: &Vec<u8>,
    response: &Vec<IKosView>,
) -> (r: String)
    ensures
        r@ == transcript_text(il, input_pub@, output@, challenge@, aggregated@, response@),
{
    let mut t = String::new();
    append_str(&mut t, "[");
    let d = dec_string_u64(il);
    append_string(&mut t, &d);
    append_str(&mut t, ",");
    let f1 = fmt_u32_vec(input_pub);
    append_string(&mut t, &f1);
    append_str(&mut t, ",");
    let f2 = fmt_u32_vec(output);
    append_string(&mut t, &f2);
    append_str(&mut t, ",\"0x");
    let h1 = hex_string(challenge);
    append_string(&mut t, &h1);
    append_str(&mut t, "\",\"0x");
    let h2 = hex_string(aggregated);
    append_string(&mut t, &h2);
    append_str(&mut t, "\",[");
    let ghost head = t@;
    let mut i: usize = 0;
    while i < response.len()
        invariant
            i <= response@.len(),
            i == 0 ==> t@ =~= head,
            0 < i < response@.len() ==> t@ =~= head + (views_text(response@.take(i as int))
                + ","@),
            i == response@.len() && i > 0 ==> t@ =~= head + views_text(response@.take(i as int)),
        decreases response@.len() - i,
    {
        let view = &response[i];
        append_str(&mut t, "[\"0x");
        let hs = hex_string(&view.rand_tape_seed);
        append_string(&mut t, &hs);
        append_str(&mut t, "\",");
        let fin = fmt_u32_vec(&view.in_data);
        append_string(&mut t, &fin);
        append_str(&mut t, ",");
        let fout = fmt_u32_vec(&view.out_data);
        append_string(&mut t, &fout);
        append_str(&mut t, "]");
        proof {
            assert(response@.take(i + 1 as int) =~= response@.take(i as int).push(
                response@[i as int],
            ));
            lemma_views_text_push(response@.take(i as int), response@[i as int]);
            assert(t@ =~= head + views_text(response@.take(i + 1 as int)));
        }
        if i + 1 < response.len() {
            append_str(&mut t, ",");
            proof {
                assert(t@ =~= head + (views_text(response@.take(i + 1 as int)) + ","@));
            }
        }
        i = i + 1;
    }
    append_str(&mut t, "]]");
    proof {
        assert(response@.take(response@.len() as int) =~= response@);
        if response@.len() == 0 {
            assert(views_text(response@) =~= Seq::<char>::empty());
            assert(t@ =~= (head + views_text(response@)) + "]]"@);
        }
        assert(t@ =~= transcript_text(il, input_pub@, output@, challenge@, aggregated@, response@));
    }
    t
}

} // verus!
