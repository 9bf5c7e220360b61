//! Generation of the verifying contract's source text from a parsed
//! program: the caller supplies the target-language template, and each
//! function body is rendered as replay calls over two-share wires.

use crate::error::{ZokError, ZokErrorType};
use crate::location::Location;
use crate::parser::ast;
use crate::parser::ast::{
    clone_string, contract_name_of, globals_of, BinaryOperator, ContractStatementType,
    ExpressionType, GlobalStatementType, ParameterType, StatementType,
};
use crate::parser::lexer::push_char;
use crate::utils::{append_str, append_string, dec_string_u64};
use vstd::prelude::*;

verus! {

type ZokResult<T> = Result<T, ZokError>;

/// Leftmost, non-overlapping replacement of every occurrence of `pat` by
/// `sub`.
pub open spec fn spec_replace(s: Seq<char>, pat: Seq<char>, sub: Seq<char>) -> Seq<char>
    decreases s.len(),
{
    if pat.len() == 0 || s.len() < pat.len() {
        s
    } else if s.take(pat.len() as int) == pat {
        sub + spec_replace(s.skip(pat.len() as int), pat, sub)
    } else {
        seq![s[0]] + spec_replace(s.drop_first(), pat, sub)
    }
}

/// Replace every occurrence of `pat` in `s` by `sub`.
fn replace_all(s: &String, pat: &str, sub: &String) -> (r: String)
    ensures
        r@ == spec_replace(s@, pat@, sub@),
{
    let sc = string_chars(s);
    let p = pat.unicode_len();
    if p == 0 {
        let mut out = String::new();
        append_string(&mut out, s);
        proof {
            assert(out@ =~= s@);
        }
        return out;
    }
    let mut out = String::new();
    let mut i: usize = 0;
    proof {
        assert(s@.skip(0) =~= s@);
        assert(Seq::<char>::empty() + spec_replace(s@, pat@, sub@) =~= spec_replace(
            s@,
            pat@,
            sub@,
        ));
    }
    while i < sc.len()
        invariant
            i <= sc@.len(),
            sc@ == s@,
            p == pat@.len(),
            p >= 1,
            spec_replace(s@, pat@, sub@) =~= out@ + spec_replace(
                s@.skip(i as int),
                pat@,
                sub@,
            ),
        decreases sc@.len() - i,
    {
        let can = p <= sc.len() - i;
        let mut matches_here = can;
        if can {
            let mut j: usize = 0;
            while j < p
                invariant
                    j <= p,
                    p == pat@.len(),
                    i + p <= sc@.len(),
                    sc@.len() <= usize::MAX,
                    matches_here ==> forall|k: int| 0 <= k < j ==> sc@[i + k] == pat@[k],
                    !matches_here ==> s@.skip(i as int).take(p as int) != pat@,
                    sc@ == s@,
                decreases p - j,
            {
                if matches_here && sc[i + j] != pat.get_char(j) {
                    matches_here = false;
                    proof {
                        assert(s@.skip(i as int).take(p as int)[j as int] == s@[i + j]);
                    }
                }
                j = j + 1;
            }
        }
        let ghost rest = s@.skip(i as int);
        if matches_here {
            proof {
                assert(rest.take(p as int) =~= pat@);
                assert(spec_replace(rest, pat@, sub@) == sub@ + spec_replace(
                    rest.skip(p as int),
                    pat@,
                    sub@,
                ));
                assert(rest.skip(p as int) =~= s@.skip(i + p));
            }
            append_string(&mut out, sub);
            i = i + p;
        } else {
            proof {
                if rest.len() >= p {
                    assert(spec_replace(rest, pat@, sub@) == seq![rest[0]] + spec_replace(
                        rest.drop_first(),
                        pat@,
                        sub@,
                    ));
                } else {
                    assert(spec_replace(rest, pat@, sub@) == rest);
                    assert(rest =~= seq![rest[0]] + rest.drop_first());
                    assert(rest.drop_first().len() < p);
                    assert(spec_replace(rest.drop_first(), pat@, sub@) == rest.drop_first());
                }
                assert(rest.drop_first() =~= s@.skip(i + 1));
            }
            push_char(&mut out, sc[i]);
            i = i + 1;
        }
    }
    proof {
        assert(s@.skip(s@.len() as int) =~= Seq::<char>::empty());
        assert(spec_replace(Seq::<char>::empty(), pat@, sub@) =~= Seq::<char>::empty());
        assert(out@ + Seq::<char>::empty() =~= out@);
    }
    out
}

/// Characters of a string, in order.
fn string_chars(source: &String) -> (r: Vec<char>)
    ensures
        r@ == source@,
{
    let s = source.as_str();
    let n = s.unicode_len();
    let mut chars: Vec<char> = Vec::new();
    let mut i: usize = 0;
    while i < n
        invariant
            i <= n,
            n == s@.len(),
            s@ == source@,
            chars@.len() == i,
            forall|j: int| 0 <= j < i ==> chars@[j] == s@[j],
        decreases n - i,
    {
        chars.push(s.get_char(i));
        i = i + 1;
    }
    proof {
        assert(chars@ =~= source@);
    }
    chars
}

/// The template after substituting each generated circuit name in turn for
/// the circuit placeholder, from index `i` on.
pub open spec fn fold_circuit_subst(t: Seq<char>, fnames: Seq<Seq<char>>, i: int) -> Seq<char>
    decreases fnames.len() - i,
{
    if i < 0 || i >= fnames.len() {
        t
    } else {
        fold_circuit_subst(spec_replace(t, "{circuit}"@, fnames[i]), fnames, i + 1)
    }
}

/// The rendered text of one contract: the template with every circuit
/// placeholder replaced by a generated function name, the contract-name
/// placeholder by the contract's name, and the functions placeholder by the
/// generated function bodies.
pub open spec fn rendered_contract(
    template: Seq<char>,
    contract_name: Seq<char>,
    fnames: Seq<Seq<char>>,
    bodies: Seq<char>,
) -> Seq<char> {
    spec_replace(
        spec_replace(fold_circuit_subst(template, fnames, 0), "{contract_name}"@, contract_name),
        "{functions}"@,
        bodies,
    )
}

/// Code generation state: where each input and public input lives.
pub struct VCTraverser {
    pub(crate) input: Vec<(String, usize)>,
    pub(crate) in_pub: Vec<(String, usize)>,
    pub(crate) input_index: usize,
    pub(crate) in_pub_index: usize,
}

impl VCTraverser {
    pub(crate) fn new() -> (r: VCTraverser) {
        VCTraverser { input: Vec::new(), in_pub: Vec::new(), input_index: 0, in_pub_index: 0 }
    }

    /// Render the first contract of a program into the supplied verifier
    /// template; only a program without any contract is refused.
    pub fn traverse(ast: &ast::Program, template: &String) -> (r: ZokResult<String>)
        ensures
            r is Ok <==> globals_of(*ast).len() > 0,
            r matches Err(e) ==> e.error is EOF,
            r matches Ok(text) ==> exists|fnames: Seq<Seq<char>>, bodies: Seq<char>|
                text@ == #[trigger] rendered_contract(
                    template@,
                    contract_name_of(globals_of(*ast)[0]),
                    fnames,
                    bodies,
                ),
    {
        match ast {
            ast::Program::GlobalStatements(v) => {
                if v.len() == 0 {
                    return Err(
                        ZokError { error: ZokErrorType::EOF, location: Location::new(0, 0) },
                    );
                }
                let mut zelf = Self::new();
                zelf.traverse_global_statement(&v[0], template)
            },
        }
    }

    fn traverse_global_statement(&mut self, stmt: &ast::GlobalStatement, template: &String) -> (r:
        ZokResult<String>)
        ensures
            r is Ok,
            r matches Ok(text) ==> exists|fnames: Seq<Seq<char>>, bodies: Seq<char>|
                text@ == #[trigger] rendered_contract(
                    template@,
                    contract_name_of(*stmt),
                    fnames,
                    bodies,
                ),
    {
        match &stmt.node {
            GlobalStatementType::ContractStatement { contract_name, members } => {
                let mut contents = String::new();
                append_string(&mut contents, template);
                proof {
                    assert(contents@ =~= template@);
                }
                let mut s = String::new();
                let mut funcs: Vec<String> = Vec::new();
                let mut i: usize = 0;
                while i < members.len()
                    invariant
                        i <= members@.len(),
                    decreases members@.len() - i,
                {
                    let pair = match self.traverse_member(&members[i]) {
                        Ok(p) => p,
                        Err(e) => {
                            return Err(e);
                        },
                    };
                    append_string(&mut s, &pair.0);
                    funcs.push(pair.1);
                    i = i + 1;
                }
                let ghost fnames = Seq::new(funcs@.len() as nat, |j: int| funcs@[j]@);
                let mut i: usize = 0;
                #[verifier::loop_isolation(false)]
                while i < funcs.len()
                    invariant
                        i <= funcs@.len(),
                        fold_circuit_subst(template@, fnames, 0) == fold_circuit_subst(
                            contents@,
                            fnames,
                            i as int,
                        ),
                    decreases funcs@.len() - i,
                {
                    proof {
                        assert(fold_circuit_subst(contents@, fnames, i as int)
                            == fold_circuit_subst(
                            spec_replace(contents@, "{circuit}"@, fnames[i as int]),
                            fnames,
                            i + 1,
                        ));
                    }
                    contents = replace_all(&contents, "{circuit}", &funcs[i]);
                    i = i + 1;
                }
                proof {
                    assert(fold_circuit_subst(template@, fnames, 0) == contents@);
                }
                let contents = replace_all(&contents, "{contract_name}", contract_name);
                let contents = replace_all(&contents, "{functions}", &s);
                proof {
                    assert(contents@ == rendered_contract(
                        template@,
                        contract_name_of(*stmt),
                        fnames,
                        s@,
                    ));
                }
                Ok(contents)
            },
        }
    }

    fn traverse_member(&mut self, stmt: &ast::ContractStatement) -> (r: ZokResult<
        (String, String),
    >)
        ensures
            r is Ok,
    {
        match &stmt.node {
            ContractStatementType::FunctionStatement {
                function_name,
                parameters,
                return_type: _return_type,
                statements,
            } => {
                let mut s = String::new();
                append_str(&mut s, "    function _");
                append_string(&mut s, function_name);
                append_str(
                    &mut s,
                    "(IKosVariable4V[] memory input, uint32[] memory in_pub) internal pure returns (IKosVariable4V[] memory) {\n",
                );
                let mut i: usize = 0;
                while i < parameters.len()
                    invariant
                        i <= parameters@.len(),
                    decreases parameters@.len() - i,
                {
                    self.traverse_parameter(&parameters[i]);
                    i = i + 1;
                }
                let mut i: usize = 0;
                while i < statements.len()
                    invariant
                        i <= statements@.len(),
                    decreases statements@.len() - i,
                {
                    let stmt_text = self.traverse_statement(&statements[i]);
                    append_string(&mut s, &stmt_text);
                    i = i + 1;
                }
                append_str(&mut s, "    }\n\n");
                append_str(&mut s, "    function ");
                append_string(&mut s, function_name);
                append_str(
                    &mut s,
                    "(VerifyingProof memory proof) public pure returns (uint256) {\n",
                );
                append_str(
                    &mut s,
                    "        if (ZKBoo_verify(proof)) { return proof.output[0]; } else { return 0; }\n    ",
                );
                append_str(&mut s, "}\n");
                Ok((s, clone_string(function_name)))
            },
        }
    }

    fn traverse_parameter(&mut self, param: &ast::Parameter) {
        match &param.node {
            ParameterType::Private { variable_type: _variable_type, variable } => {
                self.input.push((clone_string(variable), self.input_index));
                if self.input_index < usize::MAX {
                    self.input_index = self.input_index + 1;
                }
            },
            ParameterType::Public { variable_type: _variable_type, variable } => {
                self.in_pub.push((clone_string(variable), self.in_pub_index));
                if self.in_pub_index < usize::MAX {
                    self.in_pub_index = self.in_pub_index + 1;
                }
            },
        }
    }

    fn traverse_statement(&mut self, stmt: &ast::Statement) -> (r: String)
        decreases stmt,
    {
        let mut s = String::new();
        match &stmt.node {
            StatementType::IfStatement {
                condition: _condition,
                if_statements: _if_statements,
                else_statements: _else_statements,
            } => {
                // Conditional rendering is not realized, as inherited.
            },
            StatementType::ForEachStatement { iterator: _i, iterable: _e, statements: _s } => {
                // Iteration rendering is not realized, as inherited.
            },
            StatementType::ReturnStatement { return_value } => {
                append_str(&mut s, "        IKosVariable4V[] memory out = new IKosVariable4V[](1);\n");
                append_str(&mut s, "        out[0] = ");
                let e = self.traverse_expression(return_value);
                append_string(&mut s, &e);
                append_str(&mut s, ";\n");
                append_str(&mut s, "        return out;\n");
            },
            StatementType::InitializerStatement {
                variable_type: _variable_type,
                variable,
                default,
            } => {
                append_str(&mut s, "        ");
                append_str(&mut s, "IKosVariable4V ");
                append_string(&mut s, variable);
                match default {
                    Some(expr) => {
                        append_str(&mut s, " = ");
                        let e = self.traverse_expression(expr);
                        append_string(&mut s, &e);
                    },
                    None => {},
                }
                append_str(&mut s, ";\n");
            },
            StatementType::AssignStatement { left, operator: _operator, right } => {
                append_str(&mut s, "        ");
                append_string(&mut s, left);
                append_str(&mut s, " = ");
                let e = self.traverse_expression(right);
                append_string(&mut s, &e);
                append_str(&mut s, ";\n");
            },
            StatementType::Expression { expression: _expression } => {},
        }
        s
    }

    fn traverse_expression(&mut self, expr: &ast::Expression) -> (r: String)
        decreases expr,
    {
        let mut s = String::new();
        match &expr.node {
            ExpressionType::BinaryExpression { left, operator, right } => {
                let v1 = self.traverse_expression(left);
                let v2 = self.traverse_expression(right);
                let op = Self::traverse_operator(operator);
                append_str(&mut s, op);
                append_str(&mut s, "(");
                append_string(&mut s, &v1);
                append_str(&mut s, ",");
                append_string(&mut s, &v2);
                append_str(&mut s, ")");
            },
            ExpressionType::FunctionCallExpression { function_name, arguments: _arguments } => {
                append_str(&mut s, "_");
                append_string(&mut s, function_name);
                append_str(&mut s, "(");
                append_str(&mut s, "proof");
                append_str(&mut s, ")");
            },
            ExpressionType::Number { value } => {
                append_str(&mut s, "IKosVariable_new_value(");
                let d = dec_string_u64(*value);
                append_string(&mut s, &d);
                append_str(&mut s, ")");
            },
            ExpressionType::Identifier { value } => {
                let mut found_in: Option<usize> = None;
                let mut i: usize = 0;
                while i < self.input.len()
                    invariant
                        i <= self.input@.len(),
                    decreases self.input@.len() - i,
                {
                    if &self.input[i].0 == value {
                        found_in = Some(self.input[i].1);
                    }
                    i = i + 1;
                }
                match found_in {
                    Some(idx) => {
                        append_str(&mut s, "input[");
                        let d = dec_string_u64(idx as u64);
                        append_string(&mut s, &d);
                        append_str(&mut s, "]");
                    },
                    None => {
                        let mut found_pub: Option<usize> = None;
                        let mut i: usize = 0;
                        while i < self.in_pub.len()
                            invariant
                                i <= self.in_pub@.len(),
                            decreases self.in_pub@.len() - i,
                        {
                            if &self.in_pub[i].0 == value {
                                found_pub = Some(self.in_pub[i].1);
                            }
                            i = i + 1;
                        }
                        match found_pub {
                            Some(idx) => {
                                append_str(&mut s, "in_pub[");
                                let d = dec_string_u64(idx as u64);
                                append_string(&mut s, &d);
                                append_str(&mut s, "]");
                            },
                            None => {},
                        }
                    },
                }
            },
        }
        s
    }

    /// The replay-call name each binary operator renders to.
    fn traverse_operator(op: &BinaryOperator) -> (r: &'static str)
        ensures
            op == BinaryOperator::Add ==> r@ == "add_op"@,
            op == BinaryOperator::Gt ==> r@ == "gt_op"@,
            op == BinaryOperator::BitAnd ==> r@ == "bit_and"@,
            op == BinaryOperator::BitOr ==> r@ == "bit_or"@,
            op == BinaryOperator::BitXor ==> r@ == "bit_xor"@,
            op == BinaryOperator::LShift ==> r@ == "rshift"@,
            op == BinaryOperator::RShift ==> r@ == "lshift"@,
    {
        match op {
            BinaryOperator::Add => "add_op",
            BinaryOperator::Gt => "gt_op",
            BinaryOperator::BitAnd => "bit_and",
            BinaryOperator::BitOr => "bit_or",
            BinaryOperator::BitXor => "bit_xor",
            BinaryOperator::LShift => "rshift",
            BinaryOperator::RShift => "lshift",
            _ => "",
        }
    }
}

} // verus!
