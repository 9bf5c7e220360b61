//! The source language layer: lexing, parsing, compilation to deferred
//! trees, code generation, and the text helpers.

use zoker::caller::Contract;
use zoker::error::ZokErrorType;
use zoker::operation::calc_operation;
use zoker::parse_program;
use zoker::parse_zok;
use zoker::parser::ast::{
    BinaryOperator, ContractStatementType, ExpressionType, GlobalStatementType, ParameterType,
    Program, StatementType,
};
use zoker::parser::lexer::keyword_token;
use zoker::parser::Tok;
use zoker::traverser::{ASTTraverser, VCTraverser};
use zoker::utils::{dec_string_u64, hex_string};

const AGE_CONTRACT: &str =
    "contract A { function check(private uint age) returns uint { return age > 19; } }";

#[test]
fn keywords_map_to_their_tokens() {
    assert_eq!(keyword_token("uint256".to_string()), Tok::UInt256);
    assert_eq!(keyword_token("uint".to_string()), Tok::UInt256);
    assert_eq!(keyword_token("contract".to_string()), Tok::Contract);
    assert_eq!(keyword_token("function".to_string()), Tok::Function);
    assert_eq!(keyword_token("if".to_string()), Tok::If);
    assert_eq!(keyword_token("else".to_string()), Tok::Else);
    assert_eq!(keyword_token("for".to_string()), Tok::For);
    assert_eq!(keyword_token("returns".to_string()), Tok::Returns);
    assert_eq!(keyword_token("return".to_string()), Tok::Return);
    assert_eq!(keyword_token("private".to_string()), Tok::Private);
    assert_eq!(keyword_token("age".to_string()), Tok::Identifier { name: "age".to_string() });
}

#[test]
fn parses_the_age_contract_shape() {
    let prog = parse_zok(AGE_CONTRACT).unwrap();
    let Program::GlobalStatements(v) = &prog;
    assert_eq!(v.len(), 1);
    let GlobalStatementType::ContractStatement { contract_name, members } = &v[0].node;
    assert_eq!(contract_name, "A");
    assert_eq!(members.len(), 1);
    let ContractStatementType::FunctionStatement { function_name, parameters, statements, .. } =
        &members[0].node;
    assert_eq!(function_name, "check");
    assert_eq!(parameters.len(), 1);
    match &parameters[0].node {
        ParameterType::Private { variable, .. } => assert_eq!(variable, "age"),
        ParameterType::Public { .. } => panic!("age must be private"),
    }
    assert_eq!(statements.len(), 1);
    match &statements[0].node {
        StatementType::ReturnStatement { return_value } => match &return_value.node {
            ExpressionType::BinaryExpression { operator, left, right } => {
                assert_eq!(*operator, BinaryOperator::Gt);
                assert!(matches!(&left.node, ExpressionType::Identifier { value } if value == "age"));
                assert!(matches!(&right.node, ExpressionType::Number { value: 19 }));
            },
            _ => panic!("expected a comparison"),
        },
        _ => panic!("expected a return statement"),
    }
}

#[test]
fn parses_numbers_with_underscores() {
    let prog =
        parse_zok("contract A { function f() returns uint { return 1_000_000; } }").unwrap();
    let Program::GlobalStatements(v) = &prog;
    let GlobalStatementType::ContractStatement { members, .. } = &v[0].node;
    let ContractStatementType::FunctionStatement { statements, .. } = &members[0].node;
    match &statements[0].node {
        StatementType::ReturnStatement { return_value } => {
            assert!(matches!(&return_value.node, ExpressionType::Number { value: 1_000_000 }));
        },
        _ => panic!("expected a return statement"),
    }
}

#[test]
fn multiplication_binds_tighter_than_addition() {
    let prog = parse_zok("contract A { function f() returns uint { return 1 + 2 * 3; } }").unwrap();
    let Program::GlobalStatements(v) = &prog;
    let GlobalStatementType::ContractStatement { members, .. } = &v[0].node;
    let ContractStatementType::FunctionStatement { statements, .. } = &members[0].node;
    match &statements[0].node {
        StatementType::ReturnStatement { return_value } => match &return_value.node {
            ExpressionType::BinaryExpression { operator, right, .. } => {
                assert_eq!(*operator, BinaryOperator::Add);
                assert!(matches!(
                    &right.node,
                    ExpressionType::BinaryExpression { operator: BinaryOperator::Mul, .. }
                ));
            },
            _ => panic!("expected an addition at the top"),
        },
        _ => panic!("expected a return statement"),
    }
}

#[test]
fn number_underscore_and_overflow_are_lexical_errors() {
    // An underscore must sit between digits.
    assert!(parse_program("contract A { function f() returns uint { return 1_; } }").is_err());
    assert!(parse_program("contract A { function f() returns uint { return 1_x2; } }").is_err());
    // A literal beyond 64 bits overflows.
    assert!(
        parse_program("contract A { function f() returns uint { return 99999999999999999999; } }")
            .is_err()
    );
    // Between digits the underscore is dropped from the value.
    assert!(parse_program("contract A { function f() returns uint { return 1_2_3; } }").is_ok());
}

#[test]
fn truncated_source_is_rejected() {
    assert!(parse_program("contract A {").is_err());
    assert!(parse_program("contract A { function f( returns uint { } }").is_err());
}

#[test]
fn unknown_character_is_a_lexical_error() {
    let err = parse_program("contract A # {}").unwrap_err();
    assert!(matches!(err.error, ZokErrorType::Lexical(_)));
}

#[test]
fn error_messages_render() {
    assert_eq!(ZokErrorType::InvalidToken.message(), "Got invalid token");
    assert_eq!(ZokErrorType::UnrecognizedToken('c').message(), "Got unexpected token");
    assert_eq!(ZokErrorType::EOF.message(), "Got parser Error");
}

#[test]
fn compiled_constant_arithmetic_evaluates() {
    let prog = parse_zok("contract A { function f() returns uint { return 2 + 3 * 4; } }").unwrap();
    let contracts: Vec<Contract> = ASTTraverser::traverse(prog).unwrap();
    assert_eq!(contracts.len(), 1);
    let op = calc_operation();
    let result = contracts[0].apply(&op);
    assert_eq!(result.finalize(), vec![14]);
}

#[test]
fn code_generation_fills_the_template() {
    let prog = parse_zok(AGE_CONTRACT).unwrap();
    let template = "head {contract_name} mid {functions} tail {circuit}".to_string();
    let rendered = VCTraverser::traverse(&prog, &template).unwrap();
    assert!(rendered.starts_with("head A mid "));
    assert!(rendered.contains("function _check"));
    assert!(rendered.contains("gt_op(input[0],IKosVariable_new_value(19))"));
    assert!(rendered.ends_with("tail check"));
}

#[test]
fn decimal_rendering_is_exact() {
    assert_eq!(dec_string_u64(0), "0");
    assert_eq!(dec_string_u64(7), "7");
    assert_eq!(dec_string_u64(1234), "1234");
    assert_eq!(dec_string_u64(u64::MAX), "18446744073709551615");
}

#[test]
fn hex_rendering_is_exact() {
    assert_eq!(hex_string(&vec![]), "");
    assert_eq!(hex_string(&vec![0x00, 0xff, 0x10, 0xab]), "00ff10ab");
}
