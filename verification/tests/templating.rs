//! End-to-end tests of the templating pipeline: the documented scenarios,
//! every error variant, and the folding / ordering / determinism guarantees.

use rowtempl::ast::{parse, TokKind, ParseError};
use rowtempl::bytecode::{Bytecode, CompileError};
use rowtempl::compile;
use rowtempl::filter::{default_filters, Filter};
use rowtempl::num::{Num, SCALE};
use rowtempl::token::{tokenize, LexError};
use rowtempl::value::{Ty, Value};

fn env_provider() -> Vec<(Vec<u8>, Value)> {
    vec![
        (b"provider".to_vec(), Value::Str(b"john doe".to_vec())),
        (b"provider_code".to_vec(), Value::Num(Num::Fin(31 * SCALE))),
    ]
}

fn person_schema() -> Vec<(Vec<u8>, Ty)> {
    vec![
        (b"id".to_vec(), Ty::Num),
        (b"name".to_vec(), Ty::Str),
        (b"age".to_vec(), Ty::Num),
        (b"weight".to_vec(), Ty::Num),
    ]
}

/// A Person row; `weight_mantissa` counts billionths.
fn person(id: i64, name: &[u8], age: i64, weight_mantissa: i64) -> Vec<Value> {
    vec![
        Value::Num(Num::Fin(id * SCALE)),
        Value::Str(name.to_vec()),
        Value::Num(Num::Fin(age * SCALE)),
        Value::Num(Num::Fin(weight_mantissa)),
    ]
}

fn compile_text(template: &[u8]) -> Result<Bytecode, CompileError> {
    let fs: Vec<Filter> = default_filters();
    compile(&template.to_vec(), &env_provider(), &person_schema(), &fs)
}

fn render_string(bc: &Bytecode, row: &Vec<Value>) -> String {
    let mut out: Vec<u8> = Vec::new();
    bc.render(row, &mut out);
    String::from_utf8(out).unwrap()
}

#[test]
fn environment_only_template_ignores_rows() {
    let bc = compile_text(b"{{provider}} {{provider_code + 4}}").unwrap();
    let r1 = person(1, b"Bob", 49, 170_300_000_000);
    let r2 = person(2, b"Alice", 30, 150_000_000_000);
    assert_eq!(render_string(&bc, &r1), "john doe 35");
    assert_eq!(render_string(&bc, &r2), "john doe 35");
}

#[test]
fn sqrt_filter_renders_exact_root() {
    let bc = compile_text(b"{{age | sqrt}}").unwrap();
    let row = person(1, b"Bob", 49, 170_300_000_000);
    assert_eq!(render_string(&bc, &row), "7");
}

#[test]
fn division_and_round_filter() {
    let bc = compile_text(b"{{weight / 2.2 | round 2}}kg").unwrap();
    let row = person(1, b"Bob", 49, 170_300_000_000);
    // 170.3 / 2.2 = 77.4090909..., rounded to two digits.
    assert_eq!(render_string(&bc, &row), "77.41kg");
}

#[test]
fn toupper_filter_maps_ascii() {
    let bc = compile_text(b"{{name | toupper}}").unwrap();
    let row = person(1, b"Bob", 49, 170_300_000_000);
    assert_eq!(render_string(&bc, &row), "BOB");
}

#[test]
fn unknown_identifier_fails_compilation() {
    match compile_text(b"{{unknown_field}}") {
        Err(CompileError::UnknownIdentifier(name)) => {
            assert_eq!(name, b"unknown_field".to_vec());
        }
        other => panic!("expected UnknownIdentifier, got {:?}", other),
    }
}

#[test]
fn unterminated_expression_fails_lexing() {
    match compile_text(b"{{foo") {
        Err(CompileError::Lex(LexError::UnterminatedExpression { at })) => {
            assert_eq!(at, 0);
        }
        other => panic!("expected UnterminatedExpression, got {:?}", other),
    }
}

#[test]
fn invalid_character_fails_lexing() {
    match compile_text(b"{{a $}}") {
        Err(CompileError::Lex(LexError::InvalidCharacter { at })) => {
            assert_eq!(at, 4);
        }
        other => panic!("expected InvalidCharacter, got {:?}", other),
    }
}

#[test]
fn unexpected_token_fails_parsing() {
    match compile_text(b"{{age age}}") {
        Err(CompileError::Parse(ParseError::UnexpectedToken { expected, .. })) => {
            assert_eq!(expected, TokKind::CloseExpr);
        }
        other => panic!("expected UnexpectedToken, got {:?}", other),
    }
}

#[test]
fn empty_expression_fails_parsing() {
    match compile_text(b"{{}}") {
        Err(CompileError::Parse(ParseError::ExpectedExpression { .. })) => {}
        other => panic!("expected ExpectedExpression, got {:?}", other),
    }
}

#[test]
fn pipe_without_name_fails_parsing() {
    match compile_text(b"{{age | 3}}") {
        Err(CompileError::Parse(ParseError::ExpectedFilterName { .. })) => {}
        other => panic!("expected ExpectedFilterName, got {:?}", other),
    }
}

#[test]
fn unknown_filter_fails_compilation() {
    match compile_text(b"{{age | frobnicate}}") {
        Err(CompileError::UnknownFilter(name)) => {
            assert_eq!(name, b"frobnicate".to_vec());
        }
        other => panic!("expected UnknownFilter, got {:?}", other),
    }
}

#[test]
fn filter_arity_is_checked() {
    match compile_text(b"{{age | round}}") {
        Err(CompileError::FilterArityMismatch { expected, found, .. }) => {
            assert_eq!(expected, 1);
            assert_eq!(found, 0);
        }
        other => panic!("expected FilterArityMismatch, got {:?}", other),
    }
}

#[test]
fn filter_input_type_is_checked() {
    match compile_text(b"{{name | sqrt}}") {
        Err(CompileError::FilterTypeMismatch { expected, found, .. }) => {
            assert_eq!(expected, Ty::Num);
            assert_eq!(found, Ty::Str);
        }
        other => panic!("expected FilterTypeMismatch, got {:?}", other),
    }
}

#[test]
fn arithmetic_on_strings_is_rejected() {
    match compile_text(b"{{name + 1}}") {
        Err(CompileError::OperatorTypeMismatch) => {}
        other => panic!("expected OperatorTypeMismatch, got {:?}", other),
    }
}

#[test]
fn precedence_and_associativity() {
    let row = person(1, b"Bob", 49, 170_300_000_000);
    let a = compile_text(b"{{1 + 2 * 3}}").unwrap();
    assert_eq!(render_string(&a, &row), "7");
    let b = compile_text(b"{{(1 + 2) * 3}}").unwrap();
    assert_eq!(render_string(&b, &row), "9");
    let c = compile_text(b"{{10 - 3 - 4}}").unwrap();
    assert_eq!(render_string(&c, &row), "3");
}

#[test]
fn division_by_zero_follows_infinity_rules() {
    let row = person(1, b"Bob", 49, 170_300_000_000);
    let a = compile_text(b"{{1 / 0}}").unwrap();
    assert_eq!(render_string(&a, &row), "inf");
    let b = compile_text(b"{{0 - 1 / 0}}").unwrap();
    assert_eq!(render_string(&b, &row), "-inf");
    let c = compile_text(b"{{0 / 0}}").unwrap();
    assert_eq!(render_string(&c, &row), "NaN");
}

#[test]
fn numeric_formatting_strips_trailing_zeros() {
    let row = person(1, b"Bob", 49, 170_300_000_000);
    let a = compile_text(b"{{1.50}}").unwrap();
    assert_eq!(render_string(&a, &row), "1.5");
    let b = compile_text(b"{{2 | sqrt}}").unwrap();
    assert_eq!(render_string(&b, &row), "1.414213562");
}

#[test]
fn round_is_half_away_from_zero() {
    let row = person(1, b"Bob", 49, 170_300_000_000);
    let a = compile_text(b"{{2.5 | round 0}}").unwrap();
    assert_eq!(render_string(&a, &row), "3");
    let b = compile_text(b"{{0 - 2.5 | round 0}}").unwrap();
    assert_eq!(render_string(&b, &row), "-3");
}

#[test]
fn string_literals_flow_through_filters() {
    let row = person(1, b"Bob", 49, 170_300_000_000);
    let bc = compile_text(b"{{\"hi\" | toupper}}").unwrap();
    assert_eq!(render_string(&bc, &row), "HI");
}

#[test]
fn environment_shadows_row_fields() {
    // "name" exists in both tables; the Environment value wins.
    let env = vec![(b"name".to_vec(), Value::Str(b"shared".to_vec()))];
    let fs = default_filters();
    let bc = compile(&b"{{name}}".to_vec(), &env, &person_schema(), &fs).unwrap();
    let row = person(1, b"Bob", 49, 170_300_000_000);
    assert_eq!(render_string(&bc, &row), "shared");
}

#[test]
fn folding_does_not_change_output() {
    // Compile once through the full pipeline (optimizer on), once from the
    // raw parsed program (optimizer off): identical bytes for every row.
    let template = b"{{provider_code * 2}} {{weight / 2.2 | round 1}} {{name | toupper}}";
    let env = env_provider();
    let sch = person_schema();
    let fs = default_filters();
    let optimized = compile(&template.to_vec(), &env, &sch, &fs).unwrap();
    let toks = tokenize(&template.to_vec()).unwrap();
    let program = parse(&toks).unwrap();
    let unoptimized = Bytecode::from_ast(&program, &env, &sch, &fs).unwrap();
    let rows = vec![
        person(1, b"Bob", 49, 170_300_000_000),
        person(2, b"Alice", 25, 151_700_000_000),
    ];
    for row in &rows {
        assert_eq!(render_string(&optimized, row), render_string(&unoptimized, row));
    }
}

#[test]
fn batch_output_is_concatenation_in_row_order() {
    let bc = compile_text(b"{{id}}:{{name | toupper}}\n").unwrap();
    let rows = vec![
        person(1, b"ann", 20, SCALE),
        person(2, b"bea", 21, SCALE),
        person(3, b"cid", 22, SCALE),
    ];
    let mut batch: Vec<u8> = Vec::new();
    bc.render_all(&rows, &mut batch);
    let mut singles = String::new();
    for row in &rows {
        singles.push_str(&render_string(&bc, row));
    }
    assert_eq!(String::from_utf8(batch).unwrap(), singles);
    assert_eq!(singles, "1:ANN\n2:BEA\n3:CID\n");
}

#[test]
fn compilation_is_deterministic() {
    let template = b"{{provider}} {{weight / 2.2 | round 2}}kg";
    let bc1 = compile_text(template).unwrap();
    let bc2 = compile_text(template).unwrap();
    let row = person(7, b"Bob", 36, 170_300_000_000);
    assert_eq!(render_string(&bc1, &row), render_string(&bc2, &row));
}

#[test]
fn filter_stages_chain_left_to_right() {
    let bc = compile_text(b"{{age | sqrt | round 0}}").unwrap();
    let row = person(1, b"Bob", 2, SCALE);
    assert_eq!(render_string(&bc, &row), "1");
}

#[test]
fn text_and_expressions_interleave_in_source_order() {
    let bc = compile_text(b"a {{id}} b {{id + 1}} c").unwrap();
    let row = person(4, b"Bob", 49, SCALE);
    assert_eq!(render_string(&bc, &row), "a 4 b 5 c");
}
