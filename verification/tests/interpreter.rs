use boba::cache::{CacheId, CacheSpan};
use boba::engine::engine::Engine;
use boba::engine::error::RunError;
use boba::engine::value::Value;
use boba::num::BigInt;
use boba::parser::error::PError;
use boba::parser::expr::Expr;
use boba::parser::node::Node;
use boba::parser::statement::parse;
use boba::parser::token::{TokItem, Token, TokenStream};

fn sp(i: usize) -> CacheSpan {
    CacheSpan::new(CacheId(0), i..i + 1)
}

fn stream(toks: Vec<Token>) -> TokenStream {
    let n = toks.len();
    let items: Vec<TokItem> = toks
        .into_iter()
        .enumerate()
        .map(|(i, t)| Ok((t, sp(i))))
        .collect();
    TokenStream::new(CacheId(0), n, items)
}

fn run_program(toks: Vec<Token>) -> (Engine, Result<Value, RunError>) {
    let mut ts = stream(toks);
    let prog = parse(&mut ts).expect("program must parse");
    let mut engine = Engine::new();
    let mut last = Ok(Value::Nil);
    for st in &prog {
        last = engine.eval_statement(st);
        if last.is_err() {
            break;
        }
    }
    (engine, last)
}

fn eval_expr_toks(toks: Vec<Token>) -> Result<Value, RunError> {
    let mut ts = stream(toks);
    let expr = Expr::parse(&mut ts).expect("expression must parse");
    let mut engine = Engine::new();
    engine.eval(&expr)
}

fn big(v: i64) -> BigInt {
    let negative = v < 0;
    let mut m = v.unsigned_abs();
    let mut mag = Vec::new();
    while m > 0 {
        mag.push((m & 0xFF) as u8);
        m >>= 8;
    }
    BigInt { negative, mag }
}

fn int_tok(s: &str) -> Token {
    Token::Int(s.to_string())
}

fn ident(s: &str) -> Token {
    Token::Ident(s.to_string())
}

#[test]
fn let_binding_then_variable_lookup() {
    // let x = 5, then the expression x yields Int(5)
    let (mut engine, last) = run_program(vec![
        Token::Let,
        ident("x"),
        Token::Assign,
        int_tok("5"),
    ]);
    assert!(matches!(last, Ok(Value::Nil)));
    let var = Node::new(sp(9), Expr::Var("x".to_string()));
    match engine.eval(&var) {
        Ok(Value::Int(b)) => assert_eq!(b, big(5)),
        other => panic!("expected Int(5), got {:?}", other),
    }
}

#[test]
fn int_division_is_true_division() {
    // 1 / 2 is the float 0.5, not an integer
    match eval_expr_toks(vec![int_tok("1"), Token::Div, int_tok("2")]) {
        Ok(v @ Value::Float(_)) => assert_eq!(v.to_display(), "0.5"),
        other => panic!("expected Float(0.5), got {:?}", other),
    }
}

#[test]
fn power_always_promotes_to_float() {
    // 2 ** 10 is the float 1024, not an Int
    match eval_expr_toks(vec![int_tok("2"), Token::Pow, int_tok("10")]) {
        Ok(v @ Value::Float(_)) => assert_eq!(v.to_display(), "1024"),
        other => panic!("expected Float(1024), got {:?}", other),
    }
}

#[test]
fn euclidean_modulo_positive_dividend() {
    // 7 % -3 == 1
    match eval_expr_toks(vec![int_tok("7"), Token::Mod, Token::Sub, int_tok("3")]) {
        Ok(Value::Int(b)) => assert_eq!(b, big(1)),
        other => panic!("expected Int(1), got {:?}", other),
    }
}

#[test]
fn euclidean_modulo_negative_dividend() {
    // -7 % 3 == 2
    match eval_expr_toks(vec![Token::Sub, int_tok("7"), Token::Mod, int_tok("3")]) {
        Ok(Value::Int(b)) => assert_eq!(b, big(2)),
        other => panic!("expected Int(2), got {:?}", other),
    }
}

#[test]
fn string_repetition() {
    // "ab" * 3 == "ababab"
    match eval_expr_toks(vec![
        Token::String("ab".to_string()),
        Token::Mul,
        int_tok("3"),
    ]) {
        Ok(Value::String(s)) => assert_eq!(s, "ababab"),
        other => panic!("expected String, got {:?}", other),
    }
}

#[test]
fn string_repetition_negative_count_is_empty() {
    // "ab" * -1 == ""
    match eval_expr_toks(vec![
        Token::String("ab".to_string()),
        Token::Mul,
        Token::Sub,
        int_tok("1"),
    ]) {
        Ok(Value::String(s)) => assert_eq!(s, ""),
        other => panic!("expected String, got {:?}", other),
    }
}

#[test]
fn comparison_chaining_reassociates_left() {
    // 1 < 2 < 0 parses as (1 < 2) < 0, so it compares Bool with Int and fails
    match eval_expr_toks(vec![
        int_tok("1"),
        Token::Lt,
        int_tok("2"),
        Token::Lt,
        int_tok("0"),
    ]) {
        Err(RunError::InvalidBinary { vtype1, vtype2, .. }) => {
            assert_eq!(vtype1, "bool");
            assert_eq!(vtype2, "int");
        }
        other => panic!("expected InvalidBinary, got {:?}", other),
    }
}

fn define_f_of_two(toks_after: Vec<Token>) -> Vec<Token> {
    // fn f(a, b) { b }
    let mut toks = vec![
        Token::Func,
        ident("f"),
        Token::OpenParen,
        ident("a"),
        Token::Comma,
        ident("b"),
        Token::CloseParen,
        Token::OpenBrace,
        ident("b"),
        Token::CloseBrace,
    ];
    toks.extend(toks_after);
    toks
}

#[test]
fn too_many_arguments_fail_before_the_body_runs() {
    // f(1, 2, 3) on a two-parameter function: a parameter-count error, and
    // the body (which would fail on its own) never runs
    let (_, last) = run_program(define_f_of_two(vec![
        ident("f"),
        Token::OpenParen,
        int_tok("1"),
        Token::Comma,
        int_tok("2"),
        Token::Comma,
        int_tok("3"),
        Token::CloseParen,
    ]));
    match last {
        Err(RunError::ParameterCount {
            expected, found, ..
        }) => {
            assert_eq!(expected, 2);
            assert_eq!(found, 3);
        }
        other => panic!("expected ParameterCount, got {:?}", other),
    }
}

#[test]
fn fewer_arguments_leave_trailing_parameters_unbound() {
    // f(1) binds only a; the body reads b and fails with unknown-variable
    let (_, last) = run_program(define_f_of_two(vec![
        ident("f"),
        Token::OpenParen,
        int_tok("1"),
        Token::CloseParen,
    ]));
    match last {
        Err(RunError::UnknownVariable { ident, .. }) => assert_eq!(ident, "b"),
        other => panic!("expected UnknownVariable, got {:?}", other),
    }
}

#[test]
fn fewer_arguments_succeed_when_bound_parameters_suffice() {
    // fn g(a, b) { a } called as g(1)
    let (_, last) = run_program(vec![
        Token::Func,
        ident("g"),
        Token::OpenParen,
        ident("a"),
        Token::Comma,
        ident("b"),
        Token::CloseParen,
        Token::OpenBrace,
        ident("a"),
        Token::CloseBrace,
        ident("g"),
        Token::OpenParen,
        int_tok("1"),
        Token::CloseParen,
    ]);
    match last {
        Ok(Value::Int(b)) => assert_eq!(b, big(1)),
        other => panic!("expected Int(1), got {:?}", other),
    }
}

#[test]
fn no_lexical_capture_across_returned_frames() {
    // fn f() { y }; fn g() { y := 5 }; g() binds y only in g's own frame,
    // so a later f() still fails with unknown-variable
    let (_, last) = run_program(vec![
        Token::Func,
        ident("f"),
        Token::OpenParen,
        Token::CloseParen,
        Token::OpenBrace,
        ident("y"),
        Token::CloseBrace,
        Token::Func,
        ident("g"),
        Token::OpenParen,
        Token::CloseParen,
        Token::OpenBrace,
        ident("y"),
        Token::Walrus,
        int_tok("5"),
        Token::CloseBrace,
        ident("g"),
        Token::OpenParen,
        Token::CloseParen,
        ident("f"),
        Token::OpenParen,
        Token::CloseParen,
    ]);
    match last {
        Err(RunError::UnknownVariable { ident, .. }) => assert_eq!(ident, "y"),
        other => panic!("expected UnknownVariable, got {:?}", other),
    }
}

#[test]
fn ternary_short_circuits_the_untaken_branch() {
    // true ? 1 : zzz succeeds although zzz is unbound
    match eval_expr_toks(vec![
        Token::Bool(true),
        Token::Question,
        int_tok("1"),
        Token::Colon,
        ident("zzz"),
    ]) {
        Ok(Value::Int(b)) => assert_eq!(b, big(1)),
        other => panic!("expected Int(1), got {:?}", other),
    }
}

#[test]
fn ternary_condition_must_be_bool() {
    match eval_expr_toks(vec![
        int_tok("1"),
        Token::Question,
        int_tok("1"),
        Token::Colon,
        int_tok("2"),
    ]) {
        Err(RunError::TypeMismatch {
            expected, found, ..
        }) => {
            assert_eq!(expected, "bool");
            assert_eq!(found, "int");
        }
        other => panic!("expected TypeMismatch, got {:?}", other),
    }
}

#[test]
fn evaluating_a_pure_expression_twice_is_deterministic() {
    let mut engine = Engine::new();
    let mut ts1 = stream(vec![int_tok("6"), Token::Mul, int_tok("7")]);
    let e = Expr::parse(&mut ts1).unwrap();
    let a = engine.eval(&e).unwrap().to_display();
    let b = engine.eval(&e).unwrap().to_display();
    assert_eq!(a, "42");
    assert_eq!(a, b);
}

#[test]
fn pure_evaluation_leaves_bindings_alone() {
    // let x = 1, evaluate an unrelated sum, then x is still 1
    let (mut engine, _) = run_program(vec![Token::Let, ident("x"), Token::Assign, int_tok("1")]);
    let sum = {
        let mut ts = stream(vec![int_tok("2"), Token::Add, int_tok("3")]);
        Expr::parse(&mut ts).unwrap()
    };
    engine.eval(&sum).unwrap();
    let var = Node::new(sp(50), Expr::Var("x".to_string()));
    match engine.eval(&var) {
        Ok(Value::Int(b)) => assert_eq!(b, big(1)),
        other => panic!("expected Int(1), got {:?}", other),
    }
}

#[test]
fn while_loop_counts_up() {
    // let i = 0  while i < 3 { i = i + 1 }  then i == 3
    let (mut engine, last) = run_program(vec![
        Token::Let,
        ident("i"),
        Token::Assign,
        int_tok("0"),
        Token::While,
        ident("i"),
        Token::Lt,
        int_tok("3"),
        Token::OpenBrace,
        ident("i"),
        Token::Assign,
        ident("i"),
        Token::Add,
        int_tok("1"),
        Token::CloseBrace,
    ]);
    assert!(matches!(last, Ok(Value::Nil)));
    let var = Node::new(sp(60), Expr::Var("i".to_string()));
    match engine.eval(&var) {
        Ok(Value::Int(b)) => assert_eq!(b, big(3)),
        other => panic!("expected Int(3), got {:?}", other),
    }
}

#[test]
fn while_condition_must_be_bool() {
    let (_, last) = run_program(vec![
        Token::While,
        int_tok("1"),
        Token::OpenBrace,
        Token::CloseBrace,
    ]);
    match last {
        Err(RunError::TypeMismatch { expected, .. }) => assert_eq!(expected, "bool"),
        other => panic!("expected TypeMismatch, got {:?}", other),
    }
}

#[test]
fn integer_modulo_by_zero_is_reported() {
    match eval_expr_toks(vec![int_tok("1"), Token::Mod, int_tok("0")]) {
        Err(RunError::DivisionByZero { .. }) => {}
        other => panic!("expected DivisionByZero, got {:?}", other),
    }
}

#[test]
fn integer_division_by_zero_is_reported() {
    match eval_expr_toks(vec![int_tok("1"), Token::Div, int_tok("0")]) {
        Err(RunError::DivisionByZero { .. }) => {}
        other => panic!("expected DivisionByZero, got {:?}", other),
    }
}

#[test]
fn float_division_by_zero_is_reported() {
    match eval_expr_toks(vec![
        Token::UFloat("1.0".to_string()),
        Token::Div,
        Token::UFloat("0.0".to_string()),
    ]) {
        Err(RunError::DivisionByZero { .. }) => {}
        other => panic!("expected DivisionByZero, got {:?}", other),
    }
}

#[test]
fn fractional_power_of_negative_base_is_reported() {
    // (-2) ** 0.5 has no real value
    match eval_expr_toks(vec![
        Token::OpenParen,
        Token::Sub,
        int_tok("2"),
        Token::CloseParen,
        Token::Pow,
        Token::UFloat("0.5".to_string()),
    ]) {
        Err(RunError::InvalidPower { .. }) => {}
        other => panic!("expected InvalidPower, got {:?}", other),
    }
}

#[test]
fn unknown_function_is_reported() {
    match eval_expr_toks(vec![ident("nope"), Token::OpenParen, Token::CloseParen]) {
        Err(RunError::UnknownFunction { ident, .. }) => assert_eq!(ident, "nope"),
        other => panic!("expected UnknownFunction, got {:?}", other),
    }
}

#[test]
fn invalid_unary_operand_is_reported() {
    // !"x" applies logical not to a string
    match eval_expr_toks(vec![Token::Not, Token::String("x".to_string())]) {
        Err(RunError::InvalidUnary { vtype, .. }) => assert_eq!(vtype, "string"),
        other => panic!("expected InvalidUnary, got {:?}", other),
    }
}

#[test]
fn string_concatenation_displays_right_operand() {
    // "n=" + 42 and "b=" + true
    match eval_expr_toks(vec![Token::String("n=".to_string()), Token::Add, int_tok("42")]) {
        Ok(Value::String(s)) => assert_eq!(s, "n=42"),
        other => panic!("expected String, got {:?}", other),
    }
    match eval_expr_toks(vec![
        Token::String("b=".to_string()),
        Token::Add,
        Token::Bool(true),
    ]) {
        Ok(Value::String(s)) => assert_eq!(s, "b=true"),
        other => panic!("expected String, got {:?}", other),
    }
}

#[test]
fn string_ordering_is_lexicographic() {
    match eval_expr_toks(vec![
        Token::String("apple".to_string()),
        Token::Lt,
        Token::String("banana".to_string()),
    ]) {
        Ok(Value::Bool(b)) => assert!(b),
        other => panic!("expected Bool, got {:?}", other),
    }
}

#[test]
fn logical_operators_are_bool_only() {
    match eval_expr_toks(vec![Token::Bool(true), Token::And, Token::Bool(false)]) {
        Ok(Value::Bool(b)) => assert!(!b),
        other => panic!("expected Bool, got {:?}", other),
    }
    match eval_expr_toks(vec![Token::Bool(false), Token::Or, Token::Bool(true)]) {
        Ok(Value::Bool(b)) => assert!(b),
        other => panic!("expected Bool, got {:?}", other),
    }
    match eval_expr_toks(vec![int_tok("1"), Token::And, Token::Bool(true)]) {
        Err(RunError::InvalidBinary { vtype1, .. }) => assert_eq!(vtype1, "int"),
        other => panic!("expected InvalidBinary, got {:?}", other),
    }
}

#[test]
fn walrus_yields_the_assigned_value() {
    // (x := 4) + 1 == 5
    match eval_expr_toks(vec![
        Token::OpenParen,
        ident("x"),
        Token::Walrus,
        int_tok("4"),
        Token::CloseParen,
        Token::Add,
        int_tok("1"),
    ]) {
        Ok(Value::Int(b)) => assert_eq!(b, big(5)),
        other => panic!("expected Int(5), got {:?}", other),
    }
}

#[test]
fn power_chains_right_associatively() {
    // 2 ** 3 ** 2 == 2 ** (3 ** 2) == 512
    match eval_expr_toks(vec![
        int_tok("2"),
        Token::Pow,
        int_tok("3"),
        Token::Pow,
        int_tok("2"),
    ]) {
        Ok(v @ Value::Float(_)) => assert_eq!(v.to_display(), "512"),
        other => panic!("expected Float(512), got {:?}", other),
    }
}

#[test]
fn products_bind_tighter_than_sums() {
    // 1 + 2 * 3 == 7
    match eval_expr_toks(vec![
        int_tok("1"),
        Token::Add,
        int_tok("2"),
        Token::Mul,
        int_tok("3"),
    ]) {
        Ok(Value::Int(b)) => assert_eq!(b, big(7)),
        other => panic!("expected Int(7), got {:?}", other),
    }
}

#[test]
fn bool_coerces_to_integer_in_arithmetic() {
    // 5 + true == 6
    match eval_expr_toks(vec![int_tok("5"), Token::Add, Token::Bool(true)]) {
        Ok(Value::Int(b)) => assert_eq!(b, big(6)),
        other => panic!("expected Int(6), got {:?}", other),
    }
}

#[test]
fn invalid_assignment_target_is_a_parse_error() {
    let mut ts = stream(vec![int_tok("1"), Token::Assign, int_tok("2")]);
    match Expr::parse(&mut ts) {
        Err(PError::InvalidAssignment { .. }) => {}
        other => panic!("expected InvalidAssignment, got {:?}", other),
    }
}

#[test]
fn end_of_input_is_a_distinct_parse_error() {
    let mut ts = stream(vec![int_tok("1"), Token::Add]);
    match Expr::parse(&mut ts) {
        Err(PError::UnexpectedEnd { expected, .. }) => assert_eq!(expected, "expression"),
        other => panic!("expected UnexpectedEnd, got {:?}", other),
    }
}

#[test]
fn unclosed_parenthesis_is_reported_at_the_opener() {
    let mut ts = stream(vec![Token::OpenParen, int_tok("1")]);
    match Expr::parse(&mut ts) {
        Err(PError::UnclosedBrace { data }) => assert_eq!(data.start, 0),
        other => panic!("expected UnclosedBrace, got {:?}", other),
    }
}

#[test]
fn missing_ternary_colon_is_reported() {
    let mut ts = stream(vec![Token::Bool(true), Token::Question, int_tok("1")]);
    match Expr::parse(&mut ts) {
        Err(PError::UnexpectedEnd { expected, .. }) => {
            assert_eq!(expected, "ternary delimiter ':'")
        }
        other => panic!("expected UnexpectedEnd, got {:?}", other),
    }
}

#[test]
fn malformed_numeric_literal_is_reported() {
    let mut ts = stream(vec![Token::Int("12x".to_string())]);
    match Expr::parse(&mut ts) {
        Err(PError::ParseNumError { .. }) => {}
        other => panic!("expected ParseNumError, got {:?}", other),
    }
}

#[test]
fn print_builtin_accepts_any_arity_and_yields_none() {
    let (_, last) = run_program(vec![
        ident("print"),
        Token::OpenParen,
        int_tok("1"),
        Token::Comma,
        Token::String("two".to_string()),
        Token::CloseParen,
    ]);
    assert!(matches!(last, Ok(Value::Nil)));
}

#[test]
fn nested_function_definitions_vanish_with_their_frame() {
    // fn outer() { fn inner() { 1 } inner() }  — inner is reachable inside
    // outer's frame, and unknown afterwards
    let (_, last) = run_program(vec![
        Token::Func,
        ident("outer"),
        Token::OpenParen,
        Token::CloseParen,
        Token::OpenBrace,
        Token::Func,
        ident("inner"),
        Token::OpenParen,
        Token::CloseParen,
        Token::OpenBrace,
        int_tok("1"),
        Token::CloseBrace,
        ident("inner"),
        Token::OpenParen,
        Token::CloseParen,
        Token::CloseBrace,
        ident("outer"),
        Token::OpenParen,
        Token::CloseParen,
        ident("inner"),
        Token::OpenParen,
        Token::CloseParen,
    ]);
    match last {
        Err(RunError::UnknownFunction { ident, .. }) => assert_eq!(ident, "inner"),
        other => panic!("expected UnknownFunction, got {:?}", other),
    }
}

#[test]
fn tokenizer_errors_pass_through_the_parser() {
    // a stream entry that is itself an error is handed back untouched
    let items: Vec<TokItem> = vec![
        Ok((int_tok("1"), sp(0))),
        Ok((Token::Add, sp(1))),
        Err(PError::InvalidToken {
            part: "§".to_string(),
            data: sp(2),
        }),
    ];
    let mut ts = TokenStream::new(CacheId(0), 3, items);
    match Expr::parse(&mut ts) {
        Err(PError::InvalidToken { part, .. }) => assert_eq!(part, "§"),
        other => panic!("expected InvalidToken, got {:?}", other),
    }
}

#[test]
fn mixed_numeric_comparison_promotes_the_integer() {
    // 1 < 1.5
    match eval_expr_toks(vec![
        int_tok("1"),
        Token::Lt,
        Token::UFloat("1.5".to_string()),
    ]) {
        Ok(Value::Bool(b)) => assert!(b),
        other => panic!("expected Bool(true), got {:?}", other),
    }
}

#[test]
fn integer_modulo_by_float_is_a_float() {
    // 7 % 2.5 is the decimal 2
    match eval_expr_toks(vec![
        int_tok("7"),
        Token::Mod,
        Token::UFloat("2.5".to_string()),
    ]) {
        Ok(v @ Value::Float(_)) => assert_eq!(v.to_display(), "2"),
        other => panic!("expected Float, got {:?}", other),
    }
}

#[test]
fn zero_to_a_negative_power_is_reported() {
    // 0 ** -1 has no finite value
    match eval_expr_toks(vec![int_tok("0"), Token::Pow, Token::Sub, int_tok("1")]) {
        Err(RunError::InvalidPower { .. }) => {}
        other => panic!("expected InvalidPower, got {:?}", other),
    }
}

#[test]
fn rounded_division_is_reproducible() {
    let mut engine = Engine::new();
    let mut ts = stream(vec![int_tok("1"), Token::Div, int_tok("3")]);
    let e = Expr::parse(&mut ts).unwrap();
    let a = engine.eval(&e).unwrap().to_display();
    let b = engine.eval(&e).unwrap().to_display();
    assert_eq!(a, b);
}

#[test]
fn string_equality_and_inequality() {
    match eval_expr_toks(vec![
        Token::String("x".to_string()),
        Token::Eq,
        Token::String("x".to_string()),
    ]) {
        Ok(Value::Bool(b)) => assert!(b),
        other => panic!("expected Bool, got {:?}", other),
    }
    match eval_expr_toks(vec![
        Token::String("x".to_string()),
        Token::NEq,
        Token::String("y".to_string()),
    ]) {
        Ok(Value::Bool(b)) => assert!(b),
        other => panic!("expected Bool, got {:?}", other),
    }
}

#[test]
fn cross_family_comparison_is_rejected() {
    // "x" == 1 is not defined
    match eval_expr_toks(vec![Token::String("x".to_string()), Token::Eq, int_tok("1")]) {
        Err(RunError::InvalidBinary { vtype1, vtype2, .. }) => {
            assert_eq!(vtype1, "string");
            assert_eq!(vtype2, "int");
        }
        other => panic!("expected InvalidBinary, got {:?}", other),
    }
}

#[test]
fn assignment_statement_binds_like_let() {
    // x = 2 at the top level, then x * 2 == 4
    let (mut engine, last) = run_program(vec![ident("x"), Token::Assign, int_tok("2")]);
    assert!(matches!(last, Ok(Value::Nil)));
    let mut ts = stream(vec![ident("x"), Token::Mul, int_tok("2")]);
    let e = Expr::parse(&mut ts).unwrap();
    match engine.eval(&e) {
        Ok(Value::Int(b)) => assert_eq!(b, big(4)),
        other => panic!("expected Int(4), got {:?}", other),
    }
}

#[test]
fn function_result_is_the_last_statement_value() {
    // fn h() { let t = 2  t + 3 }  then h() == 5
    let (_, last) = run_program(vec![
        Token::Func,
        ident("h"),
        Token::OpenParen,
        Token::CloseParen,
        Token::OpenBrace,
        Token::Let,
        ident("t"),
        Token::Assign,
        int_tok("2"),
        ident("t"),
        Token::Add,
        int_tok("3"),
        Token::CloseBrace,
        ident("h"),
        Token::OpenParen,
        Token::CloseParen,
    ]);
    match last {
        Ok(Value::Int(b)) => assert_eq!(b, big(5)),
        other => panic!("expected Int(5), got {:?}", other),
    }
}

#[test]
fn unary_minus_binds_tighter_than_power() {
    // -2 ** 2 parses as (-2) ** 2, which is 4
    match eval_expr_toks(vec![Token::Sub, int_tok("2"), Token::Pow, int_tok("2")]) {
        Ok(v @ Value::Float(_)) => assert_eq!(v.to_display(), "4"),
        other => panic!("expected Float(4), got {:?}", other),
    }
}

#[test]
fn repeated_squaring_overflows_to_an_error() {
    // x = 10.0 squared in a loop drives the decimal exponent past the
    // representable range; the saturation surfaces as an overflow error
    // instead of a fault
    let (_, last) = run_program(vec![
        Token::Let,
        ident("x"),
        Token::Assign,
        Token::UFloat("10.0".to_string()),
        Token::Let,
        ident("i"),
        Token::Assign,
        int_tok("0"),
        Token::While,
        ident("i"),
        Token::Lt,
        int_tok("100"),
        Token::OpenBrace,
        ident("x"),
        Token::Assign,
        ident("x"),
        Token::Mul,
        ident("x"),
        ident("i"),
        Token::Assign,
        ident("i"),
        Token::Add,
        int_tok("1"),
        Token::CloseBrace,
    ]);
    match last {
        Err(RunError::Overflow { .. }) => {}
        other => panic!("expected Overflow, got {:?}", other),
    }
}
