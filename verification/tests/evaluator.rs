use evaluator::ast::{Expr, Literal, Program, Statement};
use evaluator::eval::Eval;
use evaluator::value::{EvalError, Value};

fn num(i: i64) -> Expr {
    Expr::Lit(Literal::Int(i))
}

fn text(s: &str) -> Expr {
    Expr::Lit(Literal::Str(s.to_string()))
}

fn ident(name: &str) -> Expr {
    Expr::Ident(name.to_string())
}

fn bin(op: char, left: Expr, right: Expr) -> Expr {
    Expr::BinOp {
        op,
        left: Box::new(left),
        right: Box::new(right),
    }
}

fn assign(target: &str, value: Expr) -> Statement {
    Statement::Assign {
        target: target.to_string(),
        value,
    }
}

fn run(program: Program) -> Result<Vec<Value>, EvalError> {
    let mut ev = Eval::new();
    ev.eval(program)
}

#[test]
fn empty_program_yields_no_values() {
    assert_eq!(run(vec![]), Ok(vec![]));
}

#[test]
fn one_value_per_statement() {
    let r = run(vec![
        assign("x", num(1)),
        Statement::Expr(num(10)),
        Statement::Expr(text("hi")),
    ]);
    assert_eq!(r.unwrap().len(), 3);
}

fn x_plus_three() -> Expr {
    bin('+', ident("x"), num(3))
}

#[test]
fn pure_expression_statement_is_repeatable() {
    let r = run(vec![
        assign("x", num(4)),
        Statement::Expr(x_plus_three()),
        Statement::Expr(x_plus_three()),
    ])
    .unwrap();
    assert_eq!(r[1], Value::Int(7));
    assert_eq!(r[1], r[2]);
}

#[test]
fn assignment_is_visible_to_later_lookup() {
    let r = run(vec![assign("x", bin('*', num(6), num(7))), Statement::Expr(ident("x"))]).unwrap();
    assert_eq!(r, vec![Value::Int(42), Value::Int(42)]);
}

#[test]
fn assignment_overwrites_previous_binding() {
    let r = run(vec![
        assign("x", num(1)),
        assign("x", num(2)),
        Statement::Expr(ident("x")),
    ])
    .unwrap();
    assert_eq!(r[2], Value::Int(2));
}

#[test]
fn assignment_yields_the_assigned_value() {
    let r = run(vec![assign("x", num(5))]).unwrap();
    assert_eq!(r, vec![Value::Int(5)]);
}

#[test]
fn power_zero_exponent_is_one_for_any_base() {
    let r = run(vec![
        Statement::Expr(bin('^', num(5), num(0))),
        Statement::Expr(bin('^', text("s"), num(0))),
    ])
    .unwrap();
    assert_eq!(r, vec![Value::Int(1), Value::Int(1)]);
}

#[test]
fn power_negative_exponent_is_one() {
    let r = run(vec![Statement::Expr(bin('^', num(2), num(-1)))]).unwrap();
    assert_eq!(r, vec![Value::Int(1)]);
}

#[test]
fn power_negative_exponent_is_one_even_for_a_string_base() {
    let r = run(vec![Statement::Expr(bin('^', text("a"), num(-1)))]).unwrap();
    assert_eq!(r, vec![Value::Int(1)]);
}

#[test]
fn default_evaluator_starts_empty() {
    let mut ev = Eval::default();
    assert_eq!(
        ev.eval(vec![Statement::Expr(ident("x"))]),
        Err(EvalError::UndefinedVariable)
    );
}

#[test]
fn power_two_cubed_is_eight() {
    let r = run(vec![Statement::Expr(bin('^', num(2), num(3)))]).unwrap();
    assert_eq!(r, vec![Value::Int(8)]);
}

#[test]
fn division_by_zero_is_fatal() {
    let r = run(vec![Statement::Expr(bin('/', num(1), num(0)))]);
    assert_eq!(r, Err(EvalError::ArithmeticError));
}

#[test]
fn remainder_by_zero_is_fatal() {
    let r = run(vec![Statement::Expr(bin('%', num(1), num(0)))]);
    assert_eq!(r, Err(EvalError::ArithmeticError));
}

#[test]
fn undefined_variable_is_fatal() {
    let r = run(vec![Statement::Expr(ident("x"))]);
    assert_eq!(r, Err(EvalError::UndefinedVariable));
}

#[test]
fn unknown_operator_is_fatal() {
    let r = run(vec![Statement::Expr(bin('&', num(1), num(2)))]);
    assert_eq!(r, Err(EvalError::UnsupportedOperator));
}

#[test]
fn string_arithmetic_is_a_kind_error() {
    assert_eq!(
        run(vec![Statement::Expr(bin('+', text("a"), num(1)))]),
        Err(EvalError::TypeMismatch)
    );
    assert_eq!(
        run(vec![Statement::Expr(bin('+', num(1), text("a")))]),
        Err(EvalError::TypeMismatch)
    );
    assert_eq!(
        run(vec![Statement::Expr(bin('+', text("a"), text("b")))]),
        Err(EvalError::TypeMismatch)
    );
}

#[test]
fn string_exponent_is_a_kind_error() {
    let r = run(vec![Statement::Expr(bin('^', num(2), text("a")))]);
    assert_eq!(r, Err(EvalError::TypeMismatch));
}

#[test]
fn string_base_with_positive_exponent_is_a_kind_error() {
    let r = run(vec![Statement::Expr(bin('^', text("a"), num(1)))]);
    assert_eq!(r, Err(EvalError::TypeMismatch));
}

#[test]
fn string_literal_evaluates_to_itself() {
    let r = run(vec![Statement::Expr(text("hello"))]).unwrap();
    assert_eq!(r, vec![Value::Str("hello".to_string())]);
}

#[test]
fn string_value_can_be_stored_and_read() {
    let r = run(vec![assign("s", text("hi")), Statement::Expr(ident("s"))]).unwrap();
    assert_eq!(r[1], Value::Str("hi".to_string()));
}

#[test]
fn end_to_end_program() {
    let r = run(vec![
        assign("x", num(2)),
        assign("y", bin('+', ident("x"), num(3))),
        Statement::Expr(ident("y")),
    ]);
    assert_eq!(r, Ok(vec![Value::Int(2), Value::Int(5), Value::Int(5)]));
}

#[test]
fn bindings_persist_across_calls() {
    let mut ev = Eval::new();
    assert_eq!(ev.eval(vec![assign("x", num(2))]), Ok(vec![Value::Int(2)]));
    assert_eq!(
        ev.eval(vec![Statement::Expr(ident("x"))]),
        Ok(vec![Value::Int(2)])
    );
}

#[test]
fn error_keeps_earlier_bindings_and_skips_later_statements() {
    let mut ev = Eval::new();
    let r = ev.eval(vec![
        assign("x", num(1)),
        Statement::Expr(bin('/', num(1), num(0))),
        assign("x", num(3)),
    ]);
    assert_eq!(r, Err(EvalError::ArithmeticError));
    let after = ev.eval(vec![Statement::Expr(ident("x"))]);
    assert_eq!(after, Ok(vec![Value::Int(1)]));
}

#[test]
fn failed_assignment_changes_no_binding() {
    let mut ev = Eval::new();
    let r = ev.eval(vec![assign("x", ident("missing"))]);
    assert_eq!(r, Err(EvalError::UndefinedVariable));
    let after = ev.eval(vec![Statement::Expr(ident("x"))]);
    assert_eq!(after, Err(EvalError::UndefinedVariable));
}

#[test]
fn left_operand_error_wins() {
    let r = run(vec![Statement::Expr(bin('+', ident("missing"), bin('/', num(1), num(0))))]);
    assert_eq!(r, Err(EvalError::UndefinedVariable));
}
