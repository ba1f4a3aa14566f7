use evaluator::value::{apply_binary, div_trunc, pow_value, rem_trunc, EvalError, Value};

#[test]
fn addition_subtraction_multiplication() {
    assert_eq!(
        apply_binary('+', &Value::Int(2), &Value::Int(3)),
        Ok(Value::Int(5))
    );
    assert_eq!(
        apply_binary('-', &Value::Int(7), &Value::Int(10)),
        Ok(Value::Int(-3))
    );
    assert_eq!(
        apply_binary('*', &Value::Int(6), &Value::Int(7)),
        Ok(Value::Int(42))
    );
}

#[test]
fn addition_wraps_at_the_boundary() {
    assert_eq!(
        apply_binary('+', &Value::Int(i64::MAX), &Value::Int(1)),
        Ok(Value::Int(i64::MIN))
    );
    assert_eq!(
        apply_binary('-', &Value::Int(i64::MIN), &Value::Int(1)),
        Ok(Value::Int(i64::MAX))
    );
    assert_eq!(
        apply_binary('*', &Value::Int(i64::MAX), &Value::Int(2)),
        Ok(Value::Int(-2))
    );
}

#[test]
fn division_rounds_toward_zero() {
    assert_eq!(div_trunc(7, 2), 3);
    assert_eq!(div_trunc(-7, 2), -3);
    assert_eq!(div_trunc(7, -2), -3);
    assert_eq!(div_trunc(-7, -2), 3);
}

#[test]
fn remainder_has_the_dividend_sign() {
    assert_eq!(rem_trunc(7, 2), 1);
    assert_eq!(rem_trunc(-7, 2), -1);
    assert_eq!(rem_trunc(7, -2), 1);
    assert_eq!(rem_trunc(-7, -2), -1);
}

#[test]
fn division_agrees_with_machine_division() {
    let cases: Vec<(i64, i64)> = vec![
        (7, 2),
        (-7, 2),
        (7, -2),
        (-7, -2),
        (0, 5),
        (i64::MAX, 3),
        (i64::MIN, 3),
        (i64::MIN, 1),
        (5, i64::MIN),
    ];
    for (a, b) in cases {
        assert_eq!(div_trunc(a, b), a.wrapping_div(b));
        assert_eq!(rem_trunc(a, b), a.wrapping_rem(b));
    }
}

#[test]
fn smallest_integer_divided_by_minus_one_wraps() {
    assert_eq!(div_trunc(i64::MIN, -1), i64::MIN);
    assert_eq!(rem_trunc(i64::MIN, -1), 0);
}

#[test]
fn power_multiplies_repeatedly() {
    assert_eq!(pow_value(&Value::Int(3), 4), Ok(Value::Int(81)));
    assert_eq!(pow_value(&Value::Int(-2), 3), Ok(Value::Int(-8)));
    assert_eq!(pow_value(&Value::Int(0), 0), Ok(Value::Int(1)));
}

#[test]
fn power_wraps_like_the_multiplication_it_repeats() {
    let mut by_hand: i64 = 1;
    for _ in 0..9 {
        by_hand = by_hand.wrapping_mul(i64::MAX / 3);
    }
    assert_eq!(pow_value(&Value::Int(i64::MAX / 3), 9), Ok(Value::Int(by_hand)));
}

#[test]
fn void_operands_are_a_kind_error() {
    assert_eq!(
        apply_binary('+', &Value::Void, &Value::Int(1)),
        Err(EvalError::TypeMismatch)
    );
    assert_eq!(
        apply_binary('^', &Value::Int(2), &Value::Void),
        Err(EvalError::TypeMismatch)
    );
    assert_eq!(
        apply_binary('^', &Value::Void, &Value::Int(2)),
        Err(EvalError::TypeMismatch)
    );
}

#[test]
fn unknown_operator_is_reported_as_such() {
    assert_eq!(
        apply_binary('?', &Value::Int(1), &Value::Int(2)),
        Err(EvalError::UnsupportedOperator)
    );
}
