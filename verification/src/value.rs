//! Runtime values and their arithmetic.
//!
//! The arithmetic rules are deliberately simple and total over the value
//! kinds the language has: the four basic operators and the remainder work
//! on two integers only (any string or void operand is a kind error), the
//! integer operations wrap at the `i64` boundary, and division or remainder
//! by zero is an arithmetic error. The power operator `^` takes its
//! right-hand side as an integer exponent (any other kind is a kind
//! error) and multiplies an accumulator that starts at `Int(1)` exactly
//! that many times, so a zero or negative exponent yields `Int(1)`
//! whatever the base is.

use vstd::arithmetic::div_mod::{
    lemma_div_nonincreasing, lemma_div_pos_is_pos, lemma_mod_decreases,
    lemma_mod_division_less_than_divisor,
};
use vstd::prelude::*;
use vstd::wrapping::i64_specs;

verus! {

/// A runtime value: the result of evaluating one expression or statement.
#[derive(Debug, PartialEq)]
pub enum Value {
    /// The uninitialized sentinel. No literal and no arithmetic result
    /// produces it; it only exists so that a binding slot has a default.
    Void,
    /// A 64-bit signed integer.
    Int(i64),
    /// An owned piece of text.
    Str(String),
}

/// The mathematical shape of a [`Value`]: text is a sequence of characters.
pub enum ValueModel {
    /// Model of [`Value::Void`].
    Void,
    /// Model of [`Value::Int`].
    Int(i64),
    /// Model of [`Value::Str`].
    Str(Seq<char>),
}

impl View for Value {
    type V = ValueModel;

    open spec fn view(&self) -> ValueModel {
        match self {
            Value::Void => ValueModel::Void,
            Value::Int(i) => ValueModel::Int(*i),
            Value::Str(s) => ValueModel::Str(s@),
        }
    }
}

impl Value {
    /// An explicit copy. The copy denotes the same model value.
    pub fn dup(&self) -> (r: Value)
        ensures
            r@ == self@,
    {
        match self {
            Value::Void => Value::Void,
            Value::Int(i) => Value::Int(*i),
            Value::Str(s) => Value::Str(s.clone()),
        }
    }
}

/// Why an evaluation run aborted. Every error is fatal to the whole run.
#[derive(Debug, Clone, Copy, PartialEq, Eq, Structural)]
pub enum EvalError {
    /// An identifier was read before any assignment bound it.
    UndefinedVariable,
    /// The operator character is not one of `+ - * / % ^`.
    UnsupportedOperator,
    /// An operand kind has no arithmetic rule (a string or void operand).
    TypeMismatch,
    /// Division or remainder by zero.
    ArithmeticError,
}

/// Lifts an evaluation outcome to the model level.
pub open spec fn value_result_model(r: Result<Value, EvalError>) -> Result<ValueModel, EvalError> {
    match r {
        Ok(v) => Ok(v@),
        Err(e) => Err(e),
    }
}

/// Lifts a sequence of values to the model level, element by element.
pub open spec fn values_model(vs: Seq<Value>) -> Seq<ValueModel> {
    vs.map_values(|v: Value| v@)
}

/// Lifts the outcome of a whole run to the model level.
pub open spec fn vec_result_model(r: Result<Vec<Value>, EvalError>) -> Result<
    Seq<ValueModel>,
    EvalError,
> {
    match r {
        Ok(vs) => Ok(values_model(vs@)),
        Err(e) => Err(e),
    }
}

/// The operators that take two integers: `+ - * / %`.
pub open spec fn is_basic_op(op: char) -> bool {
    op == '+' || op == '-' || op == '*' || op == '/' || op == '%'
}

/// Absolute value over the unbounded integers.
pub open spec fn abs_int(a: int) -> int {
    if a < 0 {
        -a
    } else {
        a
    }
}

/// Division that rounds toward zero, as the machine division does.
pub open spec fn trunc_div(a: int, b: int) -> int
    recommends
        b != 0,
{
    if (a < 0) == (b < 0) {
        abs_int(a) / abs_int(b)
    } else {
        -(abs_int(a) / abs_int(b))
    }
}

/// The remainder that matches [`trunc_div`]: its sign is the dividend's.
pub open spec fn trunc_rem(a: int, b: int) -> int
    recommends
        b != 0,
{
    if a < 0 {
        -(abs_int(a) % abs_int(b))
    } else {
        abs_int(a) % abs_int(b)
    }
}

/// `i64` division, rounding toward zero. The one quotient out of range,
/// `i64::MIN / -1`, wraps back to `i64::MIN`.
pub open spec fn div_i64(a: i64, b: i64) -> i64
    recommends
        b != 0,
{
    if trunc_div(a as int, b as int) > i64::MAX {
        i64::MIN
    } else {
        trunc_div(a as int, b as int) as i64
    }
}

/// `i64` remainder with the sign of the dividend. Always in range.
pub open spec fn rem_i64(a: i64, b: i64) -> i64
    recommends
        b != 0,
{
    trunc_rem(a as int, b as int) as i64
}

/// Multiplication over value kinds: defined on two integers (wrapping),
/// a kind error otherwise. Shared by `*` and by the power operator's steps.
pub open spec fn mul_values_model(l: ValueModel, r: ValueModel) -> Result<ValueModel, EvalError> {
    match (l, r) {
        (ValueModel::Int(a), ValueModel::Int(b)) => Ok(
            ValueModel::Int(i64_specs::wrapping_mul(a, b)),
        ),
        _ => Err(EvalError::TypeMismatch),
    }
}

/// The accumulator after `k` multiplications by `base`, starting from
/// `Int(1)`. A non-integer base fails at the first step with a kind error.
pub open spec fn pow_steps(base: ValueModel, k: nat) -> Result<ValueModel, EvalError>
    decreases k,
{
    if k == 0 {
        Ok(ValueModel::Int(1))
    } else {
        match pow_steps(base, (k - 1) as nat) {
            Ok(acc) => mul_values_model(acc, base),
            Err(e) => Err(e),
        }
    }
}

/// The power operator: repeated multiplication, `exponent` times. A zero or
/// negative exponent runs zero steps and yields `Int(1)` for any base.
pub open spec fn pow_model(base: ValueModel, exponent: i64) -> Result<ValueModel, EvalError> {
    if exponent <= 0 {
        Ok(ValueModel::Int(1))
    } else {
        pow_steps(base, exponent as nat)
    }
}

/// One binary operator applied to two already-evaluated values.
pub open spec fn apply_binary_model(op: char, l: ValueModel, r: ValueModel) -> Result<
    ValueModel,
    EvalError,
> {
    if op == '^' {
        match r {
            ValueModel::Int(e) => pow_model(l, e),
            _ => Err(EvalError::TypeMismatch),
        }
    } else if is_basic_op(op) {
        match (l, r) {
            (ValueModel::Int(a), ValueModel::Int(b)) => int_arith_model(op, a, b),
            _ => Err(EvalError::TypeMismatch),
        }
    } else {
        Err(EvalError::UnsupportedOperator)
    }
}

/// A basic operator on two integers: wrapping `+ - *`, and `/ %` that
/// reject a zero right-hand side.
pub open spec fn int_arith_model(op: char, a: i64, b: i64) -> Result<ValueModel, EvalError>
    recommends
        is_basic_op(op),
{
    if op == '+' {
        Ok(ValueModel::Int(i64_specs::wrapping_add(a, b)))
    } else if op == '-' {
        Ok(ValueModel::Int(i64_specs::wrapping_sub(a, b)))
    } else if op == '*' {
        Ok(ValueModel::Int(i64_specs::wrapping_mul(a, b)))
    } else if b == 0 {
        Err(EvalError::ArithmeticError)
    } else if op == '/' {
        Ok(ValueModel::Int(div_i64(a, b)))
    } else {
        Ok(ValueModel::Int(rem_i64(a, b)))
    }
}

/// The magnitude of an `i64`, which always fits in a `u64`.
pub fn magnitude(a: i64) -> (r: u64)
    ensures
        r as int == abs_int(a as int),
{
    if a >= 0 {
        a as u64
    } else if a == i64::MIN {
        9223372036854775808u64
    } else {
        (-a) as u64
    }
}

/// Division rounding toward zero, wrapping on `i64::MIN / -1`.
pub fn div_trunc(a: i64, b: i64) -> (r: i64)
    requires
        b != 0,
    ensures
        r == div_i64(a, b),
{
    let am: u64 = magnitude(a);
    let bm: u64 = magnitude(b);
    let q: u64 = am / bm;
    proof {
        lemma_div_pos_is_pos(am as int, bm as int);
        lemma_div_nonincreasing(am as int, bm as int);
    }
    if (a < 0) != (b < 0) {
        if q >= 9223372036854775808u64 {
            i64::MIN
        } else {
            -(q as i64)
        }
    } else {
        if q >= 9223372036854775808u64 {
            i64::MIN
        } else {
            q as i64
        }
    }
}

/// The remainder that matches [`div_trunc`]: the sign of the dividend.
pub fn rem_trunc(a: i64, b: i64) -> (r: i64)
    requires
        b != 0,
    ensures
        r == rem_i64(a, b),
{
    let am: u64 = magnitude(a);
    let bm: u64 = magnitude(b);
    let m: u64 = am % bm;
    proof {
        lemma_mod_division_less_than_divisor(am as int, bm as int);
        lemma_mod_decreases(am as nat, bm as nat);
    }
    if a < 0 {
        if m == 0 {
            0
        } else {
            -(m as i64)
        }
    } else {
        m as i64
    }
}

/// A non-integer base fails at the first multiplication step, with a kind
/// error; an integer base never fails, whatever the step count.
proof fn lemma_pow_steps_kinds(base: ValueModel, k: nat)
    ensures
        base matches ValueModel::Int(b) ==> pow_steps(base, k) matches Ok(acc) && acc is Int,
        !(base is Int) && k >= 1 ==> pow_steps(base, k) == Err::<ValueModel, EvalError>(
            EvalError::TypeMismatch,
        ),
    decreases k,
{
    if k >= 1 {
        lemma_pow_steps_kinds(base, (k - 1) as nat);
    }
}

/// The power operator on values: coerce the exponent, then multiply an
/// accumulator that starts at `Int(1)` that many times.
pub fn pow_value(base: &Value, exponent: i64) -> (res: Result<Value, EvalError>)
    ensures
        value_result_model(res) == pow_model(base@, exponent),
{
    if exponent <= 0 {
        return Ok(Value::Int(1));
    }
    match base {
        Value::Int(b0) => {
            let b: i64 = *b0;
            let mut acc: i64 = 1;
            let mut i: i64 = 0;
            while i < exponent
                invariant
                    0 <= i <= exponent,
                    base@ == ValueModel::Int(b),
                    pow_steps(base@, i as nat) == Ok::<ValueModel, EvalError>(
                        ValueModel::Int(acc),
                    ),
                decreases exponent - i,
            {
                proof {
                    assert(pow_steps(base@, (i + 1) as nat) == mul_values_model(
                        ValueModel::Int(acc),
                        base@,
                    ));
                }
                acc = acc.wrapping_mul(b);
                i = i + 1;
            }
            Ok(Value::Int(acc))
        },
        _ => {
            proof {
                lemma_pow_steps_kinds(base@, exponent as nat);
            }
            Err(EvalError::TypeMismatch)
        },
    }
}

/// One binary operator applied to two values.
pub fn apply_binary(op: char, l: &Value, r: &Value) -> (res: Result<Value, EvalError>)
    ensures
        value_result_model(res) == apply_binary_model(op, l@, r@),
{
    if op == '^' {
        match r {
            Value::Int(e) => pow_value(l, *e),
            _ => Err(EvalError::TypeMismatch),
        }
    } else if op == '+' || op == '-' || op == '*' || op == '/' || op == '%' {
        match (l, r) {
            (Value::Int(a), Value::Int(b)) => int_arith(op, *a, *b),
            _ => Err(EvalError::TypeMismatch),
        }
    } else {
        Err(EvalError::UnsupportedOperator)
    }
}

/// A basic operator on two integers.
fn int_arith(op: char, a: i64, b: i64) -> (res: Result<Value, EvalError>)
    requires
        is_basic_op(op),
    ensures
        value_result_model(res) == int_arith_model(op, a, b),
{
    if op == '+' {
        Ok(Value::Int(a.wrapping_add(b)))
    } else if op == '-' {
        Ok(Value::Int(a.wrapping_sub(b)))
    } else if op == '*' {
        Ok(Value::Int(a.wrapping_mul(b)))
    } else if b == 0 {
        Err(EvalError::ArithmeticError)
    } else if op == '/' {
        Ok(Value::Int(div_trunc(a, b)))
    } else {
        Ok(Value::Int(rem_trunc(a, b)))
    }
}

} // verus!
