//! General laws of the evaluator, each proved once and for all inputs.

use crate::ast::{ExprModel, StatementModel};
use crate::env::EnvModel;
use crate::eval::{eval_expr_model, eval_stmt_model, eval_stmts_model};
use crate::value::{apply_binary_model, EvalError, ValueModel};
use vstd::prelude::*;

verus! {

/// A successful run yields exactly one value per statement, whatever the
/// starting bindings are.
pub proof fn lemma_eval_count(env: EnvModel, stmts: Seq<StatementModel>)
    ensures
        eval_stmts_model(env, stmts).0 matches Ok(vs) ==> vs.len() == stmts.len(),
    decreases stmts.len(),
{
    if stmts.len() > 0 {
        lemma_eval_count(env, stmts.drop_last());
    }
}

/// The variables an expression reads.
pub open spec fn free_vars(e: ExprModel) -> Set<Seq<char>>
    decreases e,
{
    match e {
        ExprModel::Ident(n) => Set::empty().insert(n),
        ExprModel::BinOp { op, left, right } => free_vars(*left).union(free_vars(*right)),
        ExprModel::Lit(_) => Set::empty(),
    }
}

/// Two environments agree on a name: both bind it to the same value, or
/// neither binds it.
pub open spec fn agrees_on(env1: EnvModel, env2: EnvModel, n: Seq<char>) -> bool {
    env1.contains_key(n) == env2.contains_key(n) && (env1.contains_key(n) ==> env1[n] == env2[n])
}

/// What an expression evaluates to depends only on the bindings of its
/// free variables: two environments that agree on them give the same
/// outcome, value or error.
pub proof fn lemma_eval_expr_frame(env1: EnvModel, env2: EnvModel, e: ExprModel)
    requires
        forall|n: Seq<char>| free_vars(e).contains(n) ==> agrees_on(env1, env2, n),
    ensures
        eval_expr_model(env1, e) == eval_expr_model(env2, e),
    decreases e,
{
    match e {
        ExprModel::Ident(n) => {
            assert(free_vars(e).contains(n));
        },
        ExprModel::BinOp { op, left, right } => {
            assert forall|n: Seq<char>| free_vars(*left).contains(n) implies agrees_on(
                env1,
                env2,
                n,
            ) by {
                assert(free_vars(e).contains(n));
            }
            assert forall|n: Seq<char>| free_vars(*right).contains(n) implies agrees_on(
                env1,
                env2,
                n,
            ) by {
                assert(free_vars(e).contains(n));
            }
            lemma_eval_expr_frame(env1, env2, *left);
            lemma_eval_expr_frame(env1, env2, *right);
        },
        ExprModel::Lit(_) => {},
    }
}

/// The statement assigns to a variable the expression reads.
pub open spec fn assigns_free_var(s: StatementModel, e: ExprModel) -> bool {
    s matches StatementModel::Assign { target, value } && free_vars(e).contains(target)
}

/// A statement that does not assign to any free variable of `e` leaves
/// what `e` evaluates to unchanged. In particular an expression statement
/// changes nothing, and an assignment only affects expressions that read
/// the assigned name.
pub proof fn lemma_unrelated_stmt_preserves_expr(env: EnvModel, e: ExprModel, s: StatementModel)
    requires
        !assigns_free_var(s, e),
    ensures
        eval_expr_model(eval_stmt_model(env, s).1, e) == eval_expr_model(env, e),
{
    let env2 = eval_stmt_model(env, s).1;
    assert forall|n: Seq<char>| free_vars(e).contains(n) implies agrees_on(env2, env, n) by {
        match s {
            StatementModel::Assign { target, value } => {
                assert(n != target);
            },
            StatementModel::Expr(_) => {},
        }
    }
    lemma_eval_expr_frame(env2, env, e);
}

/// A whole stretch of statements, none of which assigns to a free
/// variable of `e`, leaves what `e` evaluates to unchanged: an expression
/// statement is repeatable across any such stretch.
pub proof fn lemma_unrelated_stmts_preserve_expr(
    env: EnvModel,
    e: ExprModel,
    stmts: Seq<StatementModel>,
)
    requires
        forall|k: int| 0 <= k < stmts.len() ==> !assigns_free_var(#[trigger] stmts[k], e),
    ensures
        eval_expr_model(eval_stmts_model(env, stmts).1, e) == eval_expr_model(env, e),
    decreases stmts.len(),
{
    if stmts.len() > 0 {
        lemma_unrelated_stmts_preserve_expr(env, e, stmts.drop_last());
        let env1 = eval_stmts_model(env, stmts.drop_last()).1;
        lemma_unrelated_stmt_preserves_expr(env1, e, stmts.last());
    }
}

/// Running the same expression statement twice in a row yields identical
/// values, and neither run changes any binding.
pub proof fn lemma_expr_stmt_repeat(env: EnvModel, e: ExprModel)
    ensures
        ({
            let (r1, env1) = eval_stmt_model(env, StatementModel::Expr(e));
            let (r2, env2) = eval_stmt_model(env1, StatementModel::Expr(e));
            env1 == env && env2 == env && r2 == r1
        }),
{
}

/// After a successful assignment, reading the target name back yields
/// exactly the value the assignment stored.
pub proof fn lemma_assign_then_lookup(env: EnvModel, x: Seq<char>, e: ExprModel)
    ensures
        ({
            let (r, env1) = eval_stmt_model(env, StatementModel::Assign { target: x, value: e });
            r matches Ok(v) ==> eval_expr_model(env1, ExprModel::Ident(x)) == Ok::<
                ValueModel,
                EvalError,
            >(v)
        }),
{
}

/// A power with exponent zero runs zero multiplication steps: whenever the
/// base expression evaluates to any value at all, the whole power
/// expression evaluates to `Int(1)`, whatever the base's kind.
pub proof fn lemma_power_zero_exponent(env: EnvModel, base: ExprModel)
    ensures
        ({
            let e = ExprModel::BinOp {
                op: '^',
                left: Box::new(base),
                right: Box::new(ExprModel::Lit(ValueModel::Int(0))),
            };
            eval_expr_model(env, base) matches Ok(lv) ==> eval_expr_model(env, e) == Ok::<
                ValueModel,
                EvalError,
            >(ValueModel::Int(1))
        }),
{
    let e = ExprModel::BinOp {
        op: '^',
        left: Box::new(base),
        right: Box::new(ExprModel::Lit(ValueModel::Int(0))),
    };
    match eval_expr_model(env, base) {
        Ok(lv) => {
            assert(eval_expr_model(env, ExprModel::Lit(ValueModel::Int(0))) == Ok::<
                ValueModel,
                EvalError,
            >(ValueModel::Int(0)));
            assert(apply_binary_model('^', lv, ValueModel::Int(0)) == Ok::<
                ValueModel,
                EvalError,
            >(ValueModel::Int(1)));
            assert(eval_expr_model(env, e) == apply_binary_model('^', lv, ValueModel::Int(0)));
        },
        Err(_) => {},
    }
}

} // verus!
