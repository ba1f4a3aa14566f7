//! The evaluator: walks a program statement by statement, in source order,
//! and yields one value per statement.
//!
//! The meaning of every construct is pinned down by the spec functions
//! here: [`eval_expr_model`] for expressions, [`eval_stmt_model`] for one
//! statement together with the environment it leaves behind, and
//! [`eval_stmts_model`] for a whole statement sequence. The executable
//! methods are proved to return exactly what those functions say. Any
//! error aborts the run at the statement that raised it; bindings made by
//! the statements before it are kept.

use crate::ast::{program_model, Expr, ExprModel, Program, Statement, StatementModel};
use crate::env::{Env, EnvModel};
use crate::value::{
    apply_binary, apply_binary_model, value_result_model, values_model, vec_result_model,
    EvalError, Value, ValueModel,
};
use vstd::prelude::*;

verus! {

/// What an expression evaluates to under the given bindings: a bound
/// identifier reads its value and an unbound one is an error, a literal is
/// its own value, and a binary operation evaluates the left operand, then
/// the right, then applies the operator.
pub open spec fn eval_expr_model(env: EnvModel, e: ExprModel) -> Result<ValueModel, EvalError>
    decreases e,
{
    match e {
        ExprModel::Ident(name) => if env.contains_key(name) {
            Ok(env[name])
        } else {
            Err(EvalError::UndefinedVariable)
        },
        ExprModel::Lit(v) => Ok(v),
        ExprModel::BinOp { op, left, right } => match eval_expr_model(env, *left) {
            Err(er) => Err(er),
            Ok(lv) => match eval_expr_model(env, *right) {
                Err(er) => Err(er),
                Ok(rv) => apply_binary_model(op, lv, rv),
            },
        },
    }
}

/// What one statement yields, and the bindings it leaves behind. An
/// assignment stores its expression's value under the target name and
/// yields that value; a bare expression yields its value and changes no
/// binding. A failed statement leaves the bindings as they were.
pub open spec fn eval_stmt_model(env: EnvModel, s: StatementModel) -> (Result<
    ValueModel,
    EvalError,
>, EnvModel) {
    match s {
        StatementModel::Assign { target, value } => match eval_expr_model(env, value) {
            Ok(v) => (Ok(v), env.insert(target, v)),
            Err(er) => (Err(er), env),
        },
        StatementModel::Expr(e) => (eval_expr_model(env, e), env),
    }
}

/// A statement sequence, first to last: on success, one value per
/// statement; on the first error, that error, with the bindings as the
/// failed statement left them.
pub open spec fn eval_stmts_model(env: EnvModel, stmts: Seq<StatementModel>) -> (Result<
    Seq<ValueModel>,
    EvalError,
>, EnvModel)
    decreases stmts.len(),
{
    if stmts.len() == 0 {
        (Ok(Seq::empty()), env)
    } else {
        let (rpre, env1) = eval_stmts_model(env, stmts.drop_last());
        match rpre {
            Err(er) => (Err(er), env1),
            Ok(vs) => {
                let (r, env2) = eval_stmt_model(env1, stmts.last());
                match r {
                    Ok(v) => (Ok(vs.push(v)), env2),
                    Err(er) => (Err(er), env2),
                }
            },
        }
    }
}

/// An error is final: once a prefix of the sequence has failed, the whole
/// sequence fails the same way, with the same bindings, because nothing
/// after the failed statement runs.
pub proof fn lemma_error_stops(env: EnvModel, stmts: Seq<StatementModel>, k: int)
    requires
        0 <= k <= stmts.len(),
        eval_stmts_model(env, stmts.take(k)).0 is Err,
    ensures
        eval_stmts_model(env, stmts) == eval_stmts_model(env, stmts.take(k)),
    decreases stmts.len(),
{
    if stmts.len() == k {
        assert(stmts.take(k) =~= stmts);
    } else {
        assert(stmts.drop_last().take(k) =~= stmts.take(k));
        lemma_error_stops(env, stmts.drop_last(), k);
    }
}

/// The evaluator. It owns the variable bindings, which start empty, are
/// changed only by assignments, and persist across calls on the same
/// instance.
pub struct Eval {
    env: Env,
}

impl Eval {
    /// The current bindings, as a map from name to value.
    pub closed spec fn env_model(&self) -> EnvModel {
        self.env@
    }

    /// The evaluator's internal invariant.
    pub closed spec fn wf(&self) -> bool {
        self.env.wf()
    }

    /// A fresh evaluator: no variable is bound.
    pub fn new() -> (r: Eval)
        ensures
            r.wf(),
            r.env_model() == Map::<Seq<char>, ValueModel>::empty(),
    {
        Eval { env: Env::new() }
    }

    /// Evaluates one expression against the current bindings.
    fn eval_expr(&self, e: &Expr) -> (res: Result<Value, EvalError>)
        requires
            self.wf(),
        ensures
            value_result_model(res) == eval_expr_model(self.env_model(), e@),
        decreases e,
    {
        match e {
            Expr::Ident(name) => match self.env.get(name) {
                Some(v) => Ok(v.dup()),
                None => Err(EvalError::UndefinedVariable),
            },
            Expr::Lit(l) => Ok(l.to_value()),
            Expr::BinOp { op, left, right } => {
                let lv = match self.eval_expr(&**left) {
                    Ok(v) => v,
                    Err(er) => {
                        return Err(er);
                    },
                };
                let rv = match self.eval_expr(&**right) {
                    Ok(v) => v,
                    Err(er) => {
                        return Err(er);
                    },
                };
                apply_binary(*op, &lv, &rv)
            },
        }
    }

    /// Runs one statement: evaluates it, applies its binding if it is an
    /// assignment, and yields its value.
    fn eval_stmt(&mut self, s: &Statement) -> (res: Result<Value, EvalError>)
        requires
            old(self).wf(),
        ensures
            final(self).wf(),
            ({
                let (r, em) = eval_stmt_model(old(self).env_model(), s@);
                value_result_model(res) == r && final(self).env_model() == em
            }),
    {
        match s {
            Statement::Assign { target, value } => {
                match self.eval_expr(value) {
                    Ok(v) => {
                        let stored = v.dup();
                        self.env.set(target.clone(), stored);
                        Ok(v)
                    },
                    Err(er) => Err(er),
                }
            },
            Statement::Expr(e) => self.eval_expr(e),
        }
    }

    /// Runs a program, first statement to last, and returns one value per
    /// statement. On an error the run stops at the failing statement: the
    /// error says why, no values are returned, and the bindings made by
    /// the earlier statements are kept for the next call.
    #[verifier::loop_isolation(false)]
    pub fn eval(&mut self, program: Program) -> (res: Result<Vec<Value>, EvalError>)
        requires
            old(self).wf(),
        ensures
            final(self).wf(),
            ({
                let (r, em) = eval_stmts_model(old(self).env_model(), program_model(program@));
                vec_result_model(res) == r && final(self).env_model() == em
            }),
            res matches Ok(vs) ==> vs@.len() == program@.len(),
    {
        let ghost env0: EnvModel = self.env_model();
        let ghost pm: Seq<StatementModel> = program_model(program@);
        let n = program.len();
        let mut out: Vec<Value> = Vec::new();
        let mut i: usize = 0;
        proof {
            assert(pm.take(0) =~= Seq::<StatementModel>::empty());
            assert(values_model(out@) =~= Seq::<ValueModel>::empty());
        }
        while i < n
            invariant
                self.wf(),
                i <= n,
                n == program@.len(),
                pm == program_model(program@),
                pm.len() == n,
                out@.len() == i,
                eval_stmts_model(env0, pm.take(i as int)) == (Ok::<Seq<ValueModel>, EvalError>(
                    values_model(out@),
                ), self.env_model()),
            decreases n - i,
        {
            proof {
                assert(pm.take(i + 1).drop_last() =~= pm.take(i as int));
                assert(pm.take(i + 1).last() == pm[i as int]);
            }
            let ghost prev: Seq<Value> = out@;
            match self.eval_stmt(&program[i]) {
                Ok(v) => {
                    out.push(v);
                    proof {
                        assert(values_model(out@) =~= values_model(prev).push(v@));
                    }
                },
                Err(er) => {
                    proof {
                        assert(eval_stmts_model(env0, pm.take(i + 1)) == (Err::<
                            Seq<ValueModel>,
                            EvalError,
                        >(er), self.env_model()));
                        lemma_error_stops(env0, pm, i + 1);
                    }
                    return Err(er);
                },
            }
            i = i + 1;
        }
        proof {
            assert(pm.take(n as int) =~= pm);
        }
        Ok(out)
    }
}

impl Default for Eval {
    /// The same fresh evaluator [`Eval::new`] returns.
    fn default() -> (r: Eval)
        ensures
            r.wf(),
            r.env_model() == Map::<Seq<char>, ValueModel>::empty(),
    {
        Eval::new()
    }
}

} // verus!
