//! The abstract syntax the evaluator consumes.
//!
//! A program arrives already parsed: an ordered sequence of statements,
//! each either an assignment or a bare expression. Expressions are
//! identifiers, binary operator applications, and literals. The types here
//! only describe shape; what they mean is defined by the evaluator.

use crate::value::{Value, ValueModel};
use vstd::prelude::*;

verus! {

/// A literal as it appears in an expression.
pub enum Literal {
    /// An integer literal.
    Int(i64),
    /// A string literal.
    Str(String),
}

/// An expression.
pub enum Expr {
    /// A variable read.
    Ident(String),
    /// A binary operator applied to two sub-expressions.
    BinOp {
        /// The operator character; `+ - * / % ^` are the recognized ones.
        op: char,
        /// The left operand, evaluated first.
        left: Box<Expr>,
        /// The right operand, evaluated second.
        right: Box<Expr>,
    },
    /// A literal.
    Lit(Literal),
}

/// A top-level statement.
pub enum Statement {
    /// Bind the value of `value` to the name `target`, creating or
    /// overwriting the binding; the statement's own result is that value.
    Assign {
        /// The name being bound.
        target: String,
        /// The expression whose value is stored.
        value: Expr,
    },
    /// Evaluate an expression for its value alone; no binding changes.
    Expr(Expr),
}

/// A program: statements in source order, evaluated top to bottom.
pub type Program = Vec<Statement>;

/// The mathematical shape of an [`Expr`].
pub enum ExprModel {
    /// Model of [`Expr::Ident`].
    Ident(Seq<char>),
    /// Model of [`Expr::BinOp`].
    BinOp {
        /// The operator character.
        op: char,
        /// The left operand.
        left: Box<ExprModel>,
        /// The right operand.
        right: Box<ExprModel>,
    },
    /// Model of [`Expr::Lit`], as the value the literal denotes.
    Lit(ValueModel),
}

/// The mathematical shape of a [`Statement`].
pub enum StatementModel {
    /// Model of [`Statement::Assign`].
    Assign {
        /// The name being bound.
        target: Seq<char>,
        /// The expression whose value is stored.
        value: ExprModel,
    },
    /// Model of [`Statement::Expr`].
    Expr(ExprModel),
}

/// The value a literal denotes: the same integer, the same text. A literal
/// never denotes the void value.
pub open spec fn literal_model(l: Literal) -> ValueModel {
    match l {
        Literal::Int(i) => ValueModel::Int(i),
        Literal::Str(s) => ValueModel::Str(s@),
    }
}

/// The model of an expression.
pub open spec fn expr_model(e: Expr) -> ExprModel
    decreases e,
{
    match e {
        Expr::Ident(name) => ExprModel::Ident(name@),
        Expr::BinOp { op, left, right } => ExprModel::BinOp {
            op,
            left: Box::new(expr_model(*left)),
            right: Box::new(expr_model(*right)),
        },
        Expr::Lit(l) => ExprModel::Lit(literal_model(l)),
    }
}

impl View for Expr {
    type V = ExprModel;

    open spec fn view(&self) -> ExprModel {
        expr_model(*self)
    }
}

impl View for Statement {
    type V = StatementModel;

    open spec fn view(&self) -> StatementModel {
        match *self {
            Statement::Assign { target, value } => StatementModel::Assign {
                target: target@,
                value: expr_model(value),
            },
            Statement::Expr(e) => StatementModel::Expr(expr_model(e)),
        }
    }
}

/// The model of a whole program, statement by statement.
pub open spec fn program_model(p: Seq<Statement>) -> Seq<StatementModel> {
    p.map_values(|s: Statement| s@)
}

impl Literal {
    /// The runtime value of a literal: the mapping is direct, with no
    /// conversion between kinds.
    pub fn to_value(&self) -> (v: Value)
        ensures
            v@ == literal_model(*self),
    {
        match self {
            Literal::Int(i) => Value::Int(*i),
            Literal::Str(s) => Value::Str(s.clone()),
        }
    }
}

} // verus!
