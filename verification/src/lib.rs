//! A tree-walking evaluator for a small expression language.
//!
//! A [`Program`](ast::Program) is an ordered sequence of statements: variable
//! assignments and bare expressions over integer and string literals,
//! identifiers, and the binary operators `+ - * / % ^`. The evaluator walks
//! the statements in source order, keeps the variable bindings in an
//! environment it owns, and returns one runtime [`Value`](value::Value) per
//! statement. Every failure (an undefined variable, an unknown operator, an
//! operand kind with no arithmetic rule, a division or remainder by zero)
//! aborts the whole run with a typed [`EvalError`](value::EvalError).

pub mod ast;
pub mod env;
pub mod eval;
pub mod laws;
pub mod value;
