//! A small-step evaluator for a minimal expression language with integers,
//! booleans, conditionals, `let`, single-argument functions and application.
//!
//! [`Expression::evaluate`] rewrites an expression by exactly one step, so
//! that a caller sees every intermediate form. What a step is, is defined on
//! [`Term`], the mathematical reading of an expression: as a function by
//! [`Term::step`], and rule by rule by [`Term::reduces_to`], which agree.
//! Binding is realised by textual substitution, [`Term::subst`], which
//! [`Expression::replace`] carries out. [`Expression::to_string`] gives the
//! text of an expression, [`Term::rendering`].

pub mod names;
pub mod reduction;
pub mod relation;
pub mod rendering;
pub mod substitution;
pub mod syntax;
pub mod term;

pub use syntax::{Expression, Value};
pub use term::Term;
