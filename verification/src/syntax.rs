//! The executable data model: values and expressions as owned trees.

use crate::term::Term;
use vstd::prelude::*;

verus! {

/// A fully reduced result.
#[derive(Debug, PartialEq, Eq)]
pub enum Value {
    Number(i32),
    True,
    False,
    /// Parameter and unevaluated body. Free variables of the body are
    /// resolved by substitution when the function is applied.
    Function(&'static str, Box<Expression>),
}

/// The term language.
#[derive(Debug, PartialEq, Eq)]
pub enum Expression {
    /// An already reduced value: the final form.
    Value(Value),
    /// The sum of two expressions.
    Add(Box<Expression>, Box<Expression>),
    /// Condition, then-branch, else-branch.
    If(Box<Expression>, Box<Expression>, Box<Expression>),
    /// A reference to a variable.
    Name(&'static str),
    /// Name, bound expression, body. The binding is not recursive.
    Let(&'static str, Box<Expression>, Box<Expression>),
    /// A function literal: parameter and body.
    Function(&'static str, Box<Expression>),
    /// Callee and argument.
    Apply(Box<Expression>, Box<Expression>),
}

impl Value {
    /// The term that this value stands for.
    pub open spec fn term(self) -> Term
        decreases self,
    {
        match self {
            Value::Number(n) => Term::Number(n as int),
            Value::True => Term::True,
            Value::False => Term::False,
            Value::Function(x, body) => Term::Closure(x@, Box::new(body.term())),
        }
    }
}

impl Expression {
    /// The term that this expression stands for.
    pub open spec fn term(self) -> Term
        decreases self,
    {
        match self {
            Expression::Value(v) => v.term(),
            Expression::Add(a, b) => Term::Add(Box::new(a.term()), Box::new(b.term())),
            Expression::If(c, t, f) => Term::If(
                Box::new(c.term()),
                Box::new(t.term()),
                Box::new(f.term()),
            ),
            Expression::Name(x) => Term::Name(x@),
            Expression::Let(x, bound, body) => Term::Let(
                x@,
                Box::new(bound.term()),
                Box::new(body.term()),
            ),
            Expression::Function(x, body) => Term::Function(x@, Box::new(body.term())),
            Expression::Apply(f, a) => Term::Apply(Box::new(f.term()), Box::new(a.term())),
        }
    }
}

impl View for Value {
    type V = Term;

    open spec fn view(&self) -> Term {
        self.term()
    }
}

impl View for Expression {
    type V = Term;

    open spec fn view(&self) -> Term {
        self.term()
    }
}

/// A value reads as a fully reduced term.
pub proof fn lemma_value_is_value(v: Value)
    ensures
        v@.is_value(),
        Expression::Value(v)@ == v@,
{
}

/// An expression is fully reduced exactly when it is in `Value` form.
pub proof fn lemma_value_form(e: Expression)
    ensures
        e@.is_value() <==> e is Value,
{
    if let Expression::Value(v) = e {
        lemma_value_is_value(v);
    }
}

/// Every number of an expression is an `i32`.
pub proof fn lemma_expression_fits_i32(e: Expression)
    ensures
        e@.fits_i32(),
    decreases e,
{
    match e {
        Expression::Value(v) => {
            lemma_value_is_value(v);
            match v {
                Value::Function(x, body) => {
                    lemma_expression_fits_i32(*body);
                    assert(v@ == Term::Closure(x@, Box::new(body@)));
                },
                Value::Number(n) => {
                    assert(v@ == Term::Number(n as int));
                },
                _ => {},
            }
        },
        Expression::Add(a, b) | Expression::Apply(a, b) | Expression::Let(_, a, b) => {
            lemma_expression_fits_i32(*a);
            lemma_expression_fits_i32(*b);
        },
        Expression::If(c, t, f) => {
            lemma_expression_fits_i32(*c);
            lemma_expression_fits_i32(*t);
            lemma_expression_fits_i32(*f);
        },
        Expression::Name(_) => {},
        Expression::Function(_, body) => lemma_expression_fits_i32(*body),
    }
}

impl Clone for Value {
    /// A deep copy: the body of a function is copied with it.
    fn clone(&self) -> (r: Value)
        ensures
            r == *self,
        decreases self,
    {
        match self {
            Value::Number(n) => Value::Number(*n),
            Value::True => Value::True,
            Value::False => Value::False,
            Value::Function(x, body) => Value::Function(*x, Box::new((&**body).clone())),
        }
    }
}

impl Clone for Expression {
    /// A deep copy that shares nothing with the expression it was taken from.
    fn clone(&self) -> (r: Expression)
        ensures
            r == *self,
        decreases self,
    {
        match self {
            Expression::Value(v) => Expression::Value(v.clone()),
            Expression::Add(a, b) => Expression::Add(
                Box::new((&**a).clone()),
                Box::new((&**b).clone()),
            ),
            Expression::If(c, t, f) => Expression::If(
                Box::new((&**c).clone()),
                Box::new((&**t).clone()),
                Box::new((&**f).clone()),
            ),
            Expression::Name(x) => Expression::Name(*x),
            Expression::Let(x, bound, body) => Expression::Let(
                *x,
                Box::new((&**bound).clone()),
                Box::new((&**body).clone()),
            ),
            Expression::Function(x, body) => Expression::Function(*x, Box::new((&**body).clone())),
            Expression::Apply(f, a) => Expression::Apply(
                Box::new((&**f).clone()),
                Box::new((&**a).clone()),
            ),
        }
    }
}

} // verus!
