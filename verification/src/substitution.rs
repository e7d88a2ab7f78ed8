//! Substitution: the language's only binding mechanism. It is textual and
//! does not rename binders, so a free variable of the replacement can be
//! captured by a binder of the term it is copied into.

use crate::names::same_name;
use crate::syntax::{lemma_value_is_value, Expression};
use crate::term::Term;
use vstd::prelude::*;

verus! {

impl Term {
    /// The term with `replacement` in place of every occurrence of the name
    /// `x` that substitution reaches.
    ///
    /// Both operands of `Add` and `Apply`, all three parts of `If` and the
    /// bound term of a `Let` are always entered. The body of a `Let` or of a
    /// `Function` is entered unless its binder is `x`, which shadows `x`
    /// there. A value is left as it is, the body of a function value
    /// included.
    pub open spec fn subst(self, x: Seq<char>, replacement: Term) -> Term
        decreases self,
    {
        match self {
            Term::Number(_) | Term::True | Term::False | Term::Closure(_, _) => self,
            Term::Add(a, b) => Term::Add(
                Box::new(a.subst(x, replacement)),
                Box::new(b.subst(x, replacement)),
            ),
            Term::If(c, t, f) => Term::If(
                Box::new(c.subst(x, replacement)),
                Box::new(t.subst(x, replacement)),
                Box::new(f.subst(x, replacement)),
            ),
            Term::Name(y) => if y == x {
                replacement
            } else {
                self
            },
            Term::Let(y, bound, body) => Term::Let(
                y,
                Box::new(bound.subst(x, replacement)),
                if y == x {
                    body
                } else {
                    Box::new(body.subst(x, replacement))
                },
            ),
            Term::Function(y, body) => if y == x {
                self
            } else {
                Term::Function(y, Box::new(body.subst(x, replacement)))
            },
            Term::Apply(f, a) => Term::Apply(
                Box::new(f.subst(x, replacement)),
                Box::new(a.subst(x, replacement)),
            ),
        }
    }
}

/// A `Let` that binds the substituted name shadows it: its body is left
/// untouched, while its bound term is still rewritten.
pub proof fn lemma_subst_let_shadows(x: Seq<char>, bound: Term, body: Term, replacement: Term)
    ensures
        Term::Let(x, Box::new(bound), Box::new(body)).subst(x, replacement) == Term::Let(
            x,
            Box::new(bound.subst(x, replacement)),
            Box::new(body),
        ),
{
}

/// A `Let` that binds another name is rewritten in both parts.
pub proof fn lemma_subst_let_enters(
    y: Seq<char>,
    x: Seq<char>,
    bound: Term,
    body: Term,
    replacement: Term,
)
    requires
        y != x,
    ensures
        Term::Let(y, Box::new(bound), Box::new(body)).subst(x, replacement) == Term::Let(
            y,
            Box::new(bound.subst(x, replacement)),
            Box::new(body.subst(x, replacement)),
        ),
{
}

/// A function literal whose parameter is the substituted name is left as it
/// is.
pub proof fn lemma_subst_function_shadows(x: Seq<char>, body: Term, replacement: Term)
    ensures
        Term::Function(x, Box::new(body)).subst(x, replacement) == Term::Function(
            x,
            Box::new(body),
        ),
{
}

/// Substitution never looks inside a value.
pub proof fn lemma_subst_value_unchanged(v: Term, x: Seq<char>, replacement: Term)
    requires
        v.is_value(),
    ensures
        v.subst(x, replacement) == v,
{
}

/// Substitution brings in no number that was in neither term.
pub proof fn lemma_subst_fits_i32(t: Term, x: Seq<char>, replacement: Term)
    requires
        t.fits_i32(),
        replacement.fits_i32(),
    ensures
        t.subst(x, replacement).fits_i32(),
    decreases t,
{
    match t {
        Term::Number(_) | Term::True | Term::False | Term::Closure(_, _) | Term::Name(_) => {},
        Term::Add(a, b) | Term::Apply(a, b) => {
            lemma_subst_fits_i32(*a, x, replacement);
            lemma_subst_fits_i32(*b, x, replacement);
        },
        Term::If(c, a, b) => {
            lemma_subst_fits_i32(*c, x, replacement);
            lemma_subst_fits_i32(*a, x, replacement);
            lemma_subst_fits_i32(*b, x, replacement);
        },
        Term::Let(y, bound, body) => {
            lemma_subst_fits_i32(*bound, x, replacement);
            if y != x {
                lemma_subst_fits_i32(*body, x, replacement);
            }
        },
        Term::Function(y, body) => {
            if y != x {
                lemma_subst_fits_i32(*body, x, replacement);
            }
        },
    }
}

impl Expression {
    /// Puts a copy of `replacement` in place of every occurrence of the name
    /// `x` that substitution reaches: see [`Term::subst`].
    pub fn replace(self, x: &str, replacement: &Expression) -> (result: Expression)
        ensures
            result@ == self@.subst(x@, replacement@),
        decreases self,
    {
        match self {
            Expression::Value(v) => {
                proof {
                    lemma_value_is_value(v);
                }
                Expression::Value(v)
            },
            Expression::Add(a, b) => Expression::Add(
                Box::new((*a).replace(x, replacement)),
                Box::new((*b).replace(x, replacement)),
            ),
            Expression::If(c, t, f) => Expression::If(
                Box::new((*c).replace(x, replacement)),
                Box::new((*t).replace(x, replacement)),
                Box::new((*f).replace(x, replacement)),
            ),
            Expression::Name(y) => if same_name(x, y) {
                replacement.clone()
            } else {
                Expression::Name(y)
            },
            Expression::Let(y, bound, body) => {
                let bound = Box::new((*bound).replace(x, replacement));
                if same_name(x, y) {
                    Expression::Let(y, bound, body)
                } else {
                    Expression::Let(y, bound, Box::new((*body).replace(x, replacement)))
                }
            },
            Expression::Function(y, body) => if same_name(x, y) {
                Expression::Function(y, body)
            } else {
                Expression::Function(y, Box::new((*body).replace(x, replacement)))
            },
            Expression::Apply(f, a) => Expression::Apply(
                Box::new((*f).replace(x, replacement)),
                Box::new((*a).replace(x, replacement)),
            ),
        }
    }
}

} // verus!
