//! The mathematical reading of the language: terms over unbounded integers
//! and names that are sequences of characters.

use vstd::prelude::*;

verus! {

/// A term of the language. The first four variants are the values: terms that
/// are fully reduced.
pub enum Term {
    /// An integer.
    Number(int),
    True,
    False,
    /// A function value: its parameter and its body. It carries no
    /// environment.
    Closure(Seq<char>, Box<Term>),
    /// The sum of two terms.
    Add(Box<Term>, Box<Term>),
    /// Condition, branch taken on `True`, branch taken on `False`.
    If(Box<Term>, Box<Term>, Box<Term>),
    /// A reference to a variable.
    Name(Seq<char>),
    /// `Let(x, bound, body)` binds `x` to `bound` in `body`.
    Let(Seq<char>, Box<Term>, Box<Term>),
    /// A function literal, not yet a value.
    Function(Seq<char>, Box<Term>),
    /// `Apply(callee, argument)`.
    Apply(Box<Term>, Box<Term>),
}

impl Term {
    /// Whether the term is fully reduced.
    pub open spec fn is_value(self) -> bool {
        self is Number || self is True || self is False || self is Closure
    }

    /// Whether every number in the term, at any depth, is an `i32`.
    pub open spec fn fits_i32(self) -> bool
        decreases self,
    {
        match self {
            Term::Number(n) => i32::MIN <= n <= i32::MAX,
            Term::True | Term::False | Term::Name(_) => true,
            Term::Closure(_, body) | Term::Function(_, body) => body.fits_i32(),
            Term::Add(a, b) | Term::Apply(a, b) | Term::Let(_, a, b) => a.fits_i32()
                && b.fits_i32(),
            Term::If(c, t, f) => c.fits_i32() && t.fits_i32() && f.fits_i32(),
        }
    }
}

} // verus!
