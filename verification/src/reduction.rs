//! One-step reduction. The order is fixed: the left operand of a sum before
//! the right one, the condition of an `If` and never its branches, the callee
//! of an application and never its argument. Bound terms and arguments are
//! substituted unevaluated.

use crate::substitution::lemma_subst_fits_i32;
use crate::syntax::{lemma_expression_fits_i32, lemma_value_form, lemma_value_is_value};
use crate::syntax::{Expression, Value};
use crate::term::Term;
use vstd::prelude::*;

verus! {

impl Term {
    /// The term after exactly one rewrite step, or `None` where the term is
    /// stuck: a sum with an operand that is a value but no number, a
    /// condition that is a value but no boolean, an application of a value
    /// that is no function, a name that nothing has bound, or a term whose
    /// next subterm to reduce is stuck. A value steps to itself.
    pub open spec fn step(self) -> Option<Term>
        decreases self,
    {
        match self {
            Term::Number(_) | Term::True | Term::False | Term::Closure(_, _) => Some(self),
            Term::Add(left, right) => match (*left, *right) {
                (Term::Number(a), Term::Number(b)) => Some(Term::Number(a + b)),
                (Term::Number(_), _) => if right.is_value() {
                    None
                } else {
                    match right.step() {
                        Some(next) => Some(Term::Add(left, Box::new(next))),
                        None => None,
                    }
                },
                _ => if left.is_value() {
                    None
                } else {
                    match left.step() {
                        Some(next) => Some(Term::Add(Box::new(next), right)),
                        None => None,
                    }
                },
            },
            Term::If(condition, taken, other) => match *condition {
                Term::True => Some(*taken),
                Term::False => Some(*other),
                _ => if condition.is_value() {
                    None
                } else {
                    match condition.step() {
                        Some(next) => Some(Term::If(Box::new(next), taken, other)),
                        None => None,
                    }
                },
            },
            Term::Name(_) => None,
            Term::Let(x, bound, body) => Some(body.subst(x, *bound)),
            Term::Function(x, body) => Some(Term::Closure(x, body)),
            Term::Apply(callee, argument) => match *callee {
                Term::Closure(x, body) => Some(body.subst(x, *argument)),
                _ => if callee.is_value() {
                    None
                } else {
                    match callee.step() {
                        Some(next) => Some(Term::Apply(Box::new(next), argument)),
                        None => None,
                    }
                },
            },
        }
    }

    /// Whether the step, where there is one, yields a term whose numbers are
    /// all `i32`.
    pub open spec fn step_fits_i32(self) -> bool {
        self.step() matches Some(next) ==> next.fits_i32()
    }
}

/// A step is a function of the term alone: whatever one step makes of two
/// expressions that read as the same term, it either fails on both or yields
/// expressions that again read as the same term.
pub proof fn lemma_step_deterministic(
    a: Expression,
    b: Expression,
    first: Option<Expression>,
    second: Option<Expression>,
)
    requires
        a@ == b@,
        a.steps_to(first),
        b.steps_to(second),
    ensures
        first is None <==> second is None,
        first is Some ==> first->Some_0@ == second->Some_0@,
{
}

/// A fully reduced term is never rewritten: it steps to itself.
pub proof fn lemma_value_is_final(v: Term)
    requires
        v.is_value(),
    ensures
        v.step() == Some(v),
{
}

/// A name that nothing has bound is stuck.
pub proof fn lemma_free_name_is_stuck(x: Seq<char>)
    ensures
        Term::Name(x).step() is None,
{
}

/// While the left operand of a sum is not a value, a step works on it alone,
/// whatever the right operand is, and fails where the left operand is stuck.
pub proof fn lemma_sum_reduces_left_first(left: Term, right: Term)
    requires
        !left.is_value(),
    ensures
        Term::Add(Box::new(left), Box::new(right)).step() == match left.step() {
            Some(next) => Some(Term::Add(Box::new(next), Box::new(right))),
            None => None,
        },
{
}

/// Once the left operand of a sum is a number, a step works on the right
/// operand until that is a value too.
pub proof fn lemma_sum_reduces_right_second(a: int, right: Term)
    requires
        !right.is_value(),
    ensures
        Term::Add(Box::new(Term::Number(a)), Box::new(right)).step() == match right.step() {
            Some(next) => Some(Term::Add(Box::new(Term::Number(a)), Box::new(next))),
            None => None,
        },
{
}

/// A step never rewrites a branch of an `If`: it works on the condition
/// until that is a value, and then hands out the chosen branch as it stands.
pub proof fn lemma_branches_are_lazy(condition: Term, taken: Term, other: Term)
    ensures
        Term::If(Box::new(condition), Box::new(taken), Box::new(other)).step() == (
        if condition is True {
            Some(taken)
        } else if condition is False {
            Some(other)
        } else if condition.is_value() {
            None
        } else {
            match condition.step() {
                Some(next) => Some(Term::If(Box::new(next), Box::new(taken), Box::new(other))),
                None => None,
            }
        }),
{
}

/// A step never rewrites the argument of an application: it works on the
/// callee until that is a value, and then substitutes the argument as it
/// stands.
pub proof fn lemma_arguments_are_lazy(callee: Term, argument: Term)
    ensures
        Term::Apply(Box::new(callee), Box::new(argument)).step() == (match callee {
            Term::Closure(x, body) => Some(body.subst(x, argument)),
            _ => if callee.is_value() {
                None
            } else {
                match callee.step() {
                    Some(next) => Some(Term::Apply(Box::new(next), Box::new(argument))),
                    None => None,
                }
            },
        }),
{
}

/// A `Let` whose body is the bound name steps to the bound term, unreduced,
/// and with its own occurrences of that name left alone.
pub proof fn lemma_let_of_its_own_name(x: Seq<char>, bound: Term)
    ensures
        Term::Let(x, Box::new(bound), Box::new(Term::Name(x))).step() == Some(bound),
{
}


impl Expression {
    /// Whether `outcome` is what one step makes of this expression: the next
    /// expression where the term steps, nothing where it is stuck.
    pub open spec fn steps_to(self, outcome: Option<Expression>) -> bool {
        match outcome {
            Some(next) => self@.step() == Some(next@),
            None => self@.step() is None,
        }
    }

    /// Whether the next step can be taken in `i32`: false only where that
    /// step adds two numbers whose sum is out of range.
    pub fn step_fits(&self) -> (fits: bool)
        ensures
            fits == self@.step_fits_i32(),
        decreases self,
    {
        proof {
            lemma_expression_fits_i32(*self);
        }
        match self {
            Expression::Add(left, right) => match &**left {
                Expression::Value(l) => {
                    proof {
                        lemma_value_is_value(*l);
                    }
                    match l {
                        Value::Number(a) => match &**right {
                            Expression::Value(r) => {
                                proof {
                                    lemma_value_is_value(*r);
                                }
                                match r {
                                    Value::Number(b) => {
                                        let sum: i64 = *a as i64 + *b as i64;
                                        -2147483648 <= sum && sum <= 2147483647
                                    },
                                    _ => true,
                                }
                            },
                            reducible => {
                                proof {
                                    lemma_value_form(*reducible);
                                }
                                reducible.step_fits()
                            },
                        },
                        _ => true,
                    }
                },
                reducible => {
                    proof {
                        lemma_value_form(*reducible);
                    }
                    reducible.step_fits()
                },
            },
            Expression::If(condition, _, _) => match &**condition {
                Expression::Value(c) => {
                    proof {
                        lemma_value_is_value(*c);
                    }
                    true
                },
                reducible => {
                    proof {
                        lemma_value_form(*reducible);
                    }
                    reducible.step_fits()
                },
            },
            Expression::Apply(callee, argument) => match &**callee {
                Expression::Value(f) => {
                    proof {
                        lemma_value_is_value(*f);
                        if let Value::Function(x, body) = f {
                            lemma_expression_fits_i32(**body);
                            lemma_expression_fits_i32(**argument);
                            lemma_subst_fits_i32(body@, x@, argument@);
                        }
                    }
                    true
                },
                reducible => {
                    proof {
                        lemma_value_form(*reducible);
                    }
                    reducible.step_fits()
                },
            },
            Expression::Let(x, bound, body) => {
                proof {
                    lemma_expression_fits_i32(**body);
                    lemma_expression_fits_i32(**bound);
                    lemma_subst_fits_i32(body@, x@, bound@);
                }
                true
            },
            Expression::Value(v) => {
                proof {
                    lemma_value_is_value(*v);
                }
                true
            },
            Expression::Name(_) => true,
            Expression::Function(_, _) => true,
        }
    }

    /// Rewrites the expression by exactly one step: see [`Term::step`]. An
    /// expression in `Value` form comes back unchanged; `None` says that the
    /// expression is stuck.
    ///
    /// A sum that the step computes has to be an `i32`, which
    /// [`Expression::step_fits`] tells beforehand.
    pub fn evaluate(self) -> (outcome: Option<Expression>)
        requires
            self@.step_fits_i32(),
        ensures
            self.steps_to(outcome),
            self is Value ==> outcome == Some(self),
        decreases self,
    {
        match self {
            Expression::Value(v) => {
                proof {
                    lemma_value_is_value(v);
                }
                Some(Expression::Value(v))
            },
            Expression::Add(left, right) => match *left {
                Expression::Value(l) => {
                    proof {
                        lemma_value_is_value(l);
                    }
                    match l {
                        Value::Number(a) => match *right {
                            Expression::Value(r) => {
                                proof {
                                    lemma_value_is_value(r);
                                }
                                match r {
                                    Value::Number(b) => {
                                        let sum = Value::Number(a + b);
                                        proof {
                                            lemma_value_is_value(sum);
                                        }
                                        Some(Expression::Value(sum))
                                    },
                                    _ => None,
                                }
                            },
                            reducible => {
                                proof {
                                    lemma_value_form(reducible);
                                }
                                match reducible.evaluate() {
                                    Some(next) => Some(
                                        Expression::Add(
                                            Box::new(Expression::Value(Value::Number(a))),
                                            Box::new(next),
                                        ),
                                    ),
                                    None => None,
                                }
                            },
                        },
                        _ => None,
                    }
                },
                reducible => {
                    proof {
                        lemma_value_form(reducible);
                    }
                    match reducible.evaluate() {
                        Some(next) => Some(Expression::Add(Box::new(next), right)),
                        None => None,
                    }
                },
            },
            Expression::If(condition, taken, other) => match *condition {
                Expression::Value(c) => {
                    proof {
                        lemma_value_is_value(c);
                    }
                    match c {
                        Value::True => Some(*taken),
                        Value::False => Some(*other),
                        _ => None,
                    }
                },
                reducible => {
                    proof {
                        lemma_value_form(reducible);
                    }
                    match reducible.evaluate() {
                        Some(next) => Some(Expression::If(Box::new(next), taken, other)),
                        None => None,
                    }
                },
            },
            Expression::Name(_) => None,
            Expression::Let(x, bound, body) => Some((*body).replace(x, &*bound)),
            Expression::Function(x, body) => {
                let closure = Value::Function(x, body);
                proof {
                    lemma_value_is_value(closure);
                }
                Some(Expression::Value(closure))
            },
            Expression::Apply(callee, argument) => match *callee {
                Expression::Value(f) => {
                    proof {
                        lemma_value_is_value(f);
                    }
                    match f {
                        Value::Function(x, body) => Some((*body).replace(x, &*argument)),
                        _ => None,
                    }
                },
                reducible => {
                    proof {
                        lemma_value_form(reducible);
                    }
                    match reducible.evaluate() {
                        Some(next) => Some(Expression::Apply(Box::new(next), argument)),
                        None => None,
                    }
                },
            },
        }
    }
}

} // verus!
