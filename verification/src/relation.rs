//! Reduction as a relation, one clause per rule, and its agreement with
//! [`Term::step`]. No rule applies to a value or to a bare name; at most one
//! applies to any other term.

use crate::term::Term;
use vstd::prelude::*;

verus! {

impl Term {
    /// Whether some rule rewrites this term to `next` in one step.
    pub open spec fn reduces_to(self, next: Term) -> bool
        decreases self,
    {
        match self {
            Term::Add(left, right) => {
                ||| {
                    &&& *left matches Term::Number(a)
                    &&& *right matches Term::Number(b)
                    &&& next == Term::Number(a + b)
                }
                ||| {
                    &&& *left is Number
                    &&& !right.is_value()
                    &&& next matches Term::Add(same, reduced)
                    &&& same == left
                    &&& right.reduces_to(*reduced)
                }
                ||| {
                    &&& !left.is_value()
                    &&& next matches Term::Add(reduced, same)
                    &&& left.reduces_to(*reduced)
                    &&& same == right
                }
            },
            Term::If(condition, taken, other) => {
                ||| *condition is True && next == *taken
                ||| *condition is False && next == *other
                ||| {
                    &&& !condition.is_value()
                    &&& next matches Term::If(reduced, first, second)
                    &&& condition.reduces_to(*reduced)
                    &&& first == taken
                    &&& second == other
                }
            },
            Term::Let(x, bound, body) => next == body.subst(x, *bound),
            Term::Function(x, body) => next == Term::Closure(x, body),
            Term::Apply(callee, argument) => {
                ||| {
                    &&& *callee matches Term::Closure(x, body)
                    &&& next == body.subst(x, *argument)
                }
                ||| {
                    &&& !callee.is_value()
                    &&& next matches Term::Apply(reduced, same)
                    &&& callee.reduces_to(*reduced)
                    &&& same == argument
                }
            },
            Term::Number(_) | Term::True | Term::False | Term::Closure(_, _) | Term::Name(_) => false,
        }
    }
}

/// On a term that is not a value, `step` yields `next` exactly when a rule
/// rewrites the term to `next`; no rule rewrites a value.
pub proof fn lemma_step_follows_the_rules(t: Term, next: Term)
    ensures
        t.reduces_to(next) <==> !t.is_value() && t.step() == Some(next),
    decreases t,
{
    match t {
        Term::Add(left, right) => {
            if let Term::Add(l, r) = next {
                lemma_step_follows_the_rules(*left, *l);
                lemma_step_follows_the_rules(*right, *r);
            }
        },
        Term::If(condition, _, _) => {
            if let Term::If(c, _, _) = next {
                lemma_step_follows_the_rules(*condition, *c);
            }
        },
        Term::Apply(callee, _) => {
            if let Term::Apply(c, _) = next {
                lemma_step_follows_the_rules(*callee, *c);
            }
        },
        _ => {},
    }
}

/// A term is stuck exactly when it is not a value and no rule rewrites it.
pub proof fn lemma_stuck_means_no_rule(t: Term)
    ensures
        t.step() is None <==> !t.is_value() && forall|next: Term| !t.reduces_to(next),
{
    if t.step() is None {
        assert forall|next: Term| !t.reduces_to(next) by {
            lemma_step_follows_the_rules(t, next);
        }
    } else {
        lemma_step_follows_the_rules(t, t.step()->Some_0);
    }
}

/// Reduction is deterministic: a term reduces to at most one term.
pub proof fn lemma_reduction_is_deterministic(t: Term, first: Term, second: Term)
    requires
        t.reduces_to(first),
        t.reduces_to(second),
    ensures
        first == second,
{
    lemma_step_follows_the_rules(t, first);
    lemma_step_follows_the_rules(t, second);
}

} // verus!
