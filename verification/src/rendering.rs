//! The canonical text of values and expressions: an infix form with every
//! compound expression in parentheses. It is meant to be read, not parsed.

use crate::syntax::{lemma_value_is_value, Expression, Value};
use crate::term::Term;
use vstd::prelude::*;
use vstd::string::StringExecFns;

verus! {

/// The character of a decimal digit.
pub open spec fn digit(d: int) -> char {
    if d == 0 {
        '0'
    } else if d == 1 {
        '1'
    } else if d == 2 {
        '2'
    } else if d == 3 {
        '3'
    } else if d == 4 {
        '4'
    } else if d == 5 {
        '5'
    } else if d == 6 {
        '6'
    } else if d == 7 {
        '7'
    } else if d == 8 {
        '8'
    } else {
        '9'
    }
}

/// The decimal digits of a natural number, most significant first, without
/// leading zeros.
pub open spec fn digits(n: nat) -> Seq<char>
    decreases n,
{
    if n < 10 {
        seq![digit(n as int)]
    } else {
        digits(n / 10).push(digit((n % 10) as int))
    }
}

/// An integer in decimal, with a minus sign where it is negative.
pub open spec fn decimal(n: int) -> Seq<char> {
    if n < 0 {
        seq!['-'] + digits((-n) as nat)
    } else {
        digits(n as nat)
    }
}

impl Term {
    /// The text of the term. A function value shows as an opaque token.
    pub open spec fn rendering(self) -> Seq<char>
        decreases self,
    {
        match self {
            Term::Number(n) => decimal(n),
            Term::True => "true"@,
            Term::False => "false"@,
            Term::Closure(_, _) => "<function>"@,
            Term::Add(a, b) => "("@ + a.rendering() + " + "@ + b.rendering() + ")"@,
            Term::If(c, t, f) => "(if "@ + c.rendering() + " then "@ + t.rendering() + " else "@
                + f.rendering() + ")"@,
            Term::Name(x) => x,
            Term::Let(x, bound, body) => "(let "@ + x + " = "@ + bound.rendering() + " in "@
                + body.rendering() + ")"@,
            Term::Function(x, body) => "("@ + x + " -> "@ + body.rendering() + ")"@,
            Term::Apply(f, a) => "("@ + f.rendering() + " "@ + a.rendering() + ")"@,
        }
    }
}

/// The one-character text of a decimal digit.
fn digit_text(d: u32) -> (text: &'static str)
    requires
        d < 10,
    ensures
        text@ == seq![digit(d as int)],
{
    proof {
        reveal_strlit("0");
        reveal_strlit("1");
        reveal_strlit("2");
        reveal_strlit("3");
        reveal_strlit("4");
        reveal_strlit("5");
        reveal_strlit("6");
        reveal_strlit("7");
        reveal_strlit("8");
        reveal_strlit("9");
    }
    let text = if d == 0 {
        "0"
    } else if d == 1 {
        "1"
    } else if d == 2 {
        "2"
    } else if d == 3 {
        "3"
    } else if d == 4 {
        "4"
    } else if d == 5 {
        "5"
    } else if d == 6 {
        "6"
    } else if d == 7 {
        "7"
    } else if d == 8 {
        "8"
    } else {
        "9"
    };
    assert(text@ =~= seq![digit(d as int)]);
    text
}

/// Appends the decimal digits of `n`.
fn push_digits(out: &mut String, n: u32)
    ensures
        final(out)@ == old(out)@ + digits(n as nat),
    decreases n,
{
    if n >= 10 {
        push_digits(out, n / 10);
    }
    out.append(digit_text(n % 10));
    assert(final(out)@ =~= old(out)@ + digits(n as nat));
}

/// Appends `n` in decimal.
fn push_decimal(out: &mut String, n: i32)
    ensures
        final(out)@ == old(out)@ + decimal(n as int),
{
    if n < 0 {
        proof {
            reveal_strlit("-");
        }
        out.append("-");
        let magnitude: i64 = -(n as i64);
        push_digits(out, magnitude as u32);
        assert("-"@ =~= seq!['-']);
        assert(final(out)@ =~= old(out)@ + decimal(n as int));
    } else {
        push_digits(out, n as u32);
    }
}

impl Value {
    /// Appends the text of the value.
    fn render_into(&self, out: &mut String)
        ensures
            final(out)@ == old(out)@ + self@.rendering(),
    {
        match self {
            Value::Number(n) => push_decimal(out, *n),
            Value::True => out.append("true"),
            Value::False => out.append("false"),
            Value::Function(_, _) => out.append("<function>"),
        }
    }

    /// The text of the value: a number in decimal, `true`, `false`, or
    /// `<function>` for any function.
    pub fn to_string(&self) -> (text: String)
        ensures
            text@ == self@.rendering(),
    {
        let mut out = String::new();
        self.render_into(&mut out);
        assert(out@ =~= self@.rendering());
        out
    }
}

impl Expression {
    /// Appends the text of the expression.
    fn render_into(&self, out: &mut String)
        ensures
            final(out)@ == old(out)@ + self@.rendering(),
        decreases self,
    {
        match self {
            Expression::Value(v) => {
                proof {
                    lemma_value_is_value(*v);
                }
                v.render_into(out);
            },
            Expression::Add(a, b) => {
                out.append("(");
                a.render_into(out);
                out.append(" + ");
                b.render_into(out);
                out.append(")");
            },
            Expression::If(c, t, f) => {
                out.append("(if ");
                c.render_into(out);
                out.append(" then ");
                t.render_into(out);
                out.append(" else ");
                f.render_into(out);
                out.append(")");
            },
            Expression::Name(x) => {
                out.append(x);
            },
            Expression::Let(x, bound, body) => {
                out.append("(let ");
                out.append(x);
                out.append(" = ");
                bound.render_into(out);
                out.append(" in ");
                body.render_into(out);
                out.append(")");
            },
            Expression::Function(x, body) => {
                out.append("(");
                out.append(x);
                out.append(" -> ");
                body.render_into(out);
                out.append(")");
            },
            Expression::Apply(f, a) => {
                out.append("(");
                f.render_into(out);
                out.append(" ");
                a.render_into(out);
                out.append(")");
            },
        }
        assert(final(out)@ =~= old(out)@ + self@.rendering());
    }

    /// The text of the expression: `(a + b)`, `(if c then t else f)`,
    /// `(let x = e1 in e2)`, `(x -> e)`, `(e1 e2)`, a name as it is, a value
    /// as [`Value::to_string`] gives it.
    pub fn to_string(&self) -> (text: String)
        ensures
            text@ == self@.rendering(),
    {
        let mut out = String::new();
        self.render_into(&mut out);
        assert(out@ =~= self@.rendering());
        out
    }
}

} // verus!
