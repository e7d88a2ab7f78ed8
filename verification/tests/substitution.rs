use small_step::names::same_name;
use small_step::{Expression, Value};

fn num(n: i32) -> Expression {
    Expression::Value(Value::Number(n))
}

fn name(x: &'static str) -> Expression {
    Expression::Name(x)
}

fn add(a: Expression, b: Expression) -> Expression {
    Expression::Add(Box::new(a), Box::new(b))
}

fn cond(c: Expression, t: Expression, f: Expression) -> Expression {
    Expression::If(Box::new(c), Box::new(t), Box::new(f))
}

fn bind(x: &'static str, bound: Expression, body: Expression) -> Expression {
    Expression::Let(x, Box::new(bound), Box::new(body))
}

fn lambda(x: &'static str, body: Expression) -> Expression {
    Expression::Function(x, Box::new(body))
}

fn closure(x: &'static str, body: Expression) -> Expression {
    Expression::Value(Value::Function(x, Box::new(body)))
}

fn apply(f: Expression, a: Expression) -> Expression {
    Expression::Apply(Box::new(f), Box::new(a))
}

#[test]
fn name_is_replaced_when_it_matches() {
    assert_eq!(name("x").replace("x", &num(1)), num(1));
    assert_eq!(name("x").replace("x", &name("y")), name("y"));
}

#[test]
fn other_name_is_kept() {
    assert_eq!(name("y").replace("x", &num(1)), name("y"));
    assert_eq!(name("xx").replace("x", &num(1)), name("xx"));
    assert_eq!(name("").replace("x", &num(1)), name(""));
}

#[test]
fn sum_if_and_apply_are_entered_everywhere() {
    let r = num(9);
    assert_eq!(add(name("x"), name("x")).replace("x", &r), add(num(9), num(9)));
    assert_eq!(
        cond(name("x"), name("x"), name("x")).replace("x", &r),
        cond(num(9), num(9), num(9))
    );
    assert_eq!(apply(name("x"), name("x")).replace("x", &r), apply(num(9), num(9)));
    assert_eq!(
        add(cond(name("y"), name("x"), num(0)), apply(name("x"), name("y"))).replace("x", &r),
        add(cond(name("y"), num(9), num(0)), apply(num(9), name("y")))
    );
}

#[test]
fn let_with_the_same_binder_keeps_its_body() {
    let r = num(5);
    assert_eq!(
        bind("x", num(1), name("x")).replace("x", &r),
        bind("x", num(1), name("x"))
    );
    assert_eq!(
        bind("x", name("y"), add(name("x"), name("x"))).replace("x", &r),
        bind("x", name("y"), add(name("x"), name("x")))
    );
}

#[test]
fn let_with_the_same_binder_still_rewrites_its_bound_expression() {
    let r = num(5);
    assert_eq!(
        bind("x", add(name("x"), num(1)), name("x")).replace("x", &r),
        bind("x", add(num(5), num(1)), name("x"))
    );
}

#[test]
fn let_with_another_binder_is_rewritten_in_both_parts() {
    let r = num(5);
    assert_eq!(
        bind("y", name("x"), add(name("x"), name("y"))).replace("x", &r),
        bind("y", num(5), add(num(5), name("y")))
    );
}

#[test]
fn function_with_the_same_parameter_is_kept() {
    let r = num(5);
    assert_eq!(
        lambda("x", add(name("x"), num(1))).replace("x", &r),
        lambda("x", add(name("x"), num(1)))
    );
}

#[test]
fn function_with_another_parameter_is_entered() {
    let r = num(5);
    assert_eq!(
        lambda("y", add(name("x"), name("y"))).replace("x", &r),
        lambda("y", add(num(5), name("y")))
    );
}

#[test]
fn values_are_never_entered() {
    let r = num(5);
    assert_eq!(num(1).replace("x", &r), num(1));
    assert_eq!(
        Expression::Value(Value::True).replace("x", &r),
        Expression::Value(Value::True)
    );
    assert_eq!(
        Expression::Value(Value::False).replace("x", &r),
        Expression::Value(Value::False)
    );
    assert_eq!(
        closure("y", add(name("x"), name("y"))).replace("x", &r),
        closure("y", add(name("x"), name("y")))
    );
}

#[test]
fn replacement_is_copied_into_every_position() {
    let r = add(name("a"), lambda("b", name("x")));
    let out = add(name("x"), cond(name("x"), name("y"), name("x"))).replace("x", &r);
    assert_eq!(out, add(r.clone(), cond(r.clone(), name("y"), r.clone())));
}

#[test]
fn replacement_is_not_searched_again() {
    assert_eq!(
        add(name("x"), name("y")).replace("x", &add(name("x"), name("x"))),
        add(add(name("x"), name("x")), name("y"))
    );
}

#[test]
fn binder_captures_a_free_variable_of_the_replacement() {
    // Known limitation: substitution does not rename binders.
    assert_eq!(
        lambda("y", add(name("x"), name("y"))).replace("x", &name("y")),
        lambda("y", add(name("y"), name("y")))
    );
    assert_eq!(
        bind("y", num(1), name("x")).replace("x", &name("y")),
        bind("y", num(1), name("y"))
    );
}

#[test]
fn same_name_compares_the_text() {
    assert!(same_name("x", "x"));
    assert!(same_name("", ""));
    assert!(same_name("counter", "counter"));
    assert!(!same_name("x", "y"));
    assert!(!same_name("x", "xx"));
    assert!(!same_name("xx", "x"));
    assert!(!same_name("", "x"));
    assert!(!same_name("ab", "ba"));
    assert!(!same_name("X", "x"));
}

#[test]
fn same_name_beyond_ascii() {
    assert!(same_name("\u{3bb}", "\u{3bb}"));
    assert!(!same_name("\u{3bb}", "\u{3bc}"));
    assert!(!same_name("e\u{301}", "\u{e9}"));
    assert!(same_name("na\u{ef}ve", "na\u{ef}ve"));
    let owned = String::from("x") + "1";
    assert!(same_name(&owned, "x1"));
}
