use typed_expr::Context;
use typed_expr::Expression;
use typed_expr::Float64;
use typed_expr::ops::bool;
use typed_expr::ops::bool_array;
use typed_expr::ops::eq;
use typed_expr::ops::float;
use typed_expr::ops::float_array;
use typed_expr::ops::int_array;
use typed_expr::ops::integer;
use typed_expr::ops::str;
use typed_expr::ops::str_array;

fn assert_eval_eq(context: &Context, left: Expression, right: Expression) {
    let left_value = left.eval(context).unwrap();
    let right_value = right.eval(context).unwrap();
    assert_eq!(left_value, right_value);
}

fn f(x: f64) -> Float64 {
    Float64::new(x.to_bits(), format!("{}", x))
}

fn strings(items: &[&str]) -> Vec<String> {
    items.iter().map(|s| s.to_string()).collect()
}

#[test]
fn eq_it_compares_bools() {
    let context = Context::new();

    assert_eval_eq(&context, eq(bool(true), bool(true)), bool(true));
    assert_eval_eq(&context, eq(bool(true), bool(false)), bool(false));
}

#[test]
fn eq_it_compares_bool_arrays() {
    let context = Context::new();

    assert_eval_eq(
        &context,
        eq(bool_array(vec![true, false]), bool_array(vec![true, false])),
        bool(true),
    );
    assert_eval_eq(
        &context,
        eq(bool_array(vec![true, false]), bool_array(vec![false, true])),
        bool(false),
    );
}

#[test]
fn eq_it_compares_ints() {
    let context = Context::new();

    assert_eval_eq(&context, eq(integer(1), integer(1)), bool(true));
    assert_eval_eq(&context, eq(integer(1), integer(2)), bool(false));
}

#[test]
fn eq_it_compares_int_arrays() {
    let context = Context::new();

    assert_eval_eq(
        &context,
        eq(int_array(vec![1, 2]), int_array(vec![1, 2])),
        bool(true),
    );
    assert_eval_eq(
        &context,
        eq(int_array(vec![1, 2]), int_array(vec![2, 1])),
        bool(false),
    );
}

#[test]
fn eq_it_compares_floats() {
    let context = Context::new();

    assert_eval_eq(&context, eq(float(f(1.1)), float(f(1.1))), bool(true));
    assert_eval_eq(&context, eq(float(f(1.1)), float(f(2.2))), bool(false));
}

#[test]
fn eq_it_compares_float_arrays() {
    let context = Context::new();

    assert_eval_eq(
        &context,
        eq(
            float_array(vec![f(1.1), f(2.2)]),
            float_array(vec![f(1.1), f(2.2)]),
        ),
        bool(true),
    );
    assert_eval_eq(
        &context,
        eq(
            float_array(vec![f(1.1), f(2.2)]),
            float_array(vec![f(2.2), f(1.1)]),
        ),
        bool(false),
    );
}

#[test]
fn eq_it_compares_strs() {
    let context = Context::new();

    assert_eval_eq(&context, eq(str("a"), str("a")), bool(true));
    assert_eval_eq(&context, eq(str("a"), str("b")), bool(false));
}

#[test]
fn eq_it_compares_str_arrays() {
    let context = Context::new();

    assert_eval_eq(
        &context,
        eq(str_array(strings(&["a", "b"])), str_array(strings(&["a", "b"]))),
        bool(true),
    );
    assert_eval_eq(
        &context,
        eq(str_array(strings(&["a", "b"])), str_array(strings(&["b", "a"]))),
        bool(false),
    );
}

#[test]
fn eq_of_nan_is_false() {
    let context = Context::new();

    assert_eval_eq(&context, eq(float(f(f64::NAN)), float(f(f64::NAN))), bool(false));
}

#[test]
fn eq_of_both_zeroes_is_true() {
    let context = Context::new();

    assert_eval_eq(&context, eq(float(f(-0.0)), float(f(0.0))), bool(true));
}
