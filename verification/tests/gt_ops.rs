use typed_expr::Context;
use typed_expr::EvalError;
use typed_expr::Expression;
use typed_expr::Float64;
use typed_expr::Type;
use typed_expr::ops::bool;
use typed_expr::ops::bool_array;
use typed_expr::ops::float;
use typed_expr::ops::float_array;
use typed_expr::ops::gt;
use typed_expr::ops::int_array;
use typed_expr::ops::integer;
use typed_expr::ops::str;
use typed_expr::ops::str_array;

fn assert_eval_eq(context: &Context, left: Expression, left_type: Type, right: Expression) {
    assert_eq!(left.eval_type(context).unwrap(), left_type);
    let left_value = left.eval(context).unwrap();
    let right_value = right.eval(context).unwrap();
    assert_eq!(left_value, right_value);
}

fn assert_eval_type_err(context: &Context, expression: Expression, expected: Type, actual: Type) {
    let result = expression.eval_type(context);

    assert!(result.is_err());
    assert!(match result {
        Err(EvalError::TypeMismatch {
            op_json: _,
            arg_position: _,
            expected: err_expected,
            actual: err_actual,
        }) => err_expected == expected && err_actual == actual,
        _ => false,
    });
}

fn f(x: f64) -> Float64 {
    Float64::new(x.to_bits(), format!("{}", x))
}

fn strings(items: &[&str]) -> Vec<String> {
    items.iter().map(|s| s.to_string()).collect()
}

#[test]
fn gt_it_compares_bools() {
    let context = Context::new();

    assert_eval_eq(&context, gt(bool(true), bool(true)), Type::Bool, bool(false));
    assert_eval_eq(&context, gt(bool(true), bool(false)), Type::Bool, bool(true));
    assert_eval_eq(&context, gt(bool(false), bool(true)), Type::Bool, bool(false));
}

#[test]
fn gt_it_compares_bool_arrays() {
    let context = Context::new();

    assert_eval_eq(
        &context,
        gt(bool_array(vec![true, false]), bool_array(vec![true, false])),
        Type::Bool,
        bool(false),
    );
    assert_eval_eq(
        &context,
        gt(bool_array(vec![true, false]), bool_array(vec![false, true])),
        Type::Bool,
        bool(true),
    );
}

#[test]
fn gt_it_compares_ints() {
    let context = Context::new();

    assert_eval_eq(&context, gt(integer(1), integer(1)), Type::Bool, bool(false));
    assert_eval_eq(&context, gt(integer(1), integer(2)), Type::Bool, bool(false));
    assert_eval_eq(&context, gt(integer(2), integer(1)), Type::Bool, bool(true));
}

#[test]
fn gt_it_compares_int_arrays() {
    let context = Context::new();

    assert_eval_eq(
        &context,
        gt(int_array(vec![1, 2]), int_array(vec![1, 2])),
        Type::Bool,
        bool(false),
    );
    assert_eval_eq(
        &context,
        gt(int_array(vec![1, 2]), int_array(vec![2, 1])),
        Type::Bool,
        bool(false),
    );
}

#[test]
fn gt_it_compares_floats() {
    let context = Context::new();

    assert_eval_eq(&context, gt(float(f(1.1)), float(f(1.1))), Type::Bool, bool(false));
    assert_eval_eq(&context, gt(float(f(1.1)), float(f(2.2))), Type::Bool, bool(false));
    assert_eval_eq(&context, gt(float(f(2.2)), float(f(1.1))), Type::Bool, bool(true));
}

#[test]
fn gt_it_compares_float_arrays() {
    let context = Context::new();

    assert_eval_eq(
        &context,
        gt(
            float_array(vec![f(1.1), f(2.2)]),
            float_array(vec![f(1.1), f(2.2)]),
        ),
        Type::Bool,
        bool(false),
    );
    assert_eval_eq(
        &context,
        gt(
            float_array(vec![f(1.1), f(2.2)]),
            float_array(vec![f(2.2), f(1.1)]),
        ),
        Type::Bool,
        bool(false),
    );
}

#[test]
fn gt_it_compares_strs() {
    let context = Context::new();

    assert_eval_eq(&context, gt(str("a"), str("a")), Type::Bool, bool(false));
    assert_eval_eq(&context, gt(str("a"), str("b")), Type::Bool, bool(false));
    assert_eval_eq(&context, gt(str("b"), str("a")), Type::Bool, bool(true));
}

#[test]
fn gt_it_compares_str_arrays() {
    let context = Context::new();

    assert_eval_eq(
        &context,
        gt(str_array(strings(&["a", "b"])), str_array(strings(&["a", "b"]))),
        Type::Bool,
        bool(false),
    );
    assert_eval_eq(
        &context,
        gt(str_array(strings(&["a", "b"])), str_array(strings(&["b", "a"]))),
        Type::Bool,
        bool(false),
    );
}

#[test]
fn it_does_not_compare_mixed_types() {
    let context = Context::new();

    assert_eval_type_err(&context, gt(integer(1), float(f(1.0))), Type::Int, Type::Float);
    assert_eval_type_err(&context, gt(bool(true), str("a")), Type::Bool, Type::Str);
    assert_eval_type_err(
        &context,
        gt(float_array(vec![f(1.1), f(2.2)]), bool(false)),
        Type::FloatArray(2),
        Type::Bool,
    );
}

#[test]
fn gt_of_negative_floats_orders_numerically() {
    let context = Context::new();

    assert_eval_eq(&context, gt(float(f(-1.0)), float(f(-2.0))), Type::Bool, bool(true));
    assert_eval_eq(&context, gt(float(f(-2.0)), float(f(1.0))), Type::Bool, bool(false));
    assert_eval_eq(&context, gt(float(f(f64::NAN)), float(f(1.0))), Type::Bool, bool(false));
}
