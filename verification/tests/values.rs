use typed_expr::Context;
use typed_expr::EvalError;
use typed_expr::Float64;
use typed_expr::Type;
use typed_expr::Value;
use typed_expr::ops::bool_array;
use typed_expr::ops::eq;
use typed_expr::ops::float;
use typed_expr::ops::get;
use typed_expr::ops::int_array;
use typed_expr::ops::integer;
use typed_expr::ops::str;
use typed_expr::ops::str_array;
use typed_expr::ops::str_val;

fn f(x: f64) -> Float64 {
    Float64::new(x.to_bits(), format!("{}", x))
}

#[test]
fn literals_evaluate_to_themselves() {
    let context = Context::new();

    let expression = integer(7);
    assert_eq!(expression.eval(&context).unwrap(), Value::Int(7));
    assert_eq!(expression.eval_type(&context).unwrap(), Type::Int);

    let expression = str("hello");
    assert_eq!(expression.eval(&context).unwrap(), Value::Str("hello".to_string()));
    assert_eq!(expression.eval_type(&context).unwrap(), Type::Str);

    let expression = bool_array(vec![true]);
    assert_eq!(expression.eval(&context).unwrap(), Value::BoolArray(vec![true]));
    assert_eq!(expression.eval_type(&context).unwrap(), Type::BoolArray(1));
}

#[test]
fn get_reads_the_context() {
    let context = Context::new().set_str("name", "zed").set_int("age", 30);

    assert_eq!(get("name").eval(&context).unwrap(), Value::Str("zed".to_string()));
    assert_eq!(get("age").eval(&context).unwrap(), Value::Int(30));
    assert_eq!(get("age").eval_type(&context).unwrap(), Type::Int);

    assert!(match get("missing").eval(&context) {
        Err(EvalError::MissingContext { name }) => name == "missing",
        _ => false,
    });
    assert!(match get("missing").eval_type(&context) {
        Err(EvalError::MissingContext { name }) => name == "missing",
        _ => false,
    });
}

#[test]
fn context_keeps_the_last_binding() {
    let context = Context::new().set_int("a", 1).set_int("a", 2).set_bool("b", true);

    assert_eq!(context.get("a"), Some(&Value::Int(2)));
    assert_eq!(context.get("b"), Some(&Value::Bool(true)));
    assert_eq!(context.get("c"), None);
}

#[test]
fn eq_type_mismatch_reports_position_one() {
    let context = Context::new();
    let expression = eq(integer(1), float(f(1.0)));

    assert!(match expression.eval_type(&context) {
        Err(EvalError::TypeMismatch { op_json: _, arg_position, expected, actual }) =>
            arg_position == 1 && expected == Type::Int && actual == Type::Float,
        _ => false,
    });
}

#[test]
fn concrete_types_carry_array_lengths() {
    assert_eq!(Value::Bool(true).concrete_type(), Type::Bool);
    assert_eq!(Value::IntArray(vec![1, 2, 3]).concrete_type(), Type::IntArray(3));
    assert_eq!(Value::Float(f(1.0)).concrete_type(), Type::Float);
    assert_eq!(
        Value::StrArray(vec!["a".to_string()]).concrete_type(),
        Type::StrArray(1)
    );
    assert_ne!(Type::IntArray(2), Type::IntArray(3));
}

#[test]
fn accessors_narrow_by_kind_and_length() {
    let value = Value::Int(5);
    assert_eq!(value.as_int(), Some(5));
    assert_eq!(value.as_bool(), None);

    let value = Value::BoolArray(vec![true, false]);
    assert_eq!(value.as_bool_array(2), Some(vec![true, false]));
    assert_eq!(value.as_bool_array(3), None);

    let value = Value::StrArray(vec!["a".to_string(), "b".to_string()]);
    assert_eq!(
        value.as_str_array(2),
        Some(vec!["a".to_string(), "b".to_string()])
    );
    assert_eq!(value.as_str_array(1), None);

    assert_eq!(Value::Str("x".to_string()).as_str(), Some("x".to_string()));
    assert_eq!(str_val("x"), Value::Str("x".to_string()));
}

#[test]
fn kind_narrowing_evaluators_check_the_result() {
    let context = Context::new().set_int("n", 3);

    assert_eq!(get("n").eval_int(&context).unwrap(), 3);
    assert_eq!(integer(1).eval_bool(&context).ok(), None);
    assert!(match integer(1).eval_bool(&context) {
        Err(EvalError::ValueTypeMismatch { expected, actual }) =>
            expected == Type::Bool && actual == Type::Int,
        _ => false,
    });

    assert_eq!(
        int_array(vec![1, 2]).eval_int_array(&context, 2).unwrap(),
        vec![1, 2]
    );
    assert!(match int_array(vec![1, 2]).eval_int_array(&context, 3) {
        Err(EvalError::ValueTypeMismatch { expected, actual }) =>
            expected == Type::IntArray(3) && actual == Type::IntArray(2),
        _ => false,
    });

    let fs = vec![f(1.5)];
    let out = typed_expr::ops::float_array(fs).eval_float_array(&context, 1).unwrap();
    assert_eq!(out.len(), 1);
    assert_eq!(out[0].bits(), 1.5f64.to_bits());
}

#[test]
fn operator_tags_and_arguments() {
    assert_eq!(eq(integer(1), integer(2)).name(), "eq");
    assert_eq!(typed_expr::ops::gt(integer(1), integer(2)).name(), "gt");
    assert_eq!(get("x").name(), "get");
    assert_eq!(integer(1).name(), "int");
    assert_eq!(str("x").name(), "str");
    assert_eq!(float(f(0.5)).name(), "float");

    let args = eq(integer(1), str("x")).args();
    assert_eq!(args.len(), 2);
    assert_eq!(args[0].to_json(), "1");
    assert_eq!(args[1].to_json(), "\"x\"");

    let args = get("x").args();
    assert_eq!(args.len(), 1);
    assert_eq!(args[0].to_json(), "\"x\"");

    assert_eq!(integer(1).args().len(), 0);
}

#[test]
fn dependencies_are_reported_by_get_alone() {
    assert_eq!(get("x").context_dependencies(), Some(vec!["x".to_string()]));
    assert_eq!(integer(1).context_dependencies(), None);
    assert_eq!(eq(get("x"), get("y")).context_dependencies(), None);
}

#[test]
fn values_serialize_as_bare_json() {
    assert_eq!(integer(-42).to_json(), "-42");
    assert_eq!(integer(0).to_json(), "0");
    assert_eq!(integer(9007199254740993).to_json(), "9007199254740993");
    assert_eq!(typed_expr::ops::bool(true).to_json(), "true");
    assert_eq!(float(f(1.5)).to_json(), "1.5");
    assert_eq!(int_array(vec![1, 2]).to_json(), "[1,2]");
    assert_eq!(bool_array(vec![true, false]).to_json(), "[true,false]");
    assert_eq!(
        typed_expr::ops::float_array(vec![f(1.1), f(2.2)]).to_json(),
        "[1.1,2.2]"
    );
    assert_eq!(
        str_array(vec!["a".to_string(), "b".to_string()]).to_json(),
        "[\"a\",\"b\"]"
    );
}

#[test]
fn strings_serialize_with_escapes() {
    assert_eq!(str("plain").to_json(), "\"plain\"");
    assert_eq!(str("a\"b\\c\n").to_json(), "\"a\\\"b\\\\c\\n\"");
    assert_eq!(str("tab\there").to_json(), "\"tab\\there\"");
    assert_eq!(str("\u{1}").to_json(), "\"\\u0001\"");
    assert_eq!(str("snowman \u{2603}").to_json(), "\"snowman \u{2603}\"");
}

#[test]
fn operators_serialize_as_tagged_objects() {
    assert_eq!(get("userId").to_json(), "{\"get\":[\"userId\"]}");
    assert_eq!(
        eq(integer(1), get("userId")).to_json(),
        "{\"eq\":[1,{\"get\":[\"userId\"]}]}"
    );
    assert_eq!(
        typed_expr::ops::gt(str("b"), str("a")).to_json(),
        "{\"gt\":[\"b\",\"a\"]}"
    );
}

#[test]
fn values_of_different_shapes_order_by_shape() {
    let context = Context::new();

    assert_eq!(
        typed_expr::ops::gt(str("a"), integer(1)).eval(&context).unwrap(),
        Value::Bool(true)
    );
    assert_eq!(
        typed_expr::ops::gt(integer(1), str("a")).eval(&context).unwrap(),
        Value::Bool(false)
    );
}

#[test]
fn shared_type_check_reports_the_baseline() {
    let context = Context::new();

    assert_eq!(
        typed_expr::type_check_all_args_have_same_type(&context, &eq(integer(1), integer(2)))
            .unwrap(),
        Some(Type::Int)
    );
    assert_eq!(
        typed_expr::type_check_all_args_have_same_type(&context, &integer(1)).unwrap(),
        None
    );
    assert_eq!(
        typed_expr::type_check_all_args_have_same_type(&context, &get("x")).unwrap(),
        Some(Type::Str)
    );
    assert!(match typed_expr::type_check_all_args_have_same_type(
        &context,
        &eq(str("a"), integer(1)),
    ) {
        Err(EvalError::TypeMismatch { op_json, arg_position, expected, actual }) =>
            op_json == "{\"eq\":[\"a\",1]}"
                && arg_position == 1
                && expected == Type::Str
                && actual == Type::Int,
        _ => false,
    });
}
