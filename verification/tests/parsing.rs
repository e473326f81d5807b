use typed_expr::Context;
use typed_expr::EvalError;
use typed_expr::ParserError;
use typed_expr::Value;
use typed_expr::parse;

#[test]
fn it_runs() {
    let context = Context::new().set_int("userId", 1);
    let json = "{\"eq\":[1,{\"get\":[\"userId\"]}]}".to_string();

    let expression = parse(&json).unwrap();

    assert_eq!(expression.eval(&context).unwrap(), Value::Bool(true));
}

#[test]
fn it_parses_json() {
    let json_string = "{\"eq\":[1,{\"get\":[\"userId\"]}]}".to_string();

    assert_eq!(parse(&json_string).unwrap().to_json(), json_string);
}

#[test]
fn parsed_expression_evaluates_against_contexts() {
    let expression = parse("{\"eq\":[1,{\"get\":[\"userId\"]}]}").unwrap();

    let one = Context::new().set_int("userId", 1);
    assert_eq!(expression.eval(&one).unwrap(), Value::Bool(true));

    let two = Context::new().set_int("userId", 2);
    assert_eq!(expression.eval(&two).unwrap(), Value::Bool(false));

    let empty = Context::new();
    assert!(match expression.eval(&empty) {
        Err(EvalError::MissingContext { name }) => name == "userId",
        _ => false,
    });
}

#[test]
fn parser_rejects_bad_shapes() {
    assert!(matches!(parse("[]"), Err(ParserError::EmptyArray)));
    assert!(matches!(parse("[1,\"a\"]"), Err(ParserError::MixedArray)));
    assert!(matches!(parse("[[1,2],[3,4]]"), Err(ParserError::NestedArray)));
    assert!(matches!(
        parse("{\"get\":[\"a\"],\"eq\":[1,2]}"),
        Err(ParserError::InvalidOp)
    ));
    assert!(matches!(parse("{\"foo\":[1]}"), Err(ParserError::UnknownOp)));
}

#[test]
fn parser_rejects_malformed_text() {
    assert!(matches!(
        parse("{\"eq\": [1,"),
        Err(ParserError::InvalidInput { description: _ })
    ));
    assert!(matches!(
        parse(""),
        Err(ParserError::InvalidInput { description: _ })
    ));
}

#[test]
fn parser_rejects_huge_integers() {
    match parse("18446744073709551615") {
        Err(ParserError::InvalidNumber { description }) => {
            assert!(description.starts_with("Invalid int: "));
        },
        _ => panic!("expected an invalid number"),
    }
}

#[test]
fn parser_rejects_mixed_number_kinds() {
    assert!(matches!(parse("[1,2.5]"), Err(ParserError::MixedArray)));
    assert!(matches!(parse("[2.5,1]"), Err(ParserError::MixedArray)));
}

#[test]
fn parser_rejects_bad_operator_arguments() {
    assert!(matches!(parse("{\"get\":[1]}"), Err(ParserError::InvalidOp)));
    assert!(matches!(parse("{\"get\":[\"a\",\"b\"]}"), Err(ParserError::InvalidOp)));
    assert!(matches!(parse("{\"get\":\"a\"}"), Err(ParserError::InvalidOp)));
    assert!(matches!(parse("{\"eq\":[1]}"), Err(ParserError::InvalidOp)));
    assert!(matches!(parse("{\"eq\":[1,2,3]}"), Err(ParserError::InvalidOp)));
    assert!(matches!(parse("{}"), Err(ParserError::InvalidOp)));
}

#[test]
fn parser_reads_scalar_and_array_literals() {
    let context = Context::new();

    assert_eq!(parse("true").unwrap().eval(&context).unwrap(), Value::Bool(true));
    assert_eq!(parse("7").unwrap().eval(&context).unwrap(), Value::Int(7));
    assert_eq!(
        parse("\"hi\"").unwrap().eval(&context).unwrap(),
        Value::Str("hi".to_string())
    );
    assert_eq!(
        parse("[1,2,3]").unwrap().eval(&context).unwrap(),
        Value::IntArray(vec![1, 2, 3])
    );
    assert_eq!(
        parse("[true,false]").unwrap().eval(&context).unwrap(),
        Value::BoolArray(vec![true, false])
    );
}

#[test]
fn parsed_floats_compare_numerically() {
    let context = Context::new();

    let expression = parse("{\"eq\":[1.5,1.5]}").unwrap();
    assert_eq!(expression.eval(&context).unwrap(), Value::Bool(true));

    let expression = parse("{\"eq\":[1.5,2.5]}").unwrap();
    assert_eq!(expression.eval(&context).unwrap(), Value::Bool(false));
}

#[test]
fn serialization_round_trips() {
    for text in [
        "{\"eq\":[1,{\"get\":[\"userId\"]}]}",
        "{\"eq\":[[1.5,2.5],{\"get\":[\"xs\"]}]}",
        "{\"eq\":[\"a b\",\"c\"]}",
        "{\"eq\":[[true,false],[\"x\",\"y\"]]}",
        "-42",
        "2.5",
        "{\"get\":[\"weird \\\"name\\\"\\n\"]}",
    ] {
        let first = parse(text).unwrap().to_json();
        assert_eq!(first, text);
        let second = parse(&first).unwrap().to_json();
        assert_eq!(second, first);
    }
}

#[test]
fn parser_rejects_null_values() {
    assert!(matches!(
        parse("null"),
        Err(ParserError::InvalidInput { description: _ })
    ));
    assert!(matches!(
        parse("{\"eq\":[null,1]}"),
        Err(ParserError::InvalidInput { description: _ })
    ));
    assert!(matches!(parse("[null]"), Err(ParserError::NestedArray)));
    assert!(matches!(parse("[1,null]"), Err(ParserError::MixedArray)));
}

#[test]
fn parser_reads_nested_operators() {
    let context = Context::new().set_int("a", 3);

    let expression = parse("{\"eq\":[{\"eq\":[1,1]},true]}").unwrap();
    assert_eq!(expression.eval(&context).unwrap(), Value::Bool(true));

    let expression = parse("{\"eq\":[{\"get\":[\"a\"]},{\"get\":[\"a\"]}]}").unwrap();
    assert_eq!(expression.eval(&context).unwrap(), Value::Bool(true));

    assert!(matches!(parse("[{\"get\":[\"a\"]}]"), Err(ParserError::NestedArray)));
}
