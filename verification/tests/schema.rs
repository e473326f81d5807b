use typed_expr::Context;
use typed_expr::ContextError;
use typed_expr::ContextSchema;
use typed_expr::Runner;
use typed_expr::RunnerError;
use typed_expr::Type;
use typed_expr::Value;
use typed_expr::ops::get;
use typed_expr::ops::integer;

#[test]
fn schema_accepts_a_conforming_context() {
    let schema = ContextSchema::new().declare("userId", Type::Int);
    let context = Context::new().set_int("userId", 1);

    assert_eq!(schema.validation_errors(&context).len(), 0);
    assert!(schema.validate(&context).is_ok());
}

#[test]
fn schema_reports_a_missing_variable() {
    let schema = ContextSchema::new().declare("userId", Type::Int);
    let context = Context::new();

    let errors = schema.validation_errors(&context);
    assert_eq!(errors.len(), 1);
    assert_eq!(errors[0].0, "userId".to_string());
    assert_eq!(errors[0].1, Type::Int);
    assert_eq!(errors[0].2, None);
}

#[test]
fn schema_reports_a_wrong_type() {
    let schema = ContextSchema::new().declare("userId", Type::Int);
    let context = Context::new().set_str("userId", "x");

    let errors = schema.validation_errors(&context);
    assert_eq!(errors.len(), 1);
    assert_eq!(errors[0].0, "userId".to_string());
    assert_eq!(errors[0].1, Type::Int);
    assert_eq!(errors[0].2, Some(Type::Str));
}

#[test]
fn schema_collects_every_mismatch() {
    let schema = ContextSchema::new()
        .declare("a", Type::Int)
        .declare("b", Type::Str)
        .declare("c", Type::Bool);
    let context = Context::new().set_bool("a", true).set_bool("c", false);

    let errors = schema.validation_errors(&context);
    assert_eq!(errors.len(), 2);
    assert_eq!(errors[0].0, "a".to_string());
    assert_eq!(errors[0].2, Some(Type::Bool));
    assert_eq!(errors[1].0, "b".to_string());
    assert_eq!(errors[1].2, None);

    assert!(match schema.validate(&context) {
        Err(ContextError::SchemaMismatch { fields }) => fields.len() == 2,
        _ => false,
    });
}

#[test]
fn schema_redeclaration_overwrites() {
    let schema = ContextSchema::new().declare("a", Type::Int).declare("a", Type::Str);
    let context = Context::new().set_str("a", "x");

    assert_eq!(schema.get("a"), Some(&Type::Str));
    assert_eq!(schema.validation_errors(&context).len(), 0);
}

#[test]
fn schema_ignores_undeclared_variables() {
    let schema = ContextSchema::new().declare("a", Type::Int);
    let context = Context::new().set_int("a", 1).set_str("extra", "x");

    assert_eq!(schema.validation_errors(&context).len(), 0);
}

#[test]
fn runner_exists_only_for_a_valid_context() {
    let schema = ContextSchema::new().declare("userId", Type::Int);

    let runner = Runner::new(schema, Context::new().set_int("userId", 1)).unwrap();
    assert_eq!(runner.eval(&get("userId")).unwrap(), Value::Int(1));

    let schema = ContextSchema::new().declare("userId", Type::Int);
    assert!(match Runner::new(schema, Context::new()) {
        Err(RunnerError::ContextSchemaMismatch { fields }) => fields.len() == 1,
        _ => false,
    });
}

#[test]
fn runner_carries_evaluation_errors() {
    let schema = ContextSchema::new().declare("userId", Type::Int);
    let runner = Runner::new(schema, Context::new().set_int("userId", 1)).unwrap();

    assert!(match runner.eval(&get("other")) {
        Err(RunnerError::ExpressionContextDependencyMissing { name }) => name == "other",
        _ => false,
    });
}

#[test]
fn update_context_is_a_dry_run() {
    let schema = ContextSchema::new().declare("userId", Type::Int);
    let runner = Runner::new(schema, Context::new().set_int("userId", 1)).unwrap();

    assert!(runner.update_context(Context::new().set_int("userId", 9)).is_ok());
    assert!(match runner.update_context(Context::new()) {
        Err(RunnerError::ContextSchemaMismatch { fields }) => fields.len() == 1,
        _ => false,
    });

    assert_eq!(runner.eval(&get("userId")).unwrap(), Value::Int(1));
    assert_eq!(
        runner.eval(&typed_expr::ops::eq(integer(1), get("userId"))).unwrap(),
        Value::Bool(true)
    );
}
