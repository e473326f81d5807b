use vstd::prelude::*;

use crate::context::Context;
use crate::context::ContextError;
use crate::context::ContextSchema;
use crate::context::ContextSchemaMismatch;
use crate::context::spec_mismatches;
use crate::eval_type::Type;
use crate::expression::EvalError;
use crate::expression::EvalErrorView;
use crate::expression::Expression;
use crate::expression::spec_eval;
use crate::value::Value;
use crate::value::ValueView;

verus! {

/// The view of a [`RunnerError`].
pub enum RunnerErrorView {
    ContextSchemaMismatch { fields: Seq<(Seq<char>, Type, Option<Type>)> },
    ExpressionContextDependencyMissing { name: Seq<char> },
    ExpressionTypeMismatch { op_json: Seq<char>, arg_position: int, expected: Type, actual: Type },
}

/// A session failure: the context did not satisfy the schema, or an
/// evaluation failed and its error was carried over into the session's own
/// taxonomy.
#[derive(Debug)]
pub enum RunnerError {
    ContextSchemaMismatch { fields: Vec<ContextSchemaMismatch> },
    ExpressionContextDependencyMissing { name: String },
    ExpressionTypeMismatch { op_json: String, arg_position: usize, expected: Type, actual: Type },
}

impl View for RunnerError {
    type V = RunnerErrorView;

    open spec fn view(&self) -> RunnerErrorView {
        match self {
            RunnerError::ContextSchemaMismatch { fields } => {
                RunnerErrorView::ContextSchemaMismatch {
                    fields: fields@.map_values(|m: ContextSchemaMismatch| (m.0@, m.1, m.2)),
                }
            },
            RunnerError::ExpressionContextDependencyMissing { name } => {
                RunnerErrorView::ExpressionContextDependencyMissing { name: name@ }
            },
            RunnerError::ExpressionTypeMismatch { op_json, arg_position, expected, actual } => {
                RunnerErrorView::ExpressionTypeMismatch {
                    op_json: op_json@,
                    arg_position: *arg_position as int,
                    expected: *expected,
                    actual: *actual,
                }
            },
        }
    }
}

/// An evaluation error carried into the session's taxonomy: a missing
/// variable keeps its name, a type mismatch keeps all its detail, and a
/// kind mismatch from the narrowing evaluators keeps its two types.
pub open spec fn spec_runner_err_of_eval(e: EvalErrorView) -> RunnerErrorView {
    match e {
        EvalErrorView::MissingContext { name } => {
            RunnerErrorView::ExpressionContextDependencyMissing { name }
        },
        EvalErrorView::ValueTypeMismatch { expected, actual } => {
            RunnerErrorView::ExpressionTypeMismatch {
                op_json: Seq::empty(),
                arg_position: 0,
                expected,
                actual,
            }
        },
        EvalErrorView::TypeMismatch { op_json, arg_position, expected, actual } => {
            RunnerErrorView::ExpressionTypeMismatch { op_json, arg_position, expected, actual }
        },
    }
}

impl RunnerError {
    /// Carry an evaluation error into the session's taxonomy; see
    /// [`spec_runner_err_of_eval`].
    pub fn from(item: EvalError) -> (r: Self)
        ensures
            r@ == spec_runner_err_of_eval(item@),
    {
        match item {
            EvalError::MissingContext { name } => {
                RunnerError::ExpressionContextDependencyMissing { name }
            },
            EvalError::ValueTypeMismatch { expected, actual } => {
                RunnerError::ExpressionTypeMismatch {
                    op_json: String::new(),
                    arg_position: 0,
                    expected,
                    actual,
                }
            },
            EvalError::TypeMismatch { op_json, arg_position, expected, actual } => {
                RunnerError::ExpressionTypeMismatch { op_json, arg_position, expected, actual }
            },
        }
    }
}

/// A validated evaluation session: one schema bound to one context that it
/// accepted at construction.
pub struct Runner {
    context_schema: ContextSchema,
    context: Context,
}

impl Runner {
    /// The schema this session holds.
    pub closed spec fn spec_schema(&self) -> ContextSchema {
        self.context_schema
    }

    /// The context this session evaluates against.
    pub closed spec fn spec_context(&self) -> Context {
        self.context
    }

    /// Bind a schema to a context. The session exists exactly when the
    /// context satisfies every declaration; otherwise all mismatches are
    /// reported and no session is produced.
    pub fn new(context_schema: ContextSchema, context: Context) -> (r: Result<Self, RunnerError>)
        ensures
            match r {
                Ok(runner) => {
                    &&& spec_mismatches(context_schema.declared(), context@).len() == 0
                    &&& runner.spec_schema() == context_schema
                    &&& runner.spec_context() == context
                },
                Err(e) => {
                    &&& spec_mismatches(context_schema.declared(), context@).len() > 0
                    &&& e@ == (RunnerErrorView::ContextSchemaMismatch {
                        fields: spec_mismatches(context_schema.declared(), context@),
                    })
                },
            },
    {
        match context_schema.validate(&context) {
            Ok(_) => Ok(Runner { context_schema, context }),
            Err(ContextError::SchemaMismatch { fields }) => Err(
                RunnerError::ContextSchemaMismatch { fields },
            ),
        }
    }

    /// Revalidate a candidate context against the held schema, as a pure
    /// check; the session's own context stays in place either way.
    pub fn update_context(&self, context: Context) -> (r: Result<(), RunnerError>)
        ensures
            match r {
                Ok(_) => spec_mismatches(self.spec_schema().declared(), context@).len() == 0,
                Err(e) => {
                    &&& spec_mismatches(self.spec_schema().declared(), context@).len() > 0
                    &&& e@ == (RunnerErrorView::ContextSchemaMismatch {
                        fields: spec_mismatches(self.spec_schema().declared(), context@),
                    })
                },
            },
    {
        match self.context_schema.validate(&context) {
            Ok(_) => Ok(()),
            Err(ContextError::SchemaMismatch { fields }) => Err(
                RunnerError::ContextSchemaMismatch { fields },
            ),
        }
    }

    /// Evaluate an expression against the session's context, carrying any
    /// evaluation error into the session's taxonomy.
    pub fn eval(&self, expression: &Expression) -> (r: Result<Value, RunnerError>)
        ensures
            match r {
                Ok(v) => spec_eval(expression@, self.spec_context()@) == Ok::<
                    ValueView,
                    EvalErrorView,
                >(v@),
                Err(e) => {
                    &&& spec_eval(expression@, self.spec_context()@) is Err
                    &&& e@ == spec_runner_err_of_eval(
                        spec_eval(expression@, self.spec_context()@)->Err_0,
                    )
                },
            },
    {
        match expression.eval(&self.context) {
            Ok(value) => Ok(value),
            Err(e) => Err(RunnerError::from(e)),
        }
    }
}

} // verus!
