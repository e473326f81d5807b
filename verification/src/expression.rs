use vstd::prelude::*;

use crate::context::Context;
use crate::eval_type::Type;
use crate::value::Value;
use crate::value::ValueView;
use crate::value::spec_as_bool;
use crate::value::spec_as_bool_array;
use crate::value::spec_as_float;
use crate::value::spec_as_float_array;
use crate::value::spec_as_int;
use crate::value::spec_as_int_array;
use crate::value::spec_as_str;
use crate::value::spec_as_str_array;
use crate::value::spec_concrete_type;
use crate::value::spec_value_eq;
use crate::value::spec_value_gt;
use crate::float64::Float64;

verus! {

/// The view of an [`Expression`]: the same tree over spec types.
pub enum ExpressionView {
    Literal(ValueView),
    Get(Seq<char>),
    Eq(Box<ExpressionView>, Box<ExpressionView>),
    Gt(Box<ExpressionView>, Box<ExpressionView>),
}

/// A node of the expression tree. The operator set is closed: literals,
/// variable lookup (`Get`), structural equality (`Eq`) and strict order
/// (`Gt`); composite nodes own their children outright.
#[derive(Debug)]
pub enum Expression {
    Literal(Value),
    Get(String),
    Eq(Box<Expression>, Box<Expression>),
    Gt(Box<Expression>, Box<Expression>),
}

impl View for Expression {
    type V = ExpressionView;

    open spec fn view(&self) -> ExpressionView
        decreases self,
    {
        match self {
            Expression::Literal(v) => ExpressionView::Literal(v@),
            Expression::Get(name) => ExpressionView::Get(name@),
            Expression::Eq(l, r) => ExpressionView::Eq(Box::new((**l)@), Box::new((**r)@)),
            Expression::Gt(l, r) => ExpressionView::Gt(Box::new((**l)@), Box::new((**r)@)),
        }
    }
}

/// Height of an expression tree; literals are leaves, and a `Get` counts
/// its implicit name argument as a child.
pub open spec fn spec_height(e: ExpressionView) -> nat
    decreases e,
{
    match e {
        ExpressionView::Literal(_) => 0,
        ExpressionView::Get(_) => 1,
        ExpressionView::Eq(l, r) => (if spec_height(*l) >= spec_height(*r) {
            spec_height(*l)
        } else {
            spec_height(*r)
        }) + 1,
        ExpressionView::Gt(l, r) => (if spec_height(*l) >= spec_height(*r) {
            spec_height(*l)
        } else {
            spec_height(*r)
        }) + 1,
    }
}

/// The view of an [`EvalError`].
pub enum EvalErrorView {
    MissingContext { name: Seq<char> },
    ValueTypeMismatch { expected: Type, actual: Type },
    TypeMismatch { op_json: Seq<char>, arg_position: int, expected: Type, actual: Type },
}

/// An evaluation failure: a `Get` of an absent variable, a value of the
/// wrong kind handed to a kind-narrowing evaluator, or an operator whose
/// arguments do not share one type.
#[derive(Debug)]
pub enum EvalError {
    MissingContext { name: String },
    ValueTypeMismatch { expected: Type, actual: Type },
    TypeMismatch { op_json: String, arg_position: usize, expected: Type, actual: Type },
}

impl View for EvalError {
    type V = EvalErrorView;

    open spec fn view(&self) -> EvalErrorView {
        match self {
            EvalError::MissingContext { name } => EvalErrorView::MissingContext { name: name@ },
            EvalError::ValueTypeMismatch { expected, actual } => EvalErrorView::ValueTypeMismatch {
                expected: *expected,
                actual: *actual,
            },
            EvalError::TypeMismatch { op_json, arg_position, expected, actual } => {
                EvalErrorView::TypeMismatch {
                    op_json: op_json@,
                    arg_position: *arg_position as int,
                    expected: *expected,
                    actual: *actual,
                }
            },
        }
    }
}

/// What evaluation returns: a literal is itself; a `Get` looks its name up
/// in the context and fails with `MissingContext` when it is absent; `Eq`
/// and `Gt` evaluate both children left to right, propagate the first
/// failure, and compare the two values.
pub open spec fn spec_eval(e: ExpressionView, c: Map<Seq<char>, ValueView>) -> Result<
    ValueView,
    EvalErrorView,
>
    decreases e,
{
    match e {
        ExpressionView::Literal(v) => Ok(v),
        ExpressionView::Get(name) => if c.contains_key(name) {
            Ok(c[name])
        } else {
            Err(EvalErrorView::MissingContext { name })
        },
        ExpressionView::Eq(l, r) => match spec_eval(*l, c) {
            Ok(lv) => match spec_eval(*r, c) {
                Ok(rv) => Ok(ValueView::Bool(spec_value_eq(lv, rv))),
                Err(err) => Err(err),
            },
            Err(err) => Err(err),
        },
        ExpressionView::Gt(l, r) => match spec_eval(*l, c) {
            Ok(lv) => match spec_eval(*r, c) {
                Ok(rv) => Ok(ValueView::Bool(spec_value_gt(lv, rv))),
                Err(err) => Err(err),
            },
            Err(err) => Err(err),
        },
    }
}

/// The child expressions of a node, in order. A `Get` reports its name as
/// one literal string argument; a literal has no arguments.
pub open spec fn spec_args(e: ExpressionView) -> Seq<ExpressionView> {
    match e {
        ExpressionView::Literal(_) => Seq::empty(),
        ExpressionView::Get(n) => seq![ExpressionView::Literal(ValueView::Str(n))],
        ExpressionView::Eq(l, r) => seq![*l, *r],
        ExpressionView::Gt(l, r) => seq![*l, *r],
    }
}

/// Every argument of a node sits strictly below the node itself.
pub proof fn lemma_args_height(e: ExpressionView)
    ensures
        forall|i: int|
            0 <= i < spec_args(e).len() ==> spec_height(#[trigger] spec_args(e)[i]) < spec_height(
                e,
            ),
{
}

/// The operator tag of a value literal, as used in introspection.
pub open spec fn spec_value_name(v: ValueView) -> Seq<char> {
    match v {
        ValueView::Bool(_) => "bool"@,
        ValueView::BoolArray(_) => "boolArray"@,
        ValueView::Int(_) => "int"@,
        ValueView::IntArray(_) => "intArray"@,
        ValueView::Float(_) => "float"@,
        ValueView::FloatArray(_) => "floatArray"@,
        ValueView::Str(_) => "str"@,
        ValueView::StrArray(_) => "strArray"@,
    }
}

/// The operator tag of a node, as used in introspection and in the JSON
/// encoding.
pub open spec fn spec_expr_name(e: ExpressionView) -> Seq<char> {
    match e {
        ExpressionView::Literal(v) => spec_value_name(v),
        ExpressionView::Get(_) => "get"@,
        ExpressionView::Eq(_, _) => "eq"@,
        ExpressionView::Gt(_, _) => "gt"@,
    }
}

impl Value {
    /// The operator tag of this value when seen as a literal expression.
    pub fn name(&self) -> (r: &str)
        ensures
            r@ == spec_value_name(self@),
    {
        match self {
            Value::Bool(_) => "bool",
            Value::BoolArray(_) => "boolArray",
            Value::Int(_) => "int",
            Value::IntArray(_) => "intArray",
            Value::Float(_) => "float",
            Value::FloatArray(_) => "floatArray",
            Value::Str(_) => "str",
            Value::StrArray(_) => "strArray",
        }
    }
}

impl Clone for Expression {
    fn clone(&self) -> (r: Self)
        ensures
            r@ == self@,
        decreases self,
    {
        match self {
            Expression::Literal(v) => Expression::Literal(v.clone()),
            Expression::Get(name) => Expression::Get(name.clone()),
            Expression::Eq(l, r) => Expression::Eq(
                Box::new((**l).clone()),
                Box::new((**r).clone()),
            ),
            Expression::Gt(l, r) => Expression::Gt(
                Box::new((**l).clone()),
                Box::new((**r).clone()),
            ),
        }
    }
}

impl Expression {
    /// Evaluate against a context; see [`spec_eval`].
    pub fn eval(&self, context: &Context) -> (r: Result<Value, EvalError>)
        ensures
            match r {
                Ok(v) => spec_eval(self@, context@) == Ok::<ValueView, EvalErrorView>(v@),
                Err(e) => spec_eval(self@, context@) == Err::<ValueView, EvalErrorView>(e@),
            },
        decreases self,
    {
        match self {
            Expression::Literal(v) => Ok(v.clone()),
            Expression::Get(name) => match context.get(name.as_str()) {
                Some(v) => Ok(v.clone()),
                None => Err(EvalError::MissingContext { name: name.clone() }),
            },
            Expression::Eq(l, r) => {
                let lv = match l.eval(context) {
                    Ok(v) => v,
                    Err(e) => return Err(e),
                };
                let rv = match r.eval(context) {
                    Ok(v) => v,
                    Err(e) => return Err(e),
                };
                Ok(Value::Bool(lv.value_eq(&rv)))
            },
            Expression::Gt(l, r) => {
                let lv = match l.eval(context) {
                    Ok(v) => v,
                    Err(e) => return Err(e),
                };
                let rv = match r.eval(context) {
                    Ok(v) => v,
                    Err(e) => return Err(e),
                };
                Ok(Value::Bool(lv.value_gt(&rv)))
            },
        }
    }

    /// The operator tag of this node.
    pub fn name(&self) -> (r: &str)
        ensures
            r@ == spec_expr_name(self@),
    {
        match self {
            Expression::Literal(v) => v.name(),
            Expression::Get(_) => "get",
            Expression::Eq(_, _) => "eq",
            Expression::Gt(_, _) => "gt",
        }
    }

    /// The names this node itself reads from the context: a `Get` reports
    /// its own name; literals and composites report nothing of their own.
    pub fn context_dependencies(&self) -> (r: Option<Vec<String>>)
        ensures
            match self@ {
                ExpressionView::Get(n) => {
                    &&& r is Some
                    &&& r.unwrap()@.map_values(|s: String| s@) == seq![n]
                },
                _ => r is None,
            },
    {
        match self {
            Expression::Get(name) => {
                let mut deps: Vec<String> = Vec::new();
                deps.push(name.clone());
                proof {
                    assert(deps@.map_values(|s: String| s@) =~= seq![name@]);
                }
                Some(deps)
            },
            _ => None,
        }
    }

    /// The child expressions of this node, in order; see [`spec_args`].
    pub fn args(&self) -> (r: Vec<Expression>)
        ensures
            r@.map_values(|a: Expression| a@) == spec_args(self@),
    {
        match self {
            Expression::Literal(_) => {
                let r: Vec<Expression> = Vec::new();
                proof {
                    assert(r@.map_values(|a: Expression| a@) =~= spec_args(self@));
                }
                r
            },
            Expression::Get(name) => {
                let mut r: Vec<Expression> = Vec::new();
                r.push(Expression::Literal(Value::Str(name.clone())));
                proof {
                    assert(r@.map_values(|a: Expression| a@) =~= spec_args(self@));
                }
                r
            },
            Expression::Eq(l, d) => {
                let mut r: Vec<Expression> = Vec::new();
                r.push((**l).clone());
                r.push((**d).clone());
                proof {
                    assert(r@.map_values(|a: Expression| a@) =~= spec_args(self@));
                }
                r
            },
            Expression::Gt(l, d) => {
                let mut r: Vec<Expression> = Vec::new();
                r.push((**l).clone());
                r.push((**d).clone());
                proof {
                    assert(r@.map_values(|a: Expression| a@) =~= spec_args(self@));
                }
                r
            },
        }
    }
}

/// The all-arguments-share-one-type rule, read off a list of the
/// arguments' own type results: `expected` is the baseline, and the first
/// later entry that differs from it decides, reporting its 0-based
/// position; an argument whose own typing failed propagates that failure.
pub open spec fn spec_first_mismatch(
    op_json: Seq<char>,
    expected: Type,
    types: Seq<Result<Type, EvalErrorView>>,
    pos: int,
) -> Result<Option<Type>, EvalErrorView>
    decreases types.len() - pos,
{
    if pos < 0 || pos >= types.len() {
        Ok(Some(expected))
    } else {
        match types[pos] {
            Err(e) => Err(e),
            Ok(t) => if t == expected {
                spec_first_mismatch(op_json, expected, types, pos + 1)
            } else {
                Err(
                    EvalErrorView::TypeMismatch {
                        op_json,
                        arg_position: pos,
                        expected,
                        actual: t,
                    },
                )
            },
        }
    }
}

/// The same rule from the start of the list: an empty list passes with no
/// established type, otherwise the first entry is the baseline.
pub open spec fn spec_check_types(
    op_json: Seq<char>,
    types: Seq<Result<Type, EvalErrorView>>,
) -> Result<Option<Type>, EvalErrorView> {
    if types.len() == 0 {
        Ok(None)
    } else {
        match types[0] {
            Err(e) => Err(e),
            Ok(t) => spec_first_mismatch(op_json, t, types, 1),
        }
    }
}

/// The type results of a node's arguments, in order.
pub open spec fn spec_arg_types(e: ExpressionView, c: Map<Seq<char>, ValueView>) -> Seq<
    Result<Type, EvalErrorView>,
>
    decreases spec_height(e), 0int,
{
    match e {
        ExpressionView::Literal(_) => Seq::empty(),
        ExpressionView::Get(n) => seq![
            spec_eval_type(ExpressionView::Literal(ValueView::Str(n)), c),
        ],
        ExpressionView::Eq(l, r) => seq![spec_eval_type(*l, c), spec_eval_type(*r, c)],
        ExpressionView::Gt(l, r) => seq![spec_eval_type(*l, c), spec_eval_type(*r, c)],
    }
}

/// The shared type check of a node: the all-arguments-share-one-type rule
/// over the node's arguments, reporting mismatches against the node's own
/// JSON text.
pub open spec fn spec_type_check(e: ExpressionView, c: Map<Seq<char>, ValueView>) -> Result<
    Option<Type>,
    EvalErrorView,
>
    decreases spec_height(e), 1int,
{
    spec_check_types(crate::serialize::spec_expr_json(e), spec_arg_types(e, c))
}

/// The static type of an expression against a context: the concrete type
/// of a literal; for a `Get`, the concrete type of the value currently
/// bound in the context; for the comparisons, `Bool` once the shared rule
/// has passed.
pub open spec fn spec_eval_type(e: ExpressionView, c: Map<Seq<char>, ValueView>) -> Result<
    Type,
    EvalErrorView,
>
    decreases spec_height(e), 2int,
{
    match e {
        ExpressionView::Literal(v) => Ok(spec_concrete_type(v)),
        ExpressionView::Get(name) => if c.contains_key(name) {
            Ok(spec_concrete_type(c[name]))
        } else {
            Err(EvalErrorView::MissingContext { name })
        },
        ExpressionView::Eq(_, _) => match spec_type_check(e, c) {
            Ok(_) => Ok(Type::Bool),
            Err(err) => Err(err),
        },
        ExpressionView::Gt(_, _) => match spec_type_check(e, c) {
            Ok(_) => Ok(Type::Bool),
            Err(err) => Err(err),
        },
    }
}

/// The argument type list is the arguments' own type results, pointwise.
pub proof fn lemma_arg_types(e: ExpressionView, c: Map<Seq<char>, ValueView>)
    ensures
        spec_arg_types(e, c).len() == spec_args(e).len(),
        forall|i: int|
            0 <= i < spec_args(e).len() ==> spec_arg_types(e, c)[i] == spec_eval_type(
                #[trigger] spec_args(e)[i],
                c,
            ),
{
}

impl Expression {
    /// The static type against a context; see [`spec_eval_type`].
    pub fn eval_type(&self, context: &Context) -> (r: Result<Type, EvalError>)
        ensures
            match r {
                Ok(t) => spec_eval_type(self@, context@) == Ok::<Type, EvalErrorView>(t),
                Err(e) => spec_eval_type(self@, context@) == Err::<Type, EvalErrorView>(e@),
            },
        decreases spec_height(self@), 2int,
    {
        match self {
            Expression::Literal(v) => Ok(v.concrete_type()),
            Expression::Get(name) => match context.get(name.as_str()) {
                Some(v) => Ok(v.concrete_type()),
                None => Err(EvalError::MissingContext { name: name.clone() }),
            },
            Expression::Eq(_, _) => match crate::eval_type::type_check_all_args_have_same_type(
                context,
                self,
            ) {
                Ok(_) => Ok(Type::Bool),
                Err(e) => Err(e),
            },
            Expression::Gt(_, _) => match crate::eval_type::type_check_all_args_have_same_type(
                context,
                self,
            ) {
                Ok(_) => Ok(Type::Bool),
                Err(e) => Err(e),
            },
        }
    }
}

impl Expression {
    /// Evaluate and insist on a `Bool` result.
    pub fn eval_bool(&self, context: &Context) -> (r: Result<bool, EvalError>)
        ensures
            match r {
                Ok(b) => spec_eval(self@, context@) == Ok::<ValueView, EvalErrorView>(
                    ValueView::Bool(b),
                ),
                Err(e) => match spec_eval(self@, context@) {
                    Ok(v) => spec_as_bool(v) is None && e@ == (EvalErrorView::ValueTypeMismatch {
                        expected: Type::Bool,
                        actual: spec_concrete_type(v),
                    }),
                    Err(e0) => e@ == e0,
                },
            },
    {
        let value = match self.eval(context) {
            Ok(v) => v,
            Err(e) => return Err(e),
        };
        match value.as_bool() {
            Some(content) => Ok(content),
            None => Err(
                EvalError::ValueTypeMismatch {
                    expected: Type::Bool,
                    actual: value.concrete_type(),
                },
            ),
        }
    }

    /// Evaluate and insist on a `BoolArray` result of the given length.
    pub fn eval_bool_array(&self, context: &Context, size: usize) -> (r: Result<
        Vec<bool>,
        EvalError,
    >)
        ensures
            match r {
                Ok(out) => match spec_eval(self@, context@) {
                    Ok(v) => spec_as_bool_array(v, size as int) == Some(out@),
                    Err(_) => false,
                },
                Err(e) => match spec_eval(self@, context@) {
                    Ok(v) => spec_as_bool_array(v, size as int) is None && e@ == (
                    EvalErrorView::ValueTypeMismatch {
                        expected: Type::BoolArray(size),
                        actual: spec_concrete_type(v),
                    }),
                    Err(e0) => e@ == e0,
                },
            },
    {
        let value = match self.eval(context) {
            Ok(v) => v,
            Err(e) => return Err(e),
        };
        match value.as_bool_array(size) {
            Some(content) => Ok(content),
            None => Err(
                EvalError::ValueTypeMismatch {
                    expected: Type::BoolArray(size),
                    actual: value.concrete_type(),
                },
            ),
        }
    }

    /// Evaluate and insist on an `Int` result.
    pub fn eval_int(&self, context: &Context) -> (r: Result<i64, EvalError>)
        ensures
            match r {
                Ok(i) => spec_eval(self@, context@) == Ok::<ValueView, EvalErrorView>(
                    ValueView::Int(i),
                ),
                Err(e) => match spec_eval(self@, context@) {
                    Ok(v) => spec_as_int(v) is None && e@ == (EvalErrorView::ValueTypeMismatch {
                        expected: Type::Int,
                        actual: spec_concrete_type(v),
                    }),
                    Err(e0) => e@ == e0,
                },
            },
    {
        let value = match self.eval(context) {
            Ok(v) => v,
            Err(e) => return Err(e),
        };
        match value.as_int() {
            Some(content) => Ok(content),
            None => Err(
                EvalError::ValueTypeMismatch { expected: Type::Int, actual: value.concrete_type() },
            ),
        }
    }

    /// Evaluate and insist on an `IntArray` result of the given length.
    pub fn eval_int_array(&self, context: &Context, size: usize) -> (r: Result<
        Vec<i64>,
        EvalError,
    >)
        ensures
            match r {
                Ok(out) => match spec_eval(self@, context@) {
                    Ok(v) => spec_as_int_array(v, size as int) == Some(out@),
                    Err(_) => false,
                },
                Err(e) => match spec_eval(self@, context@) {
                    Ok(v) => spec_as_int_array(v, size as int) is None && e@ == (
                    EvalErrorView::ValueTypeMismatch {
                        expected: Type::IntArray(size),
                        actual: spec_concrete_type(v),
                    }),
                    Err(e0) => e@ == e0,
                },
            },
    {
        let value = match self.eval(context) {
            Ok(v) => v,
            Err(e) => return Err(e),
        };
        match value.as_int_array(size) {
            Some(content) => Ok(content),
            None => Err(
                EvalError::ValueTypeMismatch {
                    expected: Type::IntArray(size),
                    actual: value.concrete_type(),
                },
            ),
        }
    }

    /// Evaluate and insist on a `Float` result.
    pub fn eval_float(&self, context: &Context) -> (r: Result<Float64, EvalError>)
        ensures
            match r {
                Ok(f) => spec_eval(self@, context@) == Ok::<ValueView, EvalErrorView>(
                    ValueView::Float(f@),
                ),
                Err(e) => match spec_eval(self@, context@) {
                    Ok(v) => spec_as_float(v) is None && e@ == (EvalErrorView::ValueTypeMismatch {
                        expected: Type::Float,
                        actual: spec_concrete_type(v),
                    }),
                    Err(e0) => e@ == e0,
                },
            },
    {
        let value = match self.eval(context) {
            Ok(v) => v,
            Err(e) => return Err(e),
        };
        match value.as_float() {
            Some(content) => Ok(content),
            None => Err(
                EvalError::ValueTypeMismatch {
                    expected: Type::Float,
                    actual: value.concrete_type(),
                },
            ),
        }
    }

    /// Evaluate and insist on a `FloatArray` result of the given length.
    pub fn eval_float_array(&self, context: &Context, size: usize) -> (r: Result<
        Vec<Float64>,
        EvalError,
    >)
        ensures
            match r {
                Ok(out) => match spec_eval(self@, context@) {
                    Ok(v) => spec_as_float_array(v, size as int) == Some(
                        out@.map_values(|f: Float64| f@),
                    ),
                    Err(_) => false,
                },
                Err(e) => match spec_eval(self@, context@) {
                    Ok(v) => spec_as_float_array(v, size as int) is None && e@ == (
                    EvalErrorView::ValueTypeMismatch {
                        expected: Type::FloatArray(size),
                        actual: spec_concrete_type(v),
                    }),
                    Err(e0) => e@ == e0,
                },
            },
    {
        let value = match self.eval(context) {
            Ok(v) => v,
            Err(e) => return Err(e),
        };
        match value.as_float_array(size) {
            Some(content) => Ok(content),
            None => Err(
                EvalError::ValueTypeMismatch {
                    expected: Type::FloatArray(size),
                    actual: value.concrete_type(),
                },
            ),
        }
    }

    /// Evaluate and insist on a `Str` result.
    pub fn eval_str(&self, context: &Context) -> (r: Result<String, EvalError>)
        ensures
            match r {
                Ok(s) => spec_eval(self@, context@) == Ok::<ValueView, EvalErrorView>(
                    ValueView::Str(s@),
                ),
                Err(e) => match spec_eval(self@, context@) {
                    Ok(v) => spec_as_str(v) is None && e@ == (EvalErrorView::ValueTypeMismatch {
                        expected: Type::Str,
                        actual: spec_concrete_type(v),
                    }),
                    Err(e0) => e@ == e0,
                },
            },
    {
        let value = match self.eval(context) {
            Ok(v) => v,
            Err(e) => return Err(e),
        };
        match value.as_str() {
            Some(content) => Ok(content),
            None => Err(
                EvalError::ValueTypeMismatch { expected: Type::Str, actual: value.concrete_type() },
            ),
        }
    }

    /// Evaluate and insist on a `StrArray` result of the given length.
    pub fn eval_str_array(&self, context: &Context, size: usize) -> (r: Result<
        Vec<String>,
        EvalError,
    >)
        ensures
            match r {
                Ok(out) => match spec_eval(self@, context@) {
                    Ok(v) => spec_as_str_array(v, size as int) == Some(
                        out@.map_values(|s: String| s@),
                    ),
                    Err(_) => false,
                },
                Err(e) => match spec_eval(self@, context@) {
                    Ok(v) => spec_as_str_array(v, size as int) is None && e@ == (
                    EvalErrorView::ValueTypeMismatch {
                        expected: Type::StrArray(size),
                        actual: spec_concrete_type(v),
                    }),
                    Err(e0) => e@ == e0,
                },
            },
    {
        let value = match self.eval(context) {
            Ok(v) => v,
            Err(e) => return Err(e),
        };
        match value.as_str_array(size) {
            Some(content) => Ok(content),
            None => Err(
                EvalError::ValueTypeMismatch {
                    expected: Type::StrArray(size),
                    actual: value.concrete_type(),
                },
            ),
        }
    }
}

/// An `Eq` node comparing the two given expressions.
pub fn eq(left: Expression, right: Expression) -> (r: Expression)
    ensures
        r@ == ExpressionView::Eq(Box::new(left@), Box::new(right@)),
{
    Expression::Eq(Box::new(left), Box::new(right))
}

/// A `Gt` node comparing the two given expressions.
pub fn gt(left: Expression, right: Expression) -> (r: Expression)
    ensures
        r@ == ExpressionView::Gt(Box::new(left@), Box::new(right@)),
{
    Expression::Gt(Box::new(left), Box::new(right))
}

/// A `Get` node reading the named variable from the context.
pub fn get(name: &str) -> (r: Expression)
    ensures
        r@ == ExpressionView::Get(name@),
{
    Expression::Get(name.to_owned())
}

} // verus!
