use vstd::prelude::*;

use crate::eval_type::Type;
use crate::expression::EvalErrorView;
use crate::expression::ExpressionView;
use crate::expression::spec_eval;
use crate::expression::spec_eval_type;
use crate::value::ValueView;
use crate::value::spec_concrete_type;
use crate::value::spec_float_free;
use crate::value::spec_nan_free;
use crate::value::spec_value_eq;

verus! {

/// A literal evaluates to its value, with its value's concrete type, in
/// every context.
pub proof fn lemma_literal_eval(v: ValueView, c: Map<Seq<char>, ValueView>)
    ensures
        spec_eval(ExpressionView::Literal(v), c) == Ok::<ValueView, EvalErrorView>(v),
        spec_eval_type(ExpressionView::Literal(v), c) == Ok::<Type, EvalErrorView>(
            spec_concrete_type(v),
        ),
{
}

/// A variable lookup returns exactly the context's binding when the name
/// is present, with that value's concrete type as its static type; an
/// absent name fails both evaluation and typing with `MissingContext`
/// carrying the name.
pub proof fn lemma_get_eval(name: Seq<char>, c: Map<Seq<char>, ValueView>)
    ensures
        c.contains_key(name) ==> spec_eval(ExpressionView::Get(name), c) == Ok::<
            ValueView,
            EvalErrorView,
        >(c[name]),
        c.contains_key(name) ==> spec_eval_type(ExpressionView::Get(name), c) == Ok::<
            Type,
            EvalErrorView,
        >(spec_concrete_type(c[name])),
        !c.contains_key(name) ==> spec_eval(ExpressionView::Get(name), c) == Err::<
            ValueView,
            EvalErrorView,
        >(EvalErrorView::MissingContext { name }),
        !c.contains_key(name) ==> spec_eval_type(ExpressionView::Get(name), c) == Err::<
            Type,
            EvalErrorView,
        >(EvalErrorView::MissingContext { name }),
{
}

/// Comparing a value with itself for equality yields `true` in every
/// context, provided no NaN hides in the value: a NaN equals nothing,
/// itself included.
pub proof fn lemma_eq_self(v: ValueView, c: Map<Seq<char>, ValueView>)
    requires
        spec_nan_free(v),
    ensures
        spec_eval(
            ExpressionView::Eq(
                Box::new(ExpressionView::Literal(v)),
                Box::new(ExpressionView::Literal(v)),
            ),
            c,
        ) == Ok::<ValueView, EvalErrorView>(ValueView::Bool(true)),
{
    reveal_with_fuel(spec_eval, 2);
    assert(spec_value_eq(v, v));
}

/// Comparing two distinct float-free values of one shared type yields
/// `false` in every context. (A float value can evaluate equal to a
/// distinct one: the two zeroes compare equal, and two floats that differ
/// only in their printed token share their bits.)
pub proof fn lemma_eq_different(a: ValueView, b: ValueView, c: Map<Seq<char>, ValueView>)
    requires
        spec_concrete_type(a) == spec_concrete_type(b),
        a != b,
        spec_float_free(a),
    ensures
        spec_eval(
            ExpressionView::Eq(
                Box::new(ExpressionView::Literal(a)),
                Box::new(ExpressionView::Literal(b)),
            ),
            c,
        ) == Ok::<ValueView, EvalErrorView>(ValueView::Bool(false)),
{
    reveal_with_fuel(spec_eval, 2);
    assert(!spec_value_eq(a, b));
}

/// Static and dynamic types never disagree: wherever evaluation and
/// typing both succeed on one expression and context, the static type is
/// the concrete type of the value that evaluation produced.
pub proof fn lemma_eval_type_agrees(e: ExpressionView, c: Map<Seq<char>, ValueView>)
    requires
        spec_eval(e, c) is Ok,
        spec_eval_type(e, c) is Ok,
    ensures
        spec_eval_type(e, c)->Ok_0 == spec_concrete_type(spec_eval(e, c)->Ok_0),
{
}

} // verus!
