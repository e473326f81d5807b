use vstd::prelude::*;

use crate::context::Context;
use crate::expression::EvalError;
use crate::expression::EvalErrorView;
use crate::expression::Expression;
use crate::expression::lemma_arg_types;
use crate::expression::lemma_args_height;
use crate::expression::spec_arg_types;
use crate::expression::spec_args;
use crate::expression::spec_first_mismatch;
use crate::expression::spec_height;
use crate::expression::spec_type_check;
use crate::serialize::spec_expr_json;

verus! {

/// The static type of a value of the expression language. Array types carry
/// their exact length: two array types are equal only if both the element
/// kind and the length match.
#[derive(Clone, Copy, PartialEq, Eq, Structural, Debug)]
pub enum Type {
    Bool,
    BoolArray(usize),
    Int,
    IntArray(usize),
    Float,
    FloatArray(usize),
    Str,
    StrArray(usize),
}

/// The shared all-arguments-share-one-type rule over a node's arguments:
/// the first argument's type is the baseline; the first later argument
/// whose type differs fails the check, reporting the node's JSON text, the
/// argument's 0-based position, the baseline as expected and its own type
/// as actual. A node without arguments passes with no established type.
#[verifier::loop_isolation(false)]
pub fn type_check_all_args_have_same_type(context: &Context, expression: &Expression) -> (r:
    Result<Option<Type>, EvalError>)
    ensures
        match r {
            Ok(t) => spec_type_check(expression@, context@) == Ok::<Option<Type>, EvalErrorView>(
                t,
            ),
            Err(e) => spec_type_check(expression@, context@) == Err::<
                Option<Type>,
                EvalErrorView,
            >(e@),
        },
    decreases spec_height(expression@), 1int,
{
    let ghost ev = expression@;
    let ghost c = context@;
    let ghost types = spec_arg_types(ev, c);
    let ghost opj = spec_expr_json(ev);
    proof {
        lemma_arg_types(ev, c);
        lemma_args_height(ev);
    }
    let args = expression.args();
    if args.len() == 0 {
        return Ok(None);
    }
    proof {
        assert(args@.map_values(|a: Expression| a@)[0] == spec_args(ev)[0]);
    }
    let expected = match args[0].eval_type(context) {
        Ok(t) => t,
        Err(e) => {
            return Err(e);
        },
    };
    let mut pos: usize = 1;
    while pos < args.len()
        invariant
            1 <= pos <= args@.len(),
            spec_first_mismatch(opj, expected, types, 1) == spec_first_mismatch(
                opj,
                expected,
                types,
                pos as int,
            ),
        decreases args@.len() - pos,
    {
        proof {
            assert(args@.map_values(|a: Expression| a@)[pos as int] == spec_args(ev)[pos as int]);
        }
        let found = match args[pos].eval_type(context) {
            Ok(t) => t,
            Err(e) => {
                return Err(e);
            },
        };
        if found != expected {
            let op_json = expression.to_json();
            return Err(
                EvalError::TypeMismatch { op_json, arg_position: pos, expected, actual: found },
            );
        }
        pos = pos + 1;
    }
    Ok(Some(expected))
}

} // verus!
