use vstd::prelude::*;
use vstd::string::StringExecFns;

use crate::expression::Expression;
use crate::expression::ExpressionView;
use crate::float64::Float64;
use crate::float64::FloatView;
use crate::json::JsonNode;
use crate::json::JsonView;
use crate::json::json_doc_of;
use crate::json::json_from_text;
use crate::json::lemma_fields_view;
use crate::json::lemma_nodes_view;
use crate::json::spec_fields_view;
use crate::json::spec_node_view;
use crate::json::spec_nodes_view;
use crate::text::str_eq;
use crate::value::Value;
use crate::value::ValueView;

verus! {

/// The view of a [`ParserError`].
pub enum ParserErrorView {
    InvalidInput { description: Seq<char> },
    InvalidNumber { description: Seq<char> },
    EmptyArray,
    MixedArray,
    NestedArray,
    InvalidOp,
    UnknownOp,
}

/// A failure to read an expression from JSON text: the text is not valid
/// JSON (`InvalidInput`), a numeric literal has no exact representation
/// (`InvalidNumber`), or the document's shape falls outside the grammar.
#[derive(Debug)]
pub enum ParserError {
    InvalidInput { description: String },
    InvalidNumber { description: String },
    EmptyArray,
    MixedArray,
    NestedArray,
    InvalidOp,
    UnknownOp,
}

impl View for ParserError {
    type V = ParserErrorView;

    open spec fn view(&self) -> ParserErrorView {
        match self {
            ParserError::InvalidInput { description } => ParserErrorView::InvalidInput {
                description: description@,
            },
            ParserError::InvalidNumber { description } => ParserErrorView::InvalidNumber {
                description: description@,
            },
            ParserError::EmptyArray => ParserErrorView::EmptyArray,
            ParserError::MixedArray => ParserErrorView::MixedArray,
            ParserError::NestedArray => ParserErrorView::NestedArray,
            ParserError::InvalidOp => ParserErrorView::InvalidOp,
            ParserError::UnknownOp => ParserErrorView::UnknownOp,
        }
    }
}

/// The booleans of an all-boolean array; any other element is a mixed
/// array.
pub open spec fn spec_parse_bool_items(s: Seq<JsonView>) -> Result<Seq<bool>, ParserErrorView>
    decreases s.len(),
{
    if s.len() == 0 {
        Ok(Seq::empty())
    } else {
        match s[0] {
            JsonView::Bool(b) => match spec_parse_bool_items(s.skip(1)) {
                Ok(rest) => Ok(seq![b] + rest),
                Err(e) => Err(e),
            },
            _ => Err(ParserErrorView::MixedArray),
        }
    }
}

/// The integers of an all-integer array; any other element — a float, an
/// integer beyond `i64`, or a non-number — makes it mixed.
pub open spec fn spec_parse_int_items(s: Seq<JsonView>) -> Result<Seq<i64>, ParserErrorView>
    decreases s.len(),
{
    if s.len() == 0 {
        Ok(Seq::empty())
    } else {
        match s[0] {
            JsonView::Int(i) => match spec_parse_int_items(s.skip(1)) {
                Ok(rest) => Ok(seq![i] + rest),
                Err(e) => Err(e),
            },
            _ => Err(ParserErrorView::MixedArray),
        }
    }
}

/// The floats of an all-float array; any other element, an integer
/// included, makes it mixed.
pub open spec fn spec_parse_float_items(s: Seq<JsonView>) -> Result<Seq<FloatView>, ParserErrorView>
    decreases s.len(),
{
    if s.len() == 0 {
        Ok(Seq::empty())
    } else {
        match s[0] {
            JsonView::Float(bits, tok) => match spec_parse_float_items(s.skip(1)) {
                Ok(rest) => Ok(seq![FloatView { bits, repr: tok }] + rest),
                Err(e) => Err(e),
            },
            _ => Err(ParserErrorView::MixedArray),
        }
    }
}

/// The strings of an all-string array; any other element makes it mixed.
pub open spec fn spec_parse_str_items(s: Seq<JsonView>) -> Result<Seq<Seq<char>>, ParserErrorView>
    decreases s.len(),
{
    if s.len() == 0 {
        Ok(Seq::empty())
    } else {
        match s[0] {
            JsonView::Str(t) => match spec_parse_str_items(s.skip(1)) {
                Ok(rest) => Ok(seq![t] + rest),
                Err(e) => Err(e),
            },
            _ => Err(ParserErrorView::MixedArray),
        }
    }
}

/// A JSON array as an array literal: the first element picks the kind,
/// every further element must share it; an empty array, or one whose first
/// element is itself an array or object, is rejected.
pub open spec fn spec_parse_array(items: Seq<JsonView>) -> Result<ExpressionView, ParserErrorView> {
    if items.len() == 0 {
        Err(ParserErrorView::EmptyArray)
    } else {
        match items[0] {
            JsonView::Bool(_) => match spec_parse_bool_items(items) {
                Ok(s) => Ok(ExpressionView::Literal(ValueView::BoolArray(s))),
                Err(e) => Err(e),
            },
            JsonView::Int(_) => match spec_parse_int_items(items) {
                Ok(s) => Ok(ExpressionView::Literal(ValueView::IntArray(s))),
                Err(e) => Err(e),
            },
            JsonView::BigInt(_) => match spec_parse_int_items(items) {
                Ok(s) => Ok(ExpressionView::Literal(ValueView::IntArray(s))),
                Err(e) => Err(e),
            },
            JsonView::Float(_, _) => match spec_parse_float_items(items) {
                Ok(s) => Ok(ExpressionView::Literal(ValueView::FloatArray(s))),
                Err(e) => Err(e),
            },
            JsonView::Str(_) => match spec_parse_str_items(items) {
                Ok(s) => Ok(ExpressionView::Literal(ValueView::StrArray(s))),
                Err(e) => Err(e),
            },
            _ => Err(ParserErrorView::NestedArray),
        }
    }
}

/// A JSON object as an operator node: exactly one key; `get` takes an
/// array of one string, `eq` an array of two expressions; a recognized key
/// with any other argument shape is an invalid operator, an unrecognized
/// key an unknown one.
pub open spec fn spec_parse_object(fields: Seq<(Seq<char>, JsonView)>) -> Result<
    ExpressionView,
    ParserErrorView,
>
    decreases fields,
{
    if fields.len() != 1 {
        Err(ParserErrorView::InvalidOp)
    } else {
        let key = fields[0].0;
        let arg = fields[0].1;
        if key == "get"@ {
            match arg {
                JsonView::Array(items) => if items.len() == 1 {
                    match items[0] {
                        JsonView::Str(name) => Ok(ExpressionView::Get(name)),
                        _ => Err(ParserErrorView::InvalidOp),
                    }
                } else {
                    Err(ParserErrorView::InvalidOp)
                },
                _ => Err(ParserErrorView::InvalidOp),
            }
        } else if key == "eq"@ {
            match arg {
                JsonView::Array(items) => if items.len() == 2 {
                    match spec_parse_node(items[0]) {
                        Err(e) => Err(e),
                        Ok(l) => match spec_parse_node(items[1]) {
                            Err(e) => Err(e),
                            Ok(r) => Ok(ExpressionView::Eq(Box::new(l), Box::new(r))),
                        },
                    }
                } else {
                    Err(ParserErrorView::InvalidOp)
                },
                _ => Err(ParserErrorView::InvalidOp),
            }
        } else {
            Err(ParserErrorView::UnknownOp)
        }
    }
}

/// A JSON document as an expression, as the grammar reads it. A `null`
/// anywhere a value is expected is rejected; an integer token beyond
/// `i64` is an invalid number.
pub open spec fn spec_parse_node(j: JsonView) -> Result<ExpressionView, ParserErrorView>
    decreases j,
{
    match j {
        JsonView::Null => Err(ParserErrorView::InvalidInput { description: "unsupported"@ }),
        JsonView::Bool(b) => Ok(ExpressionView::Literal(ValueView::Bool(b))),
        JsonView::Int(i) => Ok(ExpressionView::Literal(ValueView::Int(i))),
        JsonView::BigInt(txt) => Err(
            ParserErrorView::InvalidNumber { description: "Invalid int: "@ + txt },
        ),
        JsonView::Float(bits, tok) => Ok(
            ExpressionView::Literal(ValueView::Float(FloatView { bits, repr: tok })),
        ),
        JsonView::Str(s) => Ok(ExpressionView::Literal(ValueView::Str(s))),
        JsonView::Array(items) => spec_parse_array(items),
        JsonView::Object(fields) => spec_parse_object(fields),
    }
}

fn parse_json_bool_array(items: &Vec<JsonNode>) -> (r: Result<Expression, ParserError>)
    ensures
        match r {
            Ok(e) => (match spec_parse_bool_items(spec_nodes_view(items@)) {
                Ok(s) => e@ == ExpressionView::Literal(ValueView::BoolArray(s)),
                Err(_) => false,
            }),
            Err(pe) => spec_parse_bool_items(spec_nodes_view(items@)) == Err::<
                Seq<bool>,
                ParserErrorView,
            >(pe@),
        },
{
    let ghost views = spec_nodes_view(items@);
    proof {
        lemma_nodes_view(items@);
        assert(views.skip(0) =~= views);
    }
    let mut acc: Vec<bool> = Vec::new();
    let mut i: usize = 0;
    while i < items.len()
        invariant
            views == spec_nodes_view(items@),
            views.len() == items@.len(),
            forall|j: int|
                0 <= j < items@.len() ==> views[j] == spec_node_view(#[trigger] items@[j]),
            i <= items@.len(),
            acc@.len() == i,
            spec_parse_bool_items(views) == (match spec_parse_bool_items(views.skip(i as int)) {
                Ok(rest) => Ok::<Seq<bool>, ParserErrorView>(acc@ + rest),
                Err(e) => Err(e),
            }),
        decreases items@.len() - i,
    {
        proof {
            assert(views.skip(i as int)[0] == views[i as int]);
            assert(views.skip(i as int).skip(1) =~= views.skip(i + 1));
        }
        match &items[i] {
            JsonNode::Bool(content) => {
                let ghost old_acc = acc@;
                acc.push(*content);
                proof {
                    if spec_parse_bool_items(views.skip(i + 1)) is Ok {
                        let rest = spec_parse_bool_items(views.skip(i + 1))->Ok_0;
                        assert(old_acc + (seq![*content] + rest) =~= acc@ + rest);
                    }
                }
            },
            _ => {
                return Err(ParserError::MixedArray);
            },
        }
        i = i + 1;
    }
    proof {
        assert(views.skip(views.len() as int) =~= Seq::<JsonView>::empty());
        assert(acc@ + Seq::<bool>::empty() =~= acc@);
    }
    Ok(Expression::Literal(Value::BoolArray(acc)))
}

fn parse_json_int_array(items: &Vec<JsonNode>) -> (r: Result<Expression, ParserError>)
    ensures
        match r {
            Ok(e) => (match spec_parse_int_items(spec_nodes_view(items@)) {
                Ok(s) => e@ == ExpressionView::Literal(ValueView::IntArray(s)),
                Err(_) => false,
            }),
            Err(pe) => spec_parse_int_items(spec_nodes_view(items@)) == Err::<
                Seq<i64>,
                ParserErrorView,
            >(pe@),
        },
{
    let ghost views = spec_nodes_view(items@);
    proof {
        lemma_nodes_view(items@);
        assert(views.skip(0) =~= views);
    }
    let mut acc: Vec<i64> = Vec::new();
    let mut i: usize = 0;
    while i < items.len()
        invariant
            views == spec_nodes_view(items@),
            views.len() == items@.len(),
            forall|j: int|
                0 <= j < items@.len() ==> views[j] == spec_node_view(#[trigger] items@[j]),
            i <= items@.len(),
            acc@.len() == i,
            spec_parse_int_items(views) == (match spec_parse_int_items(views.skip(i as int)) {
                Ok(rest) => Ok::<Seq<i64>, ParserErrorView>(acc@ + rest),
                Err(e) => Err(e),
            }),
        decreases items@.len() - i,
    {
        proof {
            assert(views.skip(i as int)[0] == views[i as int]);
            assert(views.skip(i as int).skip(1) =~= views.skip(i + 1));
        }
        match &items[i] {
            JsonNode::Int(content) => {
                let ghost old_acc = acc@;
                acc.push(*content);
                proof {
                    if spec_parse_int_items(views.skip(i + 1)) is Ok {
                        let rest = spec_parse_int_items(views.skip(i + 1))->Ok_0;
                        assert(old_acc + (seq![*content] + rest) =~= acc@ + rest);
                    }
                }
            },
            _ => {
                return Err(ParserError::MixedArray);
            },
        }
        i = i + 1;
    }
    proof {
        assert(views.skip(views.len() as int) =~= Seq::<JsonView>::empty());
        assert(acc@ + Seq::<i64>::empty() =~= acc@);
    }
    Ok(Expression::Literal(Value::IntArray(acc)))
}

fn parse_json_float_array(items: &Vec<JsonNode>) -> (r: Result<Expression, ParserError>)
    ensures
        match r {
            Ok(e) => (match spec_parse_float_items(spec_nodes_view(items@)) {
                Ok(s) => e@ == ExpressionView::Literal(ValueView::FloatArray(s)),
                Err(_) => false,
            }),
            Err(pe) => spec_parse_float_items(spec_nodes_view(items@)) == Err::<
                Seq<FloatView>,
                ParserErrorView,
            >(pe@),
        },
{
    let ghost views = spec_nodes_view(items@);
    proof {
        lemma_nodes_view(items@);
        assert(views.skip(0) =~= views);
    }
    let mut acc: Vec<Float64> = Vec::new();
    let mut i: usize = 0;
    while i < items.len()
        invariant
            views == spec_nodes_view(items@),
            views.len() == items@.len(),
            forall|j: int|
                0 <= j < items@.len() ==> views[j] == spec_node_view(#[trigger] items@[j]),
            i <= items@.len(),
            acc@.len() == i,
            spec_parse_float_items(views) == (match spec_parse_float_items(views.skip(i as int)) {
                Ok(rest) => Ok::<Seq<FloatView>, ParserErrorView>(
                    acc@.map_values(|f: Float64| f@) + rest,
                ),
                Err(e) => Err(e),
            }),
        decreases items@.len() - i,
    {
        proof {
            assert(views.skip(i as int)[0] == views[i as int]);
            assert(views.skip(i as int).skip(1) =~= views.skip(i + 1));
        }
        match &items[i] {
            JsonNode::Float(bits, tok) => {
                let ghost old_acc = acc@.map_values(|f: Float64| f@);
                acc.push(Float64::new(*bits, tok.clone()));
                proof {
                    assert(acc@.map_values(|f: Float64| f@) =~= old_acc.push(
                        FloatView { bits: *bits, repr: tok@ },
                    ));
                    if spec_parse_float_items(views.skip(i + 1)) is Ok {
                        let rest = spec_parse_float_items(views.skip(i + 1))->Ok_0;
                        assert(old_acc + (seq![FloatView { bits: *bits, repr: tok@ }] + rest) =~=
                            acc@.map_values(|f: Float64| f@) + rest);
                    }
                }
            },
            _ => {
                return Err(ParserError::MixedArray);
            },
        }
        i = i + 1;
    }
    proof {
        assert(views.skip(views.len() as int) =~= Seq::<JsonView>::empty());
        assert(acc@.map_values(|f: Float64| f@) + Seq::<FloatView>::empty() =~= acc@.map_values(
            |f: Float64| f@,
        ));
    }
    Ok(Expression::Literal(Value::FloatArray(acc)))
}

fn parse_json_str_array(items: &Vec<JsonNode>) -> (r: Result<Expression, ParserError>)
    ensures
        match r {
            Ok(e) => (match spec_parse_str_items(spec_nodes_view(items@)) {
                Ok(s) => e@ == ExpressionView::Literal(ValueView::StrArray(s)),
                Err(_) => false,
            }),
            Err(pe) => spec_parse_str_items(spec_nodes_view(items@)) == Err::<
                Seq<Seq<char>>,
                ParserErrorView,
            >(pe@),
        },
{
    let ghost views = spec_nodes_view(items@);
    proof {
        lemma_nodes_view(items@);
        assert(views.skip(0) =~= views);
    }
    let mut acc: Vec<String> = Vec::new();
    let mut i: usize = 0;
    while i < items.len()
        invariant
            views == spec_nodes_view(items@),
            views.len() == items@.len(),
            forall|j: int|
                0 <= j < items@.len() ==> views[j] == spec_node_view(#[trigger] items@[j]),
            i <= items@.len(),
            acc@.len() == i,
            spec_parse_str_items(views) == (match spec_parse_str_items(views.skip(i as int)) {
                Ok(rest) => Ok::<Seq<Seq<char>>, ParserErrorView>(
                    acc@.map_values(|s: String| s@) + rest,
                ),
                Err(e) => Err(e),
            }),
        decreases items@.len() - i,
    {
        proof {
            assert(views.skip(i as int)[0] == views[i as int]);
            assert(views.skip(i as int).skip(1) =~= views.skip(i + 1));
        }
        match &items[i] {
            JsonNode::Str(content) => {
                let ghost old_acc = acc@.map_values(|s: String| s@);
                acc.push(content.clone());
                proof {
                    assert(acc@.map_values(|s: String| s@) =~= old_acc.push(content@));
                    if spec_parse_str_items(views.skip(i + 1)) is Ok {
                        let rest = spec_parse_str_items(views.skip(i + 1))->Ok_0;
                        assert(old_acc + (seq![content@] + rest) =~= acc@.map_values(
                            |s: String| s@,
                        ) + rest);
                    }
                }
            },
            _ => {
                return Err(ParserError::MixedArray);
            },
        }
        i = i + 1;
    }
    proof {
        assert(views.skip(views.len() as int) =~= Seq::<JsonView>::empty());
        assert(acc@.map_values(|s: String| s@) + Seq::<Seq<char>>::empty() =~= acc@.map_values(
            |s: String| s@,
        ));
    }
    Ok(Expression::Literal(Value::StrArray(acc)))
}

fn parse_json_array(items: &Vec<JsonNode>) -> (r: Result<Expression, ParserError>)
    ensures
        match r {
            Ok(e) => spec_parse_array(spec_nodes_view(items@)) == Ok::<
                ExpressionView,
                ParserErrorView,
            >(e@),
            Err(pe) => spec_parse_array(spec_nodes_view(items@)) == Err::<
                ExpressionView,
                ParserErrorView,
            >(pe@),
        },
{
    proof {
        lemma_nodes_view(items@);
    }
    if items.len() == 0 {
        return Err(ParserError::EmptyArray);
    }
    match &items[0] {
        JsonNode::Bool(_) => parse_json_bool_array(items),
        JsonNode::Int(_) => parse_json_int_array(items),
        JsonNode::BigInt(_) => parse_json_int_array(items),
        JsonNode::Float(_, _) => parse_json_float_array(items),
        JsonNode::Str(_) => parse_json_str_array(items),
        _ => Err(ParserError::NestedArray),
    }
}

fn parse_json_object(fields: &Vec<(String, JsonNode)>) -> (r: Result<Expression, ParserError>)
    ensures
        match r {
            Ok(e) => spec_parse_object(spec_fields_view(fields@)) == Ok::<
                ExpressionView,
                ParserErrorView,
            >(e@),
            Err(pe) => spec_parse_object(spec_fields_view(fields@)) == Err::<
                ExpressionView,
                ParserErrorView,
            >(pe@),
        },
    decreases fields@,
{
    let ghost fv = spec_fields_view(fields@);
    proof {
        lemma_fields_view(fields@);
    }
    if fields.len() != 1 {
        return Err(ParserError::InvalidOp);
    }
    let entry = &fields[0];
    proof {
        assert(fv[0] == (fields@[0].0@, spec_node_view(fields@[0].1)));
    }
    if str_eq(entry.0.as_str(), "get") {
        match &entry.1 {
            JsonNode::Array(items) => {
                proof {
                    lemma_nodes_view(items@);
                }
                if items.len() == 1 {
                    match &items[0] {
                        JsonNode::Str(name) => Ok(Expression::Get(name.clone())),
                        _ => Err(ParserError::InvalidOp),
                    }
                } else {
                    Err(ParserError::InvalidOp)
                }
            },
            _ => Err(ParserError::InvalidOp),
        }
    } else if str_eq(entry.0.as_str(), "eq") {
        match &entry.1 {
            JsonNode::Array(items) => {
                proof {
                    lemma_nodes_view(items@);
                }
                if items.len() == 2 {
                    let left = match parse_json_value(&items[0]) {
                        Ok(e) => e,
                        Err(pe) => return Err(pe),
                    };
                    let right = match parse_json_value(&items[1]) {
                        Ok(e) => e,
                        Err(pe) => return Err(pe),
                    };
                    Ok(Expression::Eq(Box::new(left), Box::new(right)))
                } else {
                    Err(ParserError::InvalidOp)
                }
            },
            _ => Err(ParserError::InvalidOp),
        }
    } else {
        Err(ParserError::UnknownOp)
    }
}

fn parse_json_value(node: &JsonNode) -> (r: Result<Expression, ParserError>)
    ensures
        match r {
            Ok(e) => spec_parse_node(node@) == Ok::<ExpressionView, ParserErrorView>(e@),
            Err(pe) => spec_parse_node(node@) == Err::<ExpressionView, ParserErrorView>(pe@),
        },
    decreases node,
{
    match node {
        JsonNode::Null => Err(
            ParserError::InvalidInput { description: "unsupported".to_owned() },
        ),
        JsonNode::Bool(content) => Ok(Expression::Literal(Value::Bool(*content))),
        JsonNode::Int(content) => Ok(Expression::Literal(Value::Int(*content))),
        JsonNode::BigInt(txt) => {
            let mut description: String = "Invalid int: ".to_owned();
            description.append(txt.as_str());
            Err(ParserError::InvalidNumber { description })
        },
        JsonNode::Float(bits, tok) => Ok(
            Expression::Literal(Value::Float(Float64::new(*bits, tok.clone()))),
        ),
        JsonNode::Str(content) => Ok(Expression::Literal(Value::Str(content.clone()))),
        JsonNode::Array(items) => parse_json_array(items),
        JsonNode::Object(entries) => parse_json_object(entries),
    }
}

/// Read one expression from JSON text. Text that is not valid JSON fails
/// with `InvalidInput` carrying serde_json's message; a well-formed
/// document is read by the grammar, see [`spec_parse_node`].
pub fn parse(input: &str) -> (r: Result<Expression, ParserError>)
    ensures
        match json_doc_of(input@) {
            None => r is Err && r->Err_0@ is InvalidInput,
            Some(doc) => match r {
                Ok(e) => spec_parse_node(doc) == Ok::<ExpressionView, ParserErrorView>(e@),
                Err(pe) => spec_parse_node(doc) == Err::<ExpressionView, ParserErrorView>(pe@),
            },
        },
{
    match json_from_text(input) {
        Err(description) => Err(ParserError::InvalidInput { description }),
        Ok(node) => parse_json_value(&node),
    }
}

} // verus!
