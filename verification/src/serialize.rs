use vstd::prelude::*;
use vstd::string::StringExecFns;

use crate::expression::Expression;
use crate::expression::ExpressionView;
use crate::float64::FloatView;
use crate::json::int_token;
use crate::json::spec_int_token;
use crate::json::spec_string_token;
use crate::json::string_token;
use crate::value::Value;
use crate::value::ValueView;

verus! {

/// The JSON token of a boolean.
pub open spec fn spec_bool_token(b: bool) -> Seq<char> {
    if b {
        "true"@
    } else {
        "false"@
    }
}

/// Rendered pieces joined with commas.
pub open spec fn spec_join_comma(parts: Seq<Seq<char>>) -> Seq<char>
    decreases parts.len(),
{
    if parts.len() == 0 {
        Seq::empty()
    } else if parts.len() == 1 {
        parts[0]
    } else {
        parts[0] + ","@ + spec_join_comma(parts.skip(1))
    }
}

proof fn lemma_join_push(parts: Seq<Seq<char>>, x: Seq<char>)
    ensures
        spec_join_comma(parts.push(x)) == if parts.len() == 0 {
            x
        } else {
            spec_join_comma(parts) + ","@ + x
        },
    decreases parts.len(),
{
    let p2 = parts.push(x);
    if parts.len() == 0 {
        assert(p2.len() == 1);
        assert(p2[0] == x);
    } else {
        lemma_join_push(parts.skip(1), x);
        assert(p2.skip(1) =~= parts.skip(1).push(x));
        assert(p2[0] == parts[0]);
        if parts.len() == 1 {
            assert(parts.skip(1).len() == 0);
        } else {
            assert(parts[0] + ","@ + (spec_join_comma(parts.skip(1)) + ","@ + x) =~= (parts[0]
                + ","@ + spec_join_comma(parts.skip(1))) + ","@ + x);
        }
    }
}

/// The given rendered pieces between brackets, comma-separated.
fn join_tokens(tokens: &Vec<String>) -> (r: String)
    ensures
        r@ == "["@ + spec_join_comma(tokens@.map_values(|t: String| t@)) + "]"@,
{
    let ghost toks = tokens@.map_values(|t: String| t@);
    let mut out: String = "[".to_owned();
    let mut i: usize = 0;
    proof {
        assert(toks.take(0) =~= Seq::<Seq<char>>::empty());
    }
    while i < tokens.len()
        invariant
            toks == tokens@.map_values(|t: String| t@),
            i <= tokens@.len(),
            out@ == "["@ + spec_join_comma(toks.take(i as int)),
        decreases tokens@.len() - i,
    {
        proof {
            assert(toks[i as int] == tokens@[i as int]@);
        }
        if i > 0 {
            out.append(",");
        }
        out.append(tokens[i].as_str());
        proof {
            lemma_join_push(toks.take(i as int), toks[i as int]);
            assert(toks.take(i + 1) =~= toks.take(i as int).push(toks[i as int]));
            if i > 0 {
                assert(("["@ + spec_join_comma(toks.take(i as int))) + ","@ + toks[i as int] =~=
                    "["@ + (spec_join_comma(toks.take(i as int)) + ","@ + toks[i as int]));
            }
        }
        i = i + 1;
    }
    out.append("]");
    proof {
        assert(toks.take(toks.len() as int) =~= toks);
    }
    out
}

/// The canonical JSON text of a value: bare JSON literals, arrays in
/// brackets, floats printed with their carried token.
pub open spec fn spec_value_json(v: ValueView) -> Seq<char> {
    match v {
        ValueView::Bool(b) => spec_bool_token(b),
        ValueView::BoolArray(s) => "["@ + spec_join_comma(
            s.map_values(|b: bool| spec_bool_token(b)),
        ) + "]"@,
        ValueView::Int(i) => spec_int_token(i as int),
        ValueView::IntArray(s) => "["@ + spec_join_comma(
            s.map_values(|i: i64| spec_int_token(i as int)),
        ) + "]"@,
        ValueView::Float(f) => f.repr,
        ValueView::FloatArray(s) => "["@ + spec_join_comma(s.map_values(|f: FloatView| f.repr))
            + "]"@,
        ValueView::Str(s) => spec_string_token(s),
        ValueView::StrArray(ss) => "["@ + spec_join_comma(
            ss.map_values(|s: Seq<char>| spec_string_token(s)),
        ) + "]"@,
    }
}

/// The canonical JSON text of an expression: literals as bare JSON, and an
/// operator as an object of its tag and its bracketed arguments.
pub open spec fn spec_expr_json(e: ExpressionView) -> Seq<char>
    decreases e,
{
    match e {
        ExpressionView::Literal(v) => spec_value_json(v),
        ExpressionView::Get(n) => "{\"get\":["@ + spec_string_token(n) + "]}"@,
        ExpressionView::Eq(l, r) => "{\"eq\":["@ + spec_expr_json(*l) + ","@ + spec_expr_json(*r)
            + "]}"@,
        ExpressionView::Gt(l, r) => "{\"gt\":["@ + spec_expr_json(*l) + ","@ + spec_expr_json(*r)
            + "]}"@,
    }
}

impl Value {
    /// The canonical JSON text of this value; see [`spec_value_json`].
    pub fn to_json(&self) -> (r: String)
        ensures
            r@ == spec_value_json(self@),
    {
        match self {
            Value::Bool(b) => if *b {
                "true".to_owned()
            } else {
                "false".to_owned()
            },
            Value::BoolArray(items) => {
                let mut tokens: Vec<String> = Vec::new();
                let mut i: usize = 0;
                while i < items.len()
                    invariant
                        i <= items@.len(),
                        tokens@.len() == i,
                        forall|j: int| 0 <= j < i ==> tokens@[j]@ == spec_bool_token(items@[j]),
                    decreases items@.len() - i,
                {
                    tokens.push(
                        if items[i] {
                            "true".to_owned()
                        } else {
                            "false".to_owned()
                        },
                    );
                    i = i + 1;
                }
                let r = join_tokens(&tokens);
                proof {
                    assert(tokens@.map_values(|t: String| t@) =~= items@.map_values(
                        |b: bool| spec_bool_token(b),
                    ));
                }
                r
            },
            Value::Int(i) => int_token(*i),
            Value::IntArray(items) => {
                let mut tokens: Vec<String> = Vec::new();
                let mut i: usize = 0;
                while i < items.len()
                    invariant
                        i <= items@.len(),
                        tokens@.len() == i,
                        forall|j: int|
                            0 <= j < i ==> tokens@[j]@ == spec_int_token(items@[j] as int),
                    decreases items@.len() - i,
                {
                    tokens.push(int_token(items[i]));
                    i = i + 1;
                }
                let r = join_tokens(&tokens);
                proof {
                    assert(tokens@.map_values(|t: String| t@) =~= items@.map_values(
                        |i: i64| spec_int_token(i as int),
                    ));
                }
                r
            },
            Value::Float(f) => f.repr().to_owned(),
            Value::FloatArray(items) => {
                let mut tokens: Vec<String> = Vec::new();
                let mut i: usize = 0;
                while i < items.len()
                    invariant
                        i <= items@.len(),
                        tokens@.len() == i,
                        forall|j: int| 0 <= j < i ==> tokens@[j]@ == items@[j]@.repr,
                    decreases items@.len() - i,
                {
                    tokens.push(items[i].repr().to_owned());
                    i = i + 1;
                }
                let r = join_tokens(&tokens);
                proof {
                    assert(tokens@.map_values(|t: String| t@) =~= items@.map_values(
                        |f: crate::float64::Float64| f@,
                    ).map_values(|f: FloatView| f.repr));
                }
                r
            },
            Value::Str(s) => string_token(s.as_str()),
            Value::StrArray(items) => {
                let mut tokens: Vec<String> = Vec::new();
                let mut i: usize = 0;
                while i < items.len()
                    invariant
                        i <= items@.len(),
                        tokens@.len() == i,
                        forall|j: int| 0 <= j < i ==> tokens@[j]@ == spec_string_token(items@[j]@),
                    decreases items@.len() - i,
                {
                    tokens.push(string_token(items[i].as_str()));
                    i = i + 1;
                }
                let r = join_tokens(&tokens);
                proof {
                    assert(tokens@.map_values(|t: String| t@) =~= items@.map_values(
                        |s: String| s@,
                    ).map_values(|s: Seq<char>| spec_string_token(s)));
                }
                r
            },
        }
    }
}

impl Expression {
    /// The canonical JSON text of this expression; see [`spec_expr_json`].
    pub fn to_json(&self) -> (r: String)
        ensures
            r@ == spec_expr_json(self@),
        decreases self,
    {
        match self {
            Expression::Literal(v) => v.to_json(),
            Expression::Get(name) => {
                let mut out: String = "{\"get\":[".to_owned();
                let tok = string_token(name.as_str());
                out.append(tok.as_str());
                out.append("]}");
                out
            },
            Expression::Eq(l, r) => {
                let mut out: String = "{\"eq\":[".to_owned();
                let lt = l.to_json();
                out.append(lt.as_str());
                out.append(",");
                let rt = r.to_json();
                out.append(rt.as_str());
                out.append("]}");
                out
            },
            Expression::Gt(l, r) => {
                let mut out: String = "{\"gt\":[".to_owned();
                let lt = l.to_json();
                out.append(lt.as_str());
                out.append(",");
                let rt = r.to_json();
                out.append(rt.as_str());
                out.append("]}");
                out
            },
        }
    }
}

} // verus!
