use vstd::prelude::*;

use serde_json::Value as JsonValue;

verus! {

/// The decimal digit character for `d` in `0..10`.
pub open spec fn spec_digit(d: int) -> char {
    if d == 0 {
        '0'
    } else if d == 1 {
        '1'
    } else if d == 2 {
        '2'
    } else if d == 3 {
        '3'
    } else if d == 4 {
        '4'
    } else if d == 5 {
        '5'
    } else if d == 6 {
        '6'
    } else if d == 7 {
        '7'
    } else if d == 8 {
        '8'
    } else {
        '9'
    }
}

/// The decimal digits of a non-negative integer, most significant first.
pub open spec fn spec_nat_token(n: int) -> Seq<char>
    decreases n,
{
    if n < 10 {
        seq![spec_digit(n)]
    } else {
        spec_nat_token(n / 10).push(spec_digit(n % 10))
    }
}

/// The JSON token of a signed 64-bit integer: decimal digits with a leading
/// minus sign for negative values.
pub open spec fn spec_int_token(i: int) -> Seq<char> {
    if i < 0 {
        seq!['-'] + spec_nat_token(-i)
    } else {
        spec_nat_token(i)
    }
}

/// The lowercase hexadecimal digit character for `d` in `0..16`.
pub open spec fn spec_hex_digit(d: int) -> char {
    if d < 10 {
        spec_digit(d)
    } else if d == 10 {
        'a'
    } else if d == 11 {
        'b'
    } else if d == 12 {
        'c'
    } else if d == 13 {
        'd'
    } else if d == 14 {
        'e'
    } else {
        'f'
    }
}

/// serde_json's escape of one character inside a JSON string: the two-byte
/// short escapes for quote, backslash and the five named control
/// characters, `\u00..` for the other control characters, and the character
/// itself otherwise.
pub open spec fn spec_escape_char(c: char) -> Seq<char> {
    if c == '"' {
        seq!['\\', '"']
    } else if c == '\\' {
        seq!['\\', '\\']
    } else if c == '\u{8}' {
        seq!['\\', 'b']
    } else if c == '\t' {
        seq!['\\', 't']
    } else if c == '\n' {
        seq!['\\', 'n']
    } else if c == '\u{c}' {
        seq!['\\', 'f']
    } else if c == '\r' {
        seq!['\\', 'r']
    } else if (c as int) < 0x20 {
        seq!['\\', 'u', '0', '0', spec_hex_digit((c as int) / 16), spec_hex_digit((c as int) % 16)]
    } else {
        seq![c]
    }
}

/// The escaped contents of a JSON string, character by character.
pub open spec fn spec_escape_seq(s: Seq<char>) -> Seq<char>
    decreases s.len(),
{
    if s.len() == 0 {
        Seq::empty()
    } else {
        spec_escape_char(s[0]) + spec_escape_seq(s.skip(1))
    }
}

/// The JSON string token: the escaped contents between double quotes.
pub open spec fn spec_string_token(s: Seq<char>) -> Seq<char> {
    seq!['"'] + spec_escape_seq(s) + seq!['"']
}

/// The decimal digits of a sequence of digit values given least
/// significant first, rendered most significant first.
pub open spec fn spec_rev_digit_chars(v: Seq<u64>) -> Seq<char>
    decreases v.len(),
{
    if v.len() == 0 {
        Seq::empty()
    } else {
        spec_rev_digit_chars(v.skip(1)) + seq![spec_digit(v[0] as int)]
    }
}

/// A digit appended to the least-significant-first sequence lands in front
/// of the rendering.
proof fn lemma_rev_digit_chars_push(v: Seq<u64>, d: u64)
    ensures
        spec_rev_digit_chars(v.push(d)) == seq![spec_digit(d as int)] + spec_rev_digit_chars(v),
    decreases v.len(),
{
    let v2 = v.push(d);
    if v.len() == 0 {
        reveal_with_fuel(spec_rev_digit_chars, 2);
        assert(v2.skip(1) =~= Seq::<u64>::empty());
        assert(v2[0] == d);
        assert(spec_rev_digit_chars(v2) =~= seq![spec_digit(d as int)]);
        assert(seq![spec_digit(d as int)] + spec_rev_digit_chars(v) =~= seq![
            spec_digit(d as int),
        ]);
    } else {
        lemma_rev_digit_chars_push(v.skip(1), d);
        assert(v2.skip(1) =~= v.skip(1).push(d));
        assert(v2[0] == v[0]);
        assert((seq![spec_digit(d as int)] + spec_rev_digit_chars(v.skip(1))) + seq![
            spec_digit(v[0] as int),
        ] =~= seq![spec_digit(d as int)] + (spec_rev_digit_chars(v.skip(1)) + seq![
            spec_digit(v[0] as int),
        ]));
    }
}

/// Reading the rendering position by position.
proof fn lemma_rev_digit_chars_index(v: Seq<u64>)
    ensures
        spec_rev_digit_chars(v).len() == v.len(),
        forall|p: int|
            0 <= p < v.len() ==> spec_rev_digit_chars(v)[p] == spec_digit(
                v[v.len() - 1 - p] as int,
            ),
    decreases v.len(),
{
    if v.len() > 0 {
        lemma_rev_digit_chars_index(v.skip(1));
        assert forall|p: int|
            0 <= p < v.len() implies spec_rev_digit_chars(v)[p] == spec_digit(
                v[v.len() - 1 - p] as int,
            ) by {
            if p < v.len() - 1 {
                assert(spec_rev_digit_chars(v)[p] == spec_rev_digit_chars(v.skip(1))[p]);
                assert(v.skip(1)[v.skip(1).len() - 1 - p] == v[v.len() - 1 - p]);
            }
        }
    }
}

/// The one-character token of a decimal digit value.
fn digit_str(d: u64) -> (r: &'static str)
    requires
        d < 10,
    ensures
        r@ == seq![spec_digit(d as int)],
{
    proof {
        reveal_strlit("0");
        reveal_strlit("1");
        reveal_strlit("2");
        reveal_strlit("3");
        reveal_strlit("4");
        reveal_strlit("5");
        reveal_strlit("6");
        reveal_strlit("7");
        reveal_strlit("8");
        reveal_strlit("9");
    }
    if d == 0 {
        proof {
            assert("0"@ =~= seq![spec_digit(0)]);
        }
        "0"
    } else if d == 1 {
        proof {
            assert("1"@ =~= seq![spec_digit(1)]);
        }
        "1"
    } else if d == 2 {
        proof {
            assert("2"@ =~= seq![spec_digit(2)]);
        }
        "2"
    } else if d == 3 {
        proof {
            assert("3"@ =~= seq![spec_digit(3)]);
        }
        "3"
    } else if d == 4 {
        proof {
            assert("4"@ =~= seq![spec_digit(4)]);
        }
        "4"
    } else if d == 5 {
        proof {
            assert("5"@ =~= seq![spec_digit(5)]);
        }
        "5"
    } else if d == 6 {
        proof {
            assert("6"@ =~= seq![spec_digit(6)]);
        }
        "6"
    } else if d == 7 {
        proof {
            assert("7"@ =~= seq![spec_digit(7)]);
        }
        "7"
    } else if d == 8 {
        proof {
            assert("8"@ =~= seq![spec_digit(8)]);
        }
        "8"
    } else {
        proof {
            assert("9"@ =~= seq![spec_digit(9)]);
        }
        "9"
    }
}

/// The decimal digits of `m`, least significant first.
#[verifier::loop_isolation(false)]
fn collect_digits(m0: u64) -> (r: Vec<u64>)
    ensures
        r@.len() >= 1,
        forall|k: int| 0 <= k < r@.len() ==> r@[k] < 10,
        spec_nat_token(m0 as int) == spec_rev_digit_chars(r@),
{
    let mut digits: Vec<u64> = Vec::new();
    let mut m: u64 = m0;
    let first = m % 10;
    digits.push(first);
    m = m / 10;
    proof {
        assert(spec_rev_digit_chars(seq![first]) =~= spec_rev_digit_chars(
            seq![first].skip(1),
        ) + seq![spec_digit(first as int)]);
        assert(seq![first].skip(1) =~= Seq::<u64>::empty());
        assert(spec_rev_digit_chars(digits@) =~= seq![spec_digit(first as int)]);
        if m == 0 {
            assert(spec_nat_token(m0 as int) == seq![spec_digit(m0 as int)]);
        }
    }
    while m > 0
        invariant
            digits@.len() >= 1,
            forall|k: int| 0 <= k < digits@.len() ==> digits@[k] < 10,
            spec_nat_token(m0 as int) == (if m == 0 {
                Seq::<char>::empty()
            } else {
                spec_nat_token(m as int)
            }) + spec_rev_digit_chars(digits@),
        decreases m,
    {
        let ghost old_digits = digits@;
        let ghost old_m = m;
        let d = m % 10;
        digits.push(d);
        m = m / 10;
        proof {
            lemma_rev_digit_chars_push(old_digits, d);
            if old_m < 10 {
                assert(spec_nat_token(old_m as int) == seq![spec_digit(old_m as int)]);
                assert(seq![spec_digit(d as int)] + spec_rev_digit_chars(old_digits) =~=
                    spec_nat_token(old_m as int) + spec_rev_digit_chars(old_digits));
                assert(Seq::<char>::empty() + spec_rev_digit_chars(digits@) =~=
                    spec_rev_digit_chars(digits@));
            } else {
                assert(spec_nat_token(old_m as int) == spec_nat_token(old_m as int / 10).push(
                    spec_digit(old_m as int % 10),
                ));
                assert(spec_nat_token(old_m as int / 10).push(spec_digit(old_m as int % 10)) =~=
                    spec_nat_token(old_m as int / 10) + seq![spec_digit(d as int)]);
                assert((spec_nat_token(old_m as int / 10) + seq![spec_digit(d as int)])
                    + spec_rev_digit_chars(old_digits) =~= spec_nat_token(old_m as int / 10) + (
                seq![spec_digit(d as int)] + spec_rev_digit_chars(old_digits)));
            }
        }
    }
    proof {
        assert(Seq::<char>::empty() + spec_rev_digit_chars(digits@) =~= spec_rev_digit_chars(
            digits@,
        ));
    }
    digits
}

/// The JSON token of a signed 64-bit integer, built digit by digit; see
/// [`spec_int_token`].
#[verifier::loop_isolation(false)]
pub(crate) fn int_token(i: i64) -> (r: String)
    ensures
        r@ == spec_int_token(i as int),
{
    let negative = i < 0;
    let magnitude: u64 = if i < 0 {
        (-(i + 1)) as u64 + 1
    } else {
        i as u64
    };
    let digits = collect_digits(magnitude);
    proof {
        lemma_rev_digit_chars_index(digits@);
        reveal_strlit("-");
    }
    let mut out: String = if negative {
        "-".to_owned()
    } else {
        String::new()
    };
    let ghost sign: Seq<char> = out@;
    proof {
        if negative {
            assert(sign =~= seq!['-']);
        }
        assert(spec_rev_digit_chars(digits@).take(0) =~= Seq::<char>::empty());
        assert(out@ =~= sign + spec_rev_digit_chars(digits@).take(0));
    }
    let mut k: usize = digits.len();
    while k > 0
        invariant
            k <= digits@.len(),
            out@ == sign + spec_rev_digit_chars(digits@).take(digits@.len() - k),
        decreases k,
    {
        k = k - 1;
        let piece = digit_str(digits[k]);
        out.append(piece);
        proof {
            let text = spec_rev_digit_chars(digits@);
            let done = digits@.len() - k;
            assert(text[done - 1] == spec_digit(digits@[k as int] as int));
            assert(text.take(done) =~= text.take(done - 1).push(text[done - 1]));
            assert((sign + text.take(done - 1)) + seq![text[done - 1]] =~= sign + text.take(done));
        }
    }
    proof {
        assert(spec_rev_digit_chars(digits@).take(digits@.len() as int) =~= spec_rev_digit_chars(
            digits@,
        ));
        if !negative {
            assert(sign + spec_rev_digit_chars(digits@) =~= spec_rev_digit_chars(digits@));
        } else {
            assert(sign + spec_rev_digit_chars(digits@) =~= seq!['-'] + spec_nat_token(
                -(i as int),
            ));
        }
    }
    out
}

/// The two-character token of a hexadecimal digit value beyond nine falls
/// back to [`digit_str`] for the decimal range.
fn hex_digit_str(d: u64) -> (r: &'static str)
    requires
        d < 16,
    ensures
        r@ == seq![spec_hex_digit(d as int)],
{
    if d < 10 {
        digit_str(d)
    } else {
        proof {
            reveal_strlit("a");
            reveal_strlit("b");
            reveal_strlit("c");
            reveal_strlit("d");
            reveal_strlit("e");
            reveal_strlit("f");
        }
        if d == 10 {
            proof {
                assert("a"@ =~= seq![spec_hex_digit(10)]);
            }
            "a"
        } else if d == 11 {
            proof {
                assert("b"@ =~= seq![spec_hex_digit(11)]);
            }
            "b"
        } else if d == 12 {
            proof {
                assert("c"@ =~= seq![spec_hex_digit(12)]);
            }
            "c"
        } else if d == 13 {
            proof {
                assert("d"@ =~= seq![spec_hex_digit(13)]);
            }
            "d"
        } else if d == 14 {
            proof {
                assert("e"@ =~= seq![spec_hex_digit(14)]);
            }
            "e"
        } else {
            proof {
                assert("f"@ =~= seq![spec_hex_digit(15)]);
            }
            "f"
        }
    }
}

/// A character appended to the contents lands at the end of the escaped
/// rendering.
proof fn lemma_escape_seq_push(t: Seq<char>, c: char)
    ensures
        spec_escape_seq(t.push(c)) == spec_escape_seq(t) + spec_escape_char(c),
    decreases t.len(),
{
    let t2 = t.push(c);
    if t.len() == 0 {
        reveal_with_fuel(spec_escape_seq, 2);
        assert(t2.skip(1) =~= Seq::<char>::empty());
        assert(t2[0] == c);
        assert(spec_escape_seq(t2) =~= spec_escape_char(c));
        assert(spec_escape_seq(t) + spec_escape_char(c) =~= spec_escape_char(c));
    } else {
        lemma_escape_seq_push(t.skip(1), c);
        assert(t2.skip(1) =~= t.skip(1).push(c));
        assert(t2[0] == t[0]);
        assert(spec_escape_char(t[0]) + (spec_escape_seq(t.skip(1)) + spec_escape_char(c)) =~= (
        spec_escape_char(t[0]) + spec_escape_seq(t.skip(1))) + spec_escape_char(c));
    }
}

/// The JSON string token of a string slice, built character by character;
/// see [`spec_string_token`].
#[verifier::loop_isolation(false)]
pub(crate) fn string_token(s: &str) -> (r: String)
    ensures
        r@ == spec_string_token(s@),
{
    proof {
        reveal_strlit("\"");
        reveal_strlit("\\\"");
        reveal_strlit("\\\\");
        reveal_strlit("\\b");
        reveal_strlit("\\t");
        reveal_strlit("\\n");
        reveal_strlit("\\f");
        reveal_strlit("\\r");
        reveal_strlit("\\u00");
    }
    let len = s.unicode_len();
    let mut out: String = "\"".to_owned();
    proof {
        assert("\""@ =~= seq!['"']);
        assert(s@.take(0) =~= Seq::<char>::empty());
        assert(out@ =~= seq!['"'] + spec_escape_seq(s@.take(0)));
    }
    let mut i: usize = 0;
    while i < len
        invariant
            len == s@.len(),
            i <= len,
            out@ == seq!['"'] + spec_escape_seq(s@.take(i as int)),
        decreases len - i,
    {
        let ghost prefix = spec_escape_seq(s@.take(i as int));
        let c = s.get_char(i);
        let u = c as u32;
        if u == 0x22 {
            out.append("\\\"");
            proof {
                assert("\\\""@ =~= spec_escape_char(c));
            }
        } else if u == 0x5c {
            out.append("\\\\");
            proof {
                assert("\\\\"@ =~= spec_escape_char(c));
            }
        } else if u == 0x08 {
            out.append("\\b");
            proof {
                assert("\\b"@ =~= spec_escape_char(c));
            }
        } else if u == 0x09 {
            out.append("\\t");
            proof {
                assert("\\t"@ =~= spec_escape_char(c));
            }
        } else if u == 0x0a {
            out.append("\\n");
            proof {
                assert("\\n"@ =~= spec_escape_char(c));
            }
        } else if u == 0x0c {
            out.append("\\f");
            proof {
                assert("\\f"@ =~= spec_escape_char(c));
            }
        } else if u == 0x0d {
            out.append("\\r");
            proof {
                assert("\\r"@ =~= spec_escape_char(c));
            }
        } else if u < 0x20 {
            out.append("\\u00");
            let hi = hex_digit_str((u / 16) as u64);
            out.append(hi);
            let lo = hex_digit_str((u % 16) as u64);
            out.append(lo);
            proof {
                assert((("\\u00"@ + seq![spec_hex_digit(c as int / 16)]) + seq![
                    spec_hex_digit(c as int % 16),
                ]) =~= spec_escape_char(c));
                assert(((((seq!['"'] + prefix) + "\\u00"@) + seq![
                    spec_hex_digit(c as int / 16),
                ]) + seq![spec_hex_digit(c as int % 16)]) =~= (seq!['"'] + prefix)
                    + spec_escape_char(c));
            }
        } else {
            let piece = s.substring_char(i, i + 1);
            out.append(piece);
            proof {
                assert(piece@ =~= seq![s@[i as int]]);
                assert(seq![s@[i as int]] =~= spec_escape_char(c));
            }
        }
        proof {
            lemma_escape_seq_push(s@.take(i as int), s@[i as int]);
            assert(s@.take(i + 1) =~= s@.take(i as int).push(s@[i as int]));
            assert((seq!['"'] + prefix) + spec_escape_char(s@[i as int]) =~= seq!['"'] + (prefix
                + spec_escape_char(s@[i as int])));
        }
        i = i + 1;
    }
    out.append("\"");
    proof {
        assert(s@.take(len as int) =~= s@);
        assert((seq!['"'] + spec_escape_seq(s@)) + seq!['"'] =~= spec_string_token(s@));
        assert("\""@ =~= seq!['"']);
    }
    out
}

/// Declares serde_json's dynamic JSON value, so that the conversion
/// helpers below can take it; the value stays opaque.
#[verifier::external_type_specification]
#[verifier::external_body]
pub struct ExValue(JsonValue);

/// Declares serde_json's number, likewise opaque.
#[verifier::external_type_specification]
#[verifier::external_body]
pub struct ExNumber(serde_json::Number);

/// The view of a [`JsonNode`].
pub enum JsonView {
    Null,
    Bool(bool),
    Int(i64),
    BigInt(Seq<char>),
    Float(u64, Seq<char>),
    Str(Seq<char>),
    Array(Seq<JsonView>),
    Object(Seq<(Seq<char>, JsonView)>),
}

/// A JSON document as serde_json reads it, carried in the library's own
/// plain shapes. A number appears as an `i64` when the token is an integer
/// in range, as a double's bit pattern with its printed token when the
/// token has a fraction or exponent, and otherwise — an integer token
/// beyond `i64` — as its rendering alone.
#[derive(Debug)]
pub enum JsonNode {
    Null,
    Bool(bool),
    Int(i64),
    BigInt(String),
    Float(u64, String),
    Str(String),
    Array(Vec<JsonNode>),
    Object(Vec<(String, JsonNode)>),
}

/// The views of a sequence of nodes, element for element.
pub open spec fn spec_nodes_view(s: Seq<JsonNode>) -> Seq<JsonView>
    decreases s,
{
    if s.len() == 0 {
        Seq::empty()
    } else {
        seq![spec_node_view(s[0])] + spec_nodes_view(s.subrange(1, s.len() as int))
    }
}

/// The views of a sequence of object fields, element for element.
pub open spec fn spec_fields_view(s: Seq<(String, JsonNode)>) -> Seq<(Seq<char>, JsonView)>
    decreases s,
{
    if s.len() == 0 {
        Seq::empty()
    } else {
        seq![(s[0].0@, spec_node_view(s[0].1))] + spec_fields_view(s.subrange(1, s.len() as int))
    }
}

/// The view of one node.
pub open spec fn spec_node_view(n: JsonNode) -> JsonView
    decreases n,
{
    match n {
        JsonNode::Null => JsonView::Null,
        JsonNode::Bool(b) => JsonView::Bool(b),
        JsonNode::Int(i) => JsonView::Int(i),
        JsonNode::BigInt(s) => JsonView::BigInt(s@),
        JsonNode::Float(bits, tok) => JsonView::Float(bits, tok@),
        JsonNode::Str(s) => JsonView::Str(s@),
        JsonNode::Array(items) => JsonView::Array(spec_nodes_view(items@)),
        JsonNode::Object(fields) => JsonView::Object(spec_fields_view(fields@)),
    }
}

/// Element-wise reading of [`spec_nodes_view`].
pub proof fn lemma_nodes_view(s: Seq<JsonNode>)
    ensures
        spec_nodes_view(s).len() == s.len(),
        forall|i: int| 0 <= i < s.len() ==> spec_nodes_view(s)[i] == spec_node_view(#[trigger] s[i]),
    decreases s.len(),
{
    if s.len() > 0 {
        let rest = s.subrange(1, s.len() as int);
        lemma_nodes_view(rest);
        assert forall|i: int| 0 <= i < s.len() implies spec_nodes_view(s)[i] == spec_node_view(
            s[i],
        ) by {
            if i > 0 {
                assert(rest[i - 1] == s[i]);
                assert(spec_nodes_view(s)[i] == spec_nodes_view(rest)[i - 1]);
            }
        }
    }
}

/// Element-wise reading of [`spec_fields_view`].
pub proof fn lemma_fields_view(s: Seq<(String, JsonNode)>)
    ensures
        spec_fields_view(s).len() == s.len(),
        forall|i: int|
            0 <= i < s.len() ==> spec_fields_view(s)[i] == ((#[trigger] s[i]).0@, spec_node_view(
                s[i].1,
            )),
    decreases s.len(),
{
    if s.len() > 0 {
        let rest = s.subrange(1, s.len() as int);
        lemma_fields_view(rest);
        assert forall|i: int| 0 <= i < s.len() implies spec_fields_view(s)[i] == (
            (#[trigger] s[i]).0@,
            spec_node_view(s[i].1),
        ) by {
            if i > 0 {
                assert(rest[i - 1] == s[i]);
                assert(spec_fields_view(s)[i] == spec_fields_view(rest)[i - 1]);
            }
        }
    }
}

impl View for JsonNode {
    type V = JsonView;

    open spec fn view(&self) -> JsonView {
        spec_node_view(*self)
    }
}

/// What `serde_json::from_str` yields on a text: `None` exactly when the
/// text is not one valid JSON document.
pub uninterp spec fn json_doc_of(s: Seq<char>) -> Option<JsonView>;

impl JsonNode {
    /// Conversion helper for [`json_from_text`], which alone calls it
    /// (through [`JsonNode::of_json`]); nothing is claimed of it on its
    /// own, the wrapper's contract speaks for the combination.
    #[verifier::external_body]
    fn of_number(n: &serde_json::Number) -> JsonNode {
        if n.is_f64() {
            JsonNode::Float(n.as_f64().unwrap().to_bits(), format!("{}", n))
        } else {
            match n.as_i64() {
                Some(i) => JsonNode::Int(i),
                None => JsonNode::BigInt(format!("{:?}", n)),
            }
        }
    }

    /// Conversion helper for [`json_from_text`], which alone calls it;
    /// nothing is claimed of it on its own, the wrapper's contract speaks
    /// for the combination.
    #[verifier::external_body]
    fn of_json(v: &JsonValue) -> JsonNode {
        match v {
            JsonValue::Null => JsonNode::Null,
            JsonValue::Bool(b) => JsonNode::Bool(*b),
            JsonValue::Number(n) => JsonNode::of_number(n),
            JsonValue::String(s) => JsonNode::Str(s.clone()),
            JsonValue::Array(items) => JsonNode::Array(
                items.iter().map(JsonNode::of_json).collect(),
            ),
            JsonValue::Object(fields) => JsonNode::Object(
                fields.iter().map(|(k, w)| (k.clone(), JsonNode::of_json(w))).collect(),
            ),
        }
    }
}

/// Relies on `serde_json::from_str::<serde_json::Value>`: reads the text as
/// one JSON document, which is a function of the text alone; the error case
/// carries serde_json's message and comes exactly when the text is not
/// valid JSON.
#[verifier::external_body]
pub(crate) fn json_from_text(s: &str) -> (r: Result<JsonNode, String>)
    ensures
        match r {
            Ok(node) => json_doc_of(s@) == Some(node@),
            Err(_) => json_doc_of(s@) is None,
        },
{
    match serde_json::from_str::<JsonValue>(s) {
        Ok(v) => Ok(JsonNode::of_json(&v)),
        Err(e) => Err(format!("{}", e)),
    }
}

} // verus!
