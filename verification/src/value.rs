use vstd::prelude::*;

use crate::eval_type::Type;
use crate::expression::Expression;
use crate::expression::ExpressionView;
use crate::float64::Float64;
use crate::float64::FloatView;
use crate::float64::spec_float_eq;
use crate::float64::spec_float_gt;
use crate::text::spec_str_gt;
use crate::text::str_eq;
use crate::text::str_gt;

verus! {

/// The mathematical view of a [`Value`]: the same eight shapes over `Seq`
/// instead of `Vec` and `String`.
pub enum ValueView {
    Bool(bool),
    BoolArray(Seq<bool>),
    Int(i64),
    IntArray(Seq<i64>),
    Float(FloatView),
    FloatArray(Seq<FloatView>),
    Str(Seq<char>),
    StrArray(Seq<Seq<char>>),
}

/// A runtime value of the expression language: one of eight closed shapes,
/// with array values carrying their actual contents.
#[derive(Debug)]
pub enum Value {
    Bool(bool),
    BoolArray(Vec<bool>),
    Int(i64),
    IntArray(Vec<i64>),
    Float(Float64),
    FloatArray(Vec<Float64>),
    Str(String),
    StrArray(Vec<String>),
}

impl View for Value {
    type V = ValueView;

    open spec fn view(&self) -> ValueView {
        match self {
            Value::Bool(b) => ValueView::Bool(*b),
            Value::BoolArray(v) => ValueView::BoolArray(v@),
            Value::Int(i) => ValueView::Int(*i),
            Value::IntArray(v) => ValueView::IntArray(v@),
            Value::Float(f) => ValueView::Float(f@),
            Value::FloatArray(v) => ValueView::FloatArray(v@.map_values(|f: Float64| f@)),
            Value::Str(s) => ValueView::Str(s@),
            Value::StrArray(v) => ValueView::StrArray(v@.map_values(|s: String| s@)),
        }
    }
}

/// The static type of a value; array lengths are read off the actual
/// contents.
pub open spec fn spec_concrete_type(v: ValueView) -> Type {
    match v {
        ValueView::Bool(_) => Type::Bool,
        ValueView::BoolArray(s) => Type::BoolArray(s.len() as usize),
        ValueView::Int(_) => Type::Int,
        ValueView::IntArray(s) => Type::IntArray(s.len() as usize),
        ValueView::Float(_) => Type::Float,
        ValueView::FloatArray(s) => Type::FloatArray(s.len() as usize),
        ValueView::Str(_) => Type::Str,
        ValueView::StrArray(s) => Type::StrArray(s.len() as usize),
    }
}

/// Structural equality of two values. Same-shaped contents are compared
/// element for element; floats compare numerically (so a NaN equals nothing
/// and the two zeroes are equal); values of different shapes are never
/// equal.
pub open spec fn spec_value_eq(a: ValueView, b: ValueView) -> bool {
    match (a, b) {
        (ValueView::Bool(x), ValueView::Bool(y)) => x == y,
        (ValueView::BoolArray(x), ValueView::BoolArray(y)) => x == y,
        (ValueView::Int(x), ValueView::Int(y)) => x == y,
        (ValueView::IntArray(x), ValueView::IntArray(y)) => x == y,
        (ValueView::Float(x), ValueView::Float(y)) => spec_float_eq(x.bits, y.bits),
        (ValueView::FloatArray(x), ValueView::FloatArray(y)) => x.len() == y.len()
            && (forall|i: int| 0 <= i < x.len() ==> spec_float_eq(x[i].bits, y[i].bits)),
        (ValueView::Str(x), ValueView::Str(y)) => x == y,
        (ValueView::StrArray(x), ValueView::StrArray(y)) => x == y,
        _ => false,
    }
}

/// Rank of a value's shape in the fixed order of the eight shapes; values
/// of different shapes order by this rank.
pub open spec fn spec_variant_rank(v: ValueView) -> int {
    match v {
        ValueView::Bool(_) => 0,
        ValueView::BoolArray(_) => 1,
        ValueView::Int(_) => 2,
        ValueView::IntArray(_) => 3,
        ValueView::Float(_) => 4,
        ValueView::FloatArray(_) => 5,
        ValueView::Str(_) => 6,
        ValueView::StrArray(_) => 7,
    }
}

/// Element-wise lexicographic order on boolean sequences, `true` above
/// `false`; a proper prefix sorts below any extension of it.
pub open spec fn spec_bool_seq_gt(a: Seq<bool>, b: Seq<bool>) -> bool
    decreases a.len(),
{
    if a.len() == 0 {
        false
    } else if b.len() == 0 {
        true
    } else if a[0] == b[0] {
        spec_bool_seq_gt(a.skip(1), b.skip(1))
    } else {
        a[0] && !b[0]
    }
}

/// Element-wise lexicographic order on integer sequences.
pub open spec fn spec_int_seq_gt(a: Seq<i64>, b: Seq<i64>) -> bool
    decreases a.len(),
{
    if a.len() == 0 {
        false
    } else if b.len() == 0 {
        true
    } else if a[0] == b[0] {
        spec_int_seq_gt(a.skip(1), b.skip(1))
    } else {
        a[0] > b[0]
    }
}

/// Element-wise lexicographic order on float sequences, with the partial
/// order on doubles: a pair of numerically unequal elements decides by
/// numeric order, so a NaN anywhere at the first difference makes the
/// whole comparison false.
pub open spec fn spec_float_seq_gt(a: Seq<FloatView>, b: Seq<FloatView>) -> bool
    decreases a.len(),
{
    if a.len() == 0 {
        false
    } else if b.len() == 0 {
        true
    } else if spec_float_eq(a[0].bits, b[0].bits) {
        spec_float_seq_gt(a.skip(1), b.skip(1))
    } else {
        spec_float_gt(a[0].bits, b[0].bits)
    }
}

/// Element-wise lexicographic order on string sequences.
pub open spec fn spec_str_seq_gt(a: Seq<Seq<char>>, b: Seq<Seq<char>>) -> bool
    decreases a.len(),
{
    if a.len() == 0 {
        false
    } else if b.len() == 0 {
        true
    } else if a[0] == b[0] {
        spec_str_seq_gt(a.skip(1), b.skip(1))
    } else {
        spec_str_gt(a[0], b[0])
    }
}

/// Strict total-ish order on values, as the comparison operator sees it:
/// different shapes order by rank, same shapes order by their contents,
/// and any comparison that reaches a NaN is false.
pub open spec fn spec_value_gt(a: ValueView, b: ValueView) -> bool {
    match (a, b) {
        (ValueView::Bool(x), ValueView::Bool(y)) => x && !y,
        (ValueView::BoolArray(x), ValueView::BoolArray(y)) => spec_bool_seq_gt(x, y),
        (ValueView::Int(x), ValueView::Int(y)) => x > y,
        (ValueView::IntArray(x), ValueView::IntArray(y)) => spec_int_seq_gt(x, y),
        (ValueView::Float(x), ValueView::Float(y)) => spec_float_gt(x.bits, y.bits),
        (ValueView::FloatArray(x), ValueView::FloatArray(y)) => spec_float_seq_gt(x, y),
        (ValueView::Str(x), ValueView::Str(y)) => spec_str_gt(x, y),
        (ValueView::StrArray(x), ValueView::StrArray(y)) => spec_str_seq_gt(x, y),
        _ => spec_variant_rank(a) > spec_variant_rank(b),
    }
}

/// No NaN hides anywhere in the value.
pub open spec fn spec_nan_free(v: ValueView) -> bool {
    match v {
        ValueView::Float(f) => !crate::float64::f64_is_nan(f.bits),
        ValueView::FloatArray(s) => forall|i: int|
            0 <= i < s.len() ==> !crate::float64::f64_is_nan(s[i].bits),
        _ => true,
    }
}

/// The value holds no float at all.
pub open spec fn spec_float_free(v: ValueView) -> bool {
    !(v is Float) && !(v is FloatArray)
}

pub open spec fn spec_as_bool(v: ValueView) -> Option<bool> {
    match v {
        ValueView::Bool(b) => Some(b),
        _ => None,
    }
}

pub open spec fn spec_as_bool_array(v: ValueView, size: int) -> Option<Seq<bool>> {
    match v {
        ValueView::BoolArray(s) => if s.len() == size {
            Some(s)
        } else {
            None
        },
        _ => None,
    }
}

pub open spec fn spec_as_int(v: ValueView) -> Option<i64> {
    match v {
        ValueView::Int(i) => Some(i),
        _ => None,
    }
}

pub open spec fn spec_as_int_array(v: ValueView, size: int) -> Option<Seq<i64>> {
    match v {
        ValueView::IntArray(s) => if s.len() == size {
            Some(s)
        } else {
            None
        },
        _ => None,
    }
}

pub open spec fn spec_as_float(v: ValueView) -> Option<FloatView> {
    match v {
        ValueView::Float(f) => Some(f),
        _ => None,
    }
}

pub open spec fn spec_as_float_array(v: ValueView, size: int) -> Option<Seq<FloatView>> {
    match v {
        ValueView::FloatArray(s) => if s.len() == size {
            Some(s)
        } else {
            None
        },
        _ => None,
    }
}

pub open spec fn spec_as_str(v: ValueView) -> Option<Seq<char>> {
    match v {
        ValueView::Str(s) => Some(s),
        _ => None,
    }
}

pub open spec fn spec_as_str_array(v: ValueView, size: int) -> Option<Seq<Seq<char>>> {
    match v {
        ValueView::StrArray(s) => if s.len() == size {
            Some(s)
        } else {
            None
        },
        _ => None,
    }
}

/// The boolean value `content`.
pub fn bool_val(content: bool) -> (r: Value)
    ensures
        r@ == ValueView::Bool(content),
{
    Value::Bool(content)
}

/// A literal expression holding the boolean `content`.
pub fn bool(content: bool) -> (r: Expression)
    ensures
        r@ == ExpressionView::Literal(ValueView::Bool(content)),
{
    Expression::Literal(bool_val(content))
}

/// The boolean-array value `content`.
pub fn bool_array_val(content: Vec<bool>) -> (r: Value)
    ensures
        r@ == ValueView::BoolArray(content@),
{
    Value::BoolArray(content)
}

/// A literal expression holding the boolean array `content`.
pub fn bool_array(content: Vec<bool>) -> (r: Expression)
    ensures
        r@ == ExpressionView::Literal(ValueView::BoolArray(content@)),
{
    Expression::Literal(bool_array_val(content))
}

/// The integer value `content`.
pub fn int_val(content: i64) -> (r: Value)
    ensures
        r@ == ValueView::Int(content),
{
    Value::Int(content)
}

/// A literal expression holding the integer `content`.
pub fn integer(content: i64) -> (r: Expression)
    ensures
        r@ == ExpressionView::Literal(ValueView::Int(content)),
{
    Expression::Literal(int_val(content))
}

/// The integer-array value `content`.
pub fn int_array_val(content: Vec<i64>) -> (r: Value)
    ensures
        r@ == ValueView::IntArray(content@),
{
    Value::IntArray(content)
}

/// A literal expression holding the integer array `content`.
pub fn int_array(content: Vec<i64>) -> (r: Expression)
    ensures
        r@ == ExpressionView::Literal(ValueView::IntArray(content@)),
{
    Expression::Literal(int_array_val(content))
}

/// The float value `content`.
pub fn float_val(content: Float64) -> (r: Value)
    ensures
        r@ == ValueView::Float(content@),
{
    Value::Float(content)
}

/// A literal expression holding the float `content`.
pub fn float(content: Float64) -> (r: Expression)
    ensures
        r@ == ExpressionView::Literal(ValueView::Float(content@)),
{
    Expression::Literal(float_val(content))
}

/// The float-array value `content`.
pub fn float_array_val(content: Vec<Float64>) -> (r: Value)
    ensures
        r@ == ValueView::FloatArray(content@.map_values(|f: Float64| f@)),
{
    Value::FloatArray(content)
}

/// A literal expression holding the float array `content`.
pub fn float_array(content: Vec<Float64>) -> (r: Expression)
    ensures
        r@ == ExpressionView::Literal(ValueView::FloatArray(content@.map_values(|f: Float64| f@))),
{
    Expression::Literal(float_array_val(content))
}

/// The string value `content`.
pub fn str_val(content: &str) -> (r: Value)
    ensures
        r@ == ValueView::Str(content@),
{
    Value::Str(content.to_owned())
}

/// A literal expression holding the string `content`.
pub fn str(content: &str) -> (r: Expression)
    ensures
        r@ == ExpressionView::Literal(ValueView::Str(content@)),
{
    Expression::Literal(str_val(content))
}

/// The string-array value `content`.
pub fn str_array_val(content: Vec<String>) -> (r: Value)
    ensures
        r@ == ValueView::StrArray(content@.map_values(|s: String| s@)),
{
    Value::StrArray(content)
}

/// A literal expression holding the string array `content`.
pub fn str_array(content: Vec<String>) -> (r: Expression)
    ensures
        r@ == ExpressionView::Literal(ValueView::StrArray(content@.map_values(|s: String| s@))),
{
    Expression::Literal(str_array_val(content))
}

fn copy_bools(v: &Vec<bool>) -> (r: Vec<bool>)
    ensures
        r@ == v@,
{
    let mut r: Vec<bool> = Vec::new();
    let mut i: usize = 0;
    while i < v.len()
        invariant
            i <= v.len(),
            r@ == v@.take(i as int),
        decreases v.len() - i,
    {
        r.push(v[i]);
        proof {
            assert(r@ =~= v@.take(i + 1));
        }
        i += 1;
    }
    proof {
        assert(v@.take(v@.len() as int) =~= v@);
    }
    r
}

fn copy_ints(v: &Vec<i64>) -> (r: Vec<i64>)
    ensures
        r@ == v@,
{
    let mut r: Vec<i64> = Vec::new();
    let mut i: usize = 0;
    while i < v.len()
        invariant
            i <= v.len(),
            r@ == v@.take(i as int),
        decreases v.len() - i,
    {
        r.push(v[i]);
        proof {
            assert(r@ =~= v@.take(i + 1));
        }
        i += 1;
    }
    proof {
        assert(v@.take(v@.len() as int) =~= v@);
    }
    r
}

fn copy_floats(v: &Vec<Float64>) -> (r: Vec<Float64>)
    ensures
        r@.map_values(|f: Float64| f@) == v@.map_values(|f: Float64| f@),
{
    let mut r: Vec<Float64> = Vec::new();
    let mut i: usize = 0;
    while i < v.len()
        invariant
            i <= v.len(),
            r@.len() == i,
            forall|j: int| 0 <= j < i ==> r@[j]@ == v@[j]@,
        decreases v.len() - i,
    {
        r.push(v[i].clone());
        i += 1;
    }
    proof {
        assert(r@.map_values(|f: Float64| f@) =~= v@.map_values(|f: Float64| f@));
    }
    r
}

fn copy_strings(v: &Vec<String>) -> (r: Vec<String>)
    ensures
        r@.map_values(|s: String| s@) == v@.map_values(|s: String| s@),
{
    let mut r: Vec<String> = Vec::new();
    let mut i: usize = 0;
    while i < v.len()
        invariant
            i <= v.len(),
            r@.len() == i,
            forall|j: int| 0 <= j < i ==> r@[j]@ == v@[j]@,
        decreases v.len() - i,
    {
        r.push(v[i].clone());
        i += 1;
    }
    proof {
        assert(r@.map_values(|s: String| s@) =~= v@.map_values(|s: String| s@));
    }
    r
}

impl Value {
    /// The static [`Type`] of this value; for arrays the length is taken
    /// from the actual contents.
    pub fn concrete_type(&self) -> (r: Type)
        ensures
            r == spec_concrete_type(self@),
    {
        match self {
            Value::Bool(_) => Type::Bool,
            Value::BoolArray(content) => Type::BoolArray(content.len()),
            Value::Int(_) => Type::Int,
            Value::IntArray(content) => Type::IntArray(content.len()),
            Value::Float(_) => Type::Float,
            Value::FloatArray(content) => Type::FloatArray(content.len()),
            Value::Str(_) => Type::Str,
            Value::StrArray(content) => Type::StrArray(content.len()),
        }
    }

    pub fn as_bool(&self) -> (r: Option<bool>)
        ensures
            r == spec_as_bool(self@),
    {
        match self {
            Value::Bool(content) => Some(*content),
            _ => None,
        }
    }

    pub fn as_bool_array(&self, size: usize) -> (r: Option<Vec<bool>>)
        ensures
            match r {
                Some(out) => spec_as_bool_array(self@, size as int) == Some(out@),
                None => spec_as_bool_array(self@, size as int) is None,
            },
    {
        match self {
            Value::BoolArray(content) => if content.len() == size {
                Some(copy_bools(content))
            } else {
                None
            },
            _ => None,
        }
    }

    pub fn as_int(&self) -> (r: Option<i64>)
        ensures
            r == spec_as_int(self@),
    {
        match self {
            Value::Int(content) => Some(*content),
            _ => None,
        }
    }

    pub fn as_int_array(&self, size: usize) -> (r: Option<Vec<i64>>)
        ensures
            match r {
                Some(out) => spec_as_int_array(self@, size as int) == Some(out@),
                None => spec_as_int_array(self@, size as int) is None,
            },
    {
        match self {
            Value::IntArray(content) => if content.len() == size {
                Some(copy_ints(content))
            } else {
                None
            },
            _ => None,
        }
    }

    pub fn as_float(&self) -> (r: Option<Float64>)
        ensures
            match r {
                Some(out) => spec_as_float(self@) == Some(out@),
                None => spec_as_float(self@) is None,
            },
    {
        match self {
            Value::Float(content) => Some(content.clone()),
            _ => None,
        }
    }

    pub fn as_float_array(&self, size: usize) -> (r: Option<Vec<Float64>>)
        ensures
            match r {
                Some(out) => spec_as_float_array(self@, size as int) == Some(
                    out@.map_values(|f: Float64| f@),
                ),
                None => spec_as_float_array(self@, size as int) is None,
            },
    {
        match self {
            Value::FloatArray(content) => if content.len() == size {
                Some(copy_floats(content))
            } else {
                None
            },
            _ => None,
        }
    }

    pub fn as_str(&self) -> (r: Option<String>)
        ensures
            match r {
                Some(out) => spec_as_str(self@) == Some(out@),
                None => spec_as_str(self@) is None,
            },
    {
        match self {
            Value::Str(content) => Some(content.clone()),
            _ => None,
        }
    }

    pub fn as_str_array(&self, size: usize) -> (r: Option<Vec<String>>)
        ensures
            match r {
                Some(out) => spec_as_str_array(self@, size as int) == Some(
                    out@.map_values(|s: String| s@),
                ),
                None => spec_as_str_array(self@, size as int) is None,
            },
    {
        match self {
            Value::StrArray(content) => if content.len() == size {
                Some(copy_strings(content))
            } else {
                None
            },
            _ => None,
        }
    }

    /// Structural equality against another value; see [`spec_value_eq`].
    pub fn value_eq(&self, other: &Value) -> (r: bool)
        ensures
            r == spec_value_eq(self@, other@),
    {
        match (self, other) {
            (Value::Bool(x), Value::Bool(y)) => *x == *y,
            (Value::BoolArray(x), Value::BoolArray(y)) => eq_bools(x, y),
            (Value::Int(x), Value::Int(y)) => *x == *y,
            (Value::IntArray(x), Value::IntArray(y)) => eq_ints(x, y),
            (Value::Float(x), Value::Float(y)) => x.float_eq(y),
            (Value::FloatArray(x), Value::FloatArray(y)) => eq_floats(x, y),
            (Value::Str(x), Value::Str(y)) => str_eq(x.as_str(), y.as_str()),
            (Value::StrArray(x), Value::StrArray(y)) => eq_strings(x, y),
            _ => false,
        }
    }

    /// Strict order against another value; see [`spec_value_gt`].
    pub fn value_gt(&self, other: &Value) -> (r: bool)
        ensures
            r == spec_value_gt(self@, other@),
    {
        match (self, other) {
            (Value::Bool(x), Value::Bool(y)) => *x && !*y,
            (Value::BoolArray(x), Value::BoolArray(y)) => gt_bools(x, y),
            (Value::Int(x), Value::Int(y)) => *x > *y,
            (Value::IntArray(x), Value::IntArray(y)) => gt_ints(x, y),
            (Value::Float(x), Value::Float(y)) => x.float_gt(y),
            (Value::FloatArray(x), Value::FloatArray(y)) => gt_floats(x, y),
            (Value::Str(x), Value::Str(y)) => str_gt(x.as_str(), y.as_str()),
            (Value::StrArray(x), Value::StrArray(y)) => gt_strings(x, y),
            _ => self.variant_rank() > other.variant_rank(),
        }
    }

    fn variant_rank(&self) -> (r: u8)
        ensures
            r as int == spec_variant_rank(self@),
    {
        match self {
            Value::Bool(_) => 0,
            Value::BoolArray(_) => 1,
            Value::Int(_) => 2,
            Value::IntArray(_) => 3,
            Value::Float(_) => 4,
            Value::FloatArray(_) => 5,
            Value::Str(_) => 6,
            Value::StrArray(_) => 7,
        }
    }
}

impl Clone for Value {
    fn clone(&self) -> (r: Self)
        ensures
            r@ == self@,
    {
        match self {
            Value::Bool(b) => Value::Bool(*b),
            Value::BoolArray(v) => Value::BoolArray(copy_bools(v)),
            Value::Int(i) => Value::Int(*i),
            Value::IntArray(v) => Value::IntArray(copy_ints(v)),
            Value::Float(f) => Value::Float(f.clone()),
            Value::FloatArray(v) => Value::FloatArray(copy_floats(v)),
            Value::Str(s) => Value::Str(s.clone()),
            Value::StrArray(v) => Value::StrArray(copy_strings(v)),
        }
    }
}

impl PartialEq for Value {
    /// Equality by [`spec_value_eq`]: structural, with numeric comparison of
    /// floats.
    fn eq(&self, other: &Self) -> (r: bool) {
        self.value_eq(other)
    }
}

impl vstd::std_specs::cmp::PartialEqSpecImpl for Value {
    open spec fn obeys_eq_spec() -> bool {
        true
    }

    open spec fn eq_spec(&self, other: &Value) -> bool {
        spec_value_eq(self@, other@)
    }
}

fn eq_bools(a: &Vec<bool>, b: &Vec<bool>) -> (r: bool)
    ensures
        r == (a@ == b@),
{
    if a.len() != b.len() {
        return false;
    }
    let mut i: usize = 0;
    while i < a.len()
        invariant
            a@.len() == b@.len(),
            i <= a@.len(),
            forall|j: int| 0 <= j < i ==> a@[j] == b@[j],
        decreases a@.len() - i,
    {
        if a[i] != b[i] {
            return false;
        }
        i += 1;
    }
    proof {
        assert(a@ =~= b@);
    }
    true
}

fn eq_ints(a: &Vec<i64>, b: &Vec<i64>) -> (r: bool)
    ensures
        r == (a@ == b@),
{
    if a.len() != b.len() {
        return false;
    }
    let mut i: usize = 0;
    while i < a.len()
        invariant
            a@.len() == b@.len(),
            i <= a@.len(),
            forall|j: int| 0 <= j < i ==> a@[j] == b@[j],
        decreases a@.len() - i,
    {
        if a[i] != b[i] {
            return false;
        }
        i += 1;
    }
    proof {
        assert(a@ =~= b@);
    }
    true
}

fn eq_floats(a: &Vec<Float64>, b: &Vec<Float64>) -> (r: bool)
    ensures
        r == spec_value_eq(
            ValueView::FloatArray(a@.map_values(|f: Float64| f@)),
            ValueView::FloatArray(b@.map_values(|f: Float64| f@)),
        ),
{
    let ghost av = a@.map_values(|f: Float64| f@);
    let ghost bv = b@.map_values(|f: Float64| f@);
    if a.len() != b.len() {
        assert(av.len() != bv.len());
        return false;
    }
    let mut i: usize = 0;
    while i < a.len()
        invariant
            av == a@.map_values(|f: Float64| f@),
            bv == b@.map_values(|f: Float64| f@),
            a@.len() == b@.len(),
            i <= a@.len(),
            forall|j: int| 0 <= j < i ==> spec_float_eq(a@[j]@.bits, b@[j]@.bits),
        decreases a@.len() - i,
    {
        if !a[i].float_eq(&b[i]) {
            proof {
                assert(av[i as int] == a@[i as int]@);
                assert(bv[i as int] == b@[i as int]@);
                assert(!(forall|j: int| 0 <= j < av.len() ==> spec_float_eq(
                    av[j].bits,
                    bv[j].bits,
                ))) by {
                    if forall|j: int| 0 <= j < av.len() ==> spec_float_eq(
                        av[j].bits,
                        bv[j].bits,
                    ) {
                        assert(spec_float_eq(av[i as int].bits, bv[i as int].bits));
                    }
                }
            }
            return false;
        }
        i += 1;
    }
    proof {
        assert forall|j: int| 0 <= j < av.len() implies spec_float_eq(
            av[j].bits,
            bv[j].bits,
        ) by {
            assert(av[j] == a@[j]@);
            assert(bv[j] == b@[j]@);
        }
    }
    true
}

fn eq_strings(a: &Vec<String>, b: &Vec<String>) -> (r: bool)
    ensures
        r == (a@.map_values(|s: String| s@) == b@.map_values(|s: String| s@)),
{
    let ghost av = a@.map_values(|s: String| s@);
    let ghost bv = b@.map_values(|s: String| s@);
    if a.len() != b.len() {
        assert(av.len() != bv.len());
        return false;
    }
    let mut i: usize = 0;
    while i < a.len()
        invariant
            av == a@.map_values(|s: String| s@),
            bv == b@.map_values(|s: String| s@),
            a@.len() == b@.len(),
            i <= a@.len(),
            forall|j: int| 0 <= j < i ==> a@[j]@ == b@[j]@,
        decreases a@.len() - i,
    {
        if !str_eq(a[i].as_str(), b[i].as_str()) {
            proof {
                assert(av[i as int] == a@[i as int]@);
                assert(bv[i as int] == b@[i as int]@);
                assert(av != bv) by {
                    if av == bv {
                        assert(av[i as int] == bv[i as int]);
                    }
                }
            }
            return false;
        }
        i += 1;
    }
    proof {
        assert(av =~= bv);
    }
    true
}

fn gt_bools(a: &Vec<bool>, b: &Vec<bool>) -> (r: bool)
    ensures
        r == spec_bool_seq_gt(a@, b@),
{
    let mut i: usize = 0;
    proof {
        assert(a@.skip(0) =~= a@);
        assert(b@.skip(0) =~= b@);
    }
    loop
        invariant
            i <= a@.len(),
            i <= b@.len(),
            spec_bool_seq_gt(a@, b@) == spec_bool_seq_gt(a@.skip(i as int), b@.skip(i as int)),
        decreases a@.len() - i,
    {
        if i >= a.len() {
            return false;
        }
        if i >= b.len() {
            return true;
        }
        if a[i] != b[i] {
            return a[i] && !b[i];
        }
        proof {
            assert(a@.skip(i as int).skip(1) =~= a@.skip(i + 1));
            assert(b@.skip(i as int).skip(1) =~= b@.skip(i + 1));
        }
        i += 1;
    }
}

fn gt_ints(a: &Vec<i64>, b: &Vec<i64>) -> (r: bool)
    ensures
        r == spec_int_seq_gt(a@, b@),
{
    let mut i: usize = 0;
    proof {
        assert(a@.skip(0) =~= a@);
        assert(b@.skip(0) =~= b@);
    }
    loop
        invariant
            i <= a@.len(),
            i <= b@.len(),
            spec_int_seq_gt(a@, b@) == spec_int_seq_gt(a@.skip(i as int), b@.skip(i as int)),
        decreases a@.len() - i,
    {
        if i >= a.len() {
            return false;
        }
        if i >= b.len() {
            return true;
        }
        if a[i] != b[i] {
            return a[i] > b[i];
        }
        proof {
            assert(a@.skip(i as int).skip(1) =~= a@.skip(i + 1));
            assert(b@.skip(i as int).skip(1) =~= b@.skip(i + 1));
        }
        i += 1;
    }
}

fn gt_floats(a: &Vec<Float64>, b: &Vec<Float64>) -> (r: bool)
    ensures
        r == spec_float_seq_gt(a@.map_values(|f: Float64| f@), b@.map_values(|f: Float64| f@)),
{
    let ghost av = a@.map_values(|f: Float64| f@);
    let ghost bv = b@.map_values(|f: Float64| f@);
    let mut i: usize = 0;
    proof {
        assert(av.skip(0) =~= av);
        assert(bv.skip(0) =~= bv);
    }
    loop
        invariant
            av == a@.map_values(|f: Float64| f@),
            bv == b@.map_values(|f: Float64| f@),
            i <= av.len(),
            i <= bv.len(),
            spec_float_seq_gt(av, bv) == spec_float_seq_gt(av.skip(i as int), bv.skip(i as int)),
        decreases av.len() - i,
    {
        if i >= a.len() {
            return false;
        }
        if i >= b.len() {
            return true;
        }
        if !a[i].float_eq(&b[i]) {
            assert(av.skip(i as int)[0] == av[i as int]);
            assert(bv.skip(i as int)[0] == bv[i as int]);
            return a[i].float_gt(&b[i]);
        }
        proof {
            assert(av.skip(i as int)[0] == av[i as int]);
            assert(bv.skip(i as int)[0] == bv[i as int]);
            assert(av.skip(i as int).skip(1) =~= av.skip(i + 1));
            assert(bv.skip(i as int).skip(1) =~= bv.skip(i + 1));
        }
        i += 1;
    }
}

fn gt_strings(a: &Vec<String>, b: &Vec<String>) -> (r: bool)
    ensures
        r == spec_str_seq_gt(a@.map_values(|s: String| s@), b@.map_values(|s: String| s@)),
{
    let ghost av = a@.map_values(|s: String| s@);
    let ghost bv = b@.map_values(|s: String| s@);
    let mut i: usize = 0;
    proof {
        assert(av.skip(0) =~= av);
        assert(bv.skip(0) =~= bv);
    }
    loop
        invariant
            av == a@.map_values(|s: String| s@),
            bv == b@.map_values(|s: String| s@),
            i <= av.len(),
            i <= bv.len(),
            spec_str_seq_gt(av, bv) == spec_str_seq_gt(av.skip(i as int), bv.skip(i as int)),
        decreases av.len() - i,
    {
        if i >= a.len() {
            return false;
        }
        if i >= b.len() {
            return true;
        }
        if !str_eq(a[i].as_str(), b[i].as_str()) {
            assert(av.skip(i as int)[0] == av[i as int]);
            assert(bv.skip(i as int)[0] == bv[i as int]);
            return str_gt(a[i].as_str(), b[i].as_str());
        }
        proof {
            assert(av.skip(i as int)[0] == av[i as int]);
            assert(bv.skip(i as int)[0] == bv[i as int]);
            assert(av.skip(i as int).skip(1) =~= av.skip(i + 1));
            assert(bv.skip(i as int).skip(1) =~= bv.skip(i + 1));
        }
        i += 1;
    }
}

} // verus!
