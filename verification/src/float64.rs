use vstd::prelude::*;

verus! {

/// The view of a [`Float64`]: the raw IEEE-754 bit pattern together with the
/// JSON token that serialization prints for the number.
pub struct FloatView {
    pub bits: u64,
    pub repr: Seq<char>,
}

/// A double-precision IEEE-754 number, carried as its bit pattern together
/// with the decimal token used when the value is written back out as JSON.
/// Comparisons read only the bits; the token plays no role in equality or
/// order.
#[derive(Debug)]
pub struct Float64 {
    bits: u64,
    repr: String,
}

impl View for Float64 {
    type V = FloatView;

    closed spec fn view(&self) -> FloatView {
        FloatView { bits: self.bits, repr: self.repr@ }
    }
}

/// The bit pattern encodes a NaN: all exponent bits set and a non-zero
/// mantissa.
pub open spec fn f64_is_nan(bits: u64) -> bool {
    bits & 0x7ff0_0000_0000_0000 == 0x7ff0_0000_0000_0000 && bits & 0x000f_ffff_ffff_ffff != 0
}

/// The bit pattern encodes a zero, of either sign.
pub open spec fn f64_is_zero(bits: u64) -> bool {
    bits & 0x7fff_ffff_ffff_ffff == 0
}

/// Numeric equality of two doubles given by their bit patterns: a NaN equals
/// nothing, and the two zeroes equal each other; all other distinct patterns
/// denote distinct numbers.
pub open spec fn spec_float_eq(a: u64, b: u64) -> bool {
    &&& !f64_is_nan(a)
    &&& !f64_is_nan(b)
    &&& (a == b || (f64_is_zero(a) && f64_is_zero(b)))
}

/// A key that increases with the numeric value of the encoded double:
/// non-negative patterns are shifted above all negative ones, and negative
/// patterns are reflected so that greater magnitude sorts lower.
pub open spec fn f64_order_key(bits: u64) -> int {
    if bits < 0x8000_0000_0000_0000 {
        bits + 0x8000_0000_0000_0000
    } else {
        0xffff_ffff_ffff_ffffu64 - bits
    }
}

/// Strict numeric order on doubles given by their bit patterns: false
/// whenever either side is a NaN, as for the partial order on doubles.
pub open spec fn spec_float_gt(a: u64, b: u64) -> bool {
    &&& !f64_is_nan(a)
    &&& !f64_is_nan(b)
    &&& !spec_float_eq(a, b)
    &&& f64_order_key(a) > f64_order_key(b)
}

impl Float64 {
    pub fn new(bits: u64, repr: String) -> (r: Float64)
        ensures
            r@ == (FloatView { bits, repr: repr@ }),
    {
        Float64 { bits, repr }
    }

    pub fn bits(&self) -> (r: u64)
        ensures
            r == self@.bits,
    {
        self.bits
    }

    pub fn repr(&self) -> (r: &str)
        ensures
            r@ == self@.repr,
    {
        self.repr.as_str()
    }

    /// Numeric equality; see [`spec_float_eq`].
    pub fn float_eq(&self, other: &Float64) -> (r: bool)
        ensures
            r == spec_float_eq(self@.bits, other@.bits),
    {
        let a = self.bits;
        let b = other.bits;
        let a_nan = a & 0x7ff0_0000_0000_0000 == 0x7ff0_0000_0000_0000
            && a & 0x000f_ffff_ffff_ffff != 0;
        let b_nan = b & 0x7ff0_0000_0000_0000 == 0x7ff0_0000_0000_0000
            && b & 0x000f_ffff_ffff_ffff != 0;
        if a_nan || b_nan {
            false
        } else if a == b {
            true
        } else {
            a & 0x7fff_ffff_ffff_ffff == 0 && b & 0x7fff_ffff_ffff_ffff == 0
        }
    }

    /// Strict numeric order; see [`spec_float_gt`].
    pub fn float_gt(&self, other: &Float64) -> (r: bool)
        ensures
            r == spec_float_gt(self@.bits, other@.bits),
    {
        let a = self.bits;
        let b = other.bits;
        if self.float_eq(other) {
            return false;
        }
        let a_nan = a & 0x7ff0_0000_0000_0000 == 0x7ff0_0000_0000_0000
            && a & 0x000f_ffff_ffff_ffff != 0;
        let b_nan = b & 0x7ff0_0000_0000_0000 == 0x7ff0_0000_0000_0000
            && b & 0x000f_ffff_ffff_ffff != 0;
        if a_nan || b_nan {
            return false;
        }
        let key_a: u64 = if a < 0x8000_0000_0000_0000 {
            a + 0x8000_0000_0000_0000
        } else {
            0xffff_ffff_ffff_ffff - a
        };
        let key_b: u64 = if b < 0x8000_0000_0000_0000 {
            b + 0x8000_0000_0000_0000
        } else {
            0xffff_ffff_ffff_ffff - b
        };
        key_a > key_b
    }
}

impl Clone for Float64 {
    fn clone(&self) -> (r: Self)
        ensures
            r@ == self@,
    {
        Float64 { bits: self.bits, repr: self.repr.clone() }
    }
}

} // verus!
