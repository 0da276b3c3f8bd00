//! The generic duration type and its conversion families.
//!
//! A duration is a plain numeric value tagged with a compile-time period;
//! the tag never affects the stored representation. Arithmetic is defined
//! only between two durations of the same period; conversion between
//! periods happens only through the checked cast at the end of this module.

use core::cmp::Ordering;
use core::marker::PhantomData;
use vstd::prelude::*;
use crate::ratio::{
    abs_nat, Day, Hour, Mili, Micro, Minute, Month, Nano, Period, Ratio, RatioDivide, Unit, Week,
    Year,
};

verus! {

/// Marker for representations whose arithmetic rounds like floating point.
/// No representation of the verified core behaves so; the trait is kept for
/// callers that extend the library with their own representations.
pub trait TreatAsFloatingPoint {}

/// A value could not be represented exactly in the target representation.
#[derive(Clone, Copy, PartialEq, Eq, Structural, Debug)]
pub struct RangeError;

/// Division truncated toward zero, as machine division behaves.
pub open spec fn trunc_div(a: int, b: int) -> int
    recommends
        b != 0,
{
    let q = (abs_nat(a) as int) / (abs_nat(b) as int);
    if (a < 0) != (b < 0) {
        -q
    } else {
        q
    }
}

/// Remainder of division truncated toward zero: it takes the sign of the
/// dividend.
pub open spec fn trunc_rem(a: int, b: int) -> int
    recommends
        b != 0,
{
    let r = (abs_nat(a) as int) % (abs_nat(b) as int);
    if a < 0 {
        -r
    } else {
        r
    }
}

/// Truncating division agrees case by case with the form used by the
/// standard library's checked division.
pub proof fn lemma_trunc_div_formula(x: int, d: int)
    requires
        d != 0,
    ensures
        trunc_div(x, d) == (if x == 0 {
            0int
        } else if x > 0 && d > 0 {
            x / d
        } else if x < 0 && d < 0 {
            (x * -1) / (d * -1)
        } else if x < 0 {
            ((x * -1) / d) * -1
        } else {
            (x / (d * -1)) * -1
        }),
{
    if x == 0 {
        assert((0int) / (abs_nat(d) as int) == 0) by (nonlinear_arith)
            requires abs_nat(d) as int >= 1;
    }
}

/// The truncating remainder agrees case by case with the form used by the
/// standard library's checked remainder, and is smaller in magnitude than
/// the divisor.
pub proof fn lemma_trunc_rem_formula(x: int, d: int)
    requires
        d != 0,
    ensures
        trunc_rem(x, d) == (if x == 0 {
            0int
        } else if x > 0 && d > 0 {
            x % d
        } else if x < 0 && d < 0 {
            ((x * -1) % (d * -1)) * -1
        } else if x < 0 {
            ((x * -1) % d) * -1
        } else {
            x % (d * -1)
        }),
        abs_nat(trunc_rem(x, d)) < abs_nat(d),
{
    vstd::arithmetic::div_mod::lemma_mod_pos_bound(abs_nat(x) as int, abs_nat(d) as int);
    if x == 0 {
        vstd::arithmetic::div_mod::lemma_small_mod(0, abs_nat(d));
    }
}

/// Division by a positive divisor never grows the dividend in magnitude
/// and keeps its sign.
pub proof fn lemma_trunc_div_bounds(x: int, d: int)
    requires
        d > 0,
    ensures
        x >= 0 ==> 0 <= trunc_div(x, d) <= x,
        x < 0 ==> x <= trunc_div(x, d) <= 0,
{
    let a = abs_nat(x) as int;
    let b = abs_nat(d) as int;
    vstd::arithmetic::div_mod::lemma_fundamental_div_mod(a, b);
    let q = a / b;
    assert(0 <= q && q <= a) by (nonlinear_arith)
        requires a == b * q + a % b, 0 <= a % b < b, b >= 1, a >= 0;
}

/// The capability interface of a duration representation: its value as an
/// unbounded integer, its range, and its arithmetic, each operation exact
/// over that view.
pub trait DurationValues: Sized + Copy {
    /// The represented value, as an unbounded integer.
    spec fn as_int(self) -> int;

    /// The smallest representable value.
    spec fn min_int() -> int;

    /// The largest representable value.
    spec fn max_int() -> int;

    /// Every value lies inside the representation's range, which always
    /// contains zero.
    proof fn bounds(self)
        ensures
            Self::min_int() <= self.as_int() <= Self::max_int(),
            Self::min_int() <= 0 < Self::max_int(),
    ;

    /// The additive identity.
    fn zero() -> (r: Self)
        ensures
            r.as_int() == 0,
    ;

    /// The smallest representable value.
    fn min_value() -> (r: Self)
        ensures
            r.as_int() == Self::min_int(),
    ;

    /// The largest representable value.
    fn max_value() -> (r: Self)
        ensures
            r.as_int() == Self::max_int(),
    ;

    /// Exact addition; the sum must be representable.
    fn add_value(self, rhs: Self) -> (r: Self)
        requires
            Self::min_int() <= self.as_int() + rhs.as_int() <= Self::max_int(),
        ensures
            r.as_int() == self.as_int() + rhs.as_int(),
    ;

    /// Exact subtraction; the difference must be representable.
    fn sub_value(self, rhs: Self) -> (r: Self)
        requires
            Self::min_int() <= self.as_int() - rhs.as_int() <= Self::max_int(),
        ensures
            r.as_int() == self.as_int() - rhs.as_int(),
    ;

    /// Exact multiplication; the product must be representable.
    fn mul_value(self, rhs: Self) -> (r: Self)
        requires
            Self::min_int() <= self.as_int() * rhs.as_int() <= Self::max_int(),
        ensures
            r.as_int() == self.as_int() * rhs.as_int(),
    ;

    /// Division truncated toward zero; the quotient must be representable.
    fn div_value(self, rhs: Self) -> (r: Self)
        requires
            rhs.as_int() != 0,
            Self::min_int() <= trunc_div(self.as_int(), rhs.as_int()) <= Self::max_int(),
        ensures
            r.as_int() == trunc_div(self.as_int(), rhs.as_int()),
    ;

    /// Remainder of truncating division, with the dividend's sign.
    fn rem_value(self, rhs: Self) -> (r: Self)
        requires
            rhs.as_int() != 0,
            !(self.as_int() == Self::min_int() && rhs.as_int() == -1 && Self::min_int() < 0),
        ensures
            r.as_int() == trunc_rem(self.as_int(), rhs.as_int()),
    ;

    /// Value equality.
    fn eq_value(self, rhs: Self) -> (r: bool)
        ensures
            r <==> self.as_int() == rhs.as_int(),
    ;

    /// Strict order on values.
    fn lt_value(self, rhs: Self) -> (r: bool)
        ensures
            r <==> self.as_int() < rhs.as_int(),
    ;
}

impl DurationValues for i8 {
    open spec fn as_int(self) -> int {
        self as int
    }

    open spec fn min_int() -> int {
        i8::MIN as int
    }

    open spec fn max_int() -> int {
        i8::MAX as int
    }

    proof fn bounds(self) {
    }

    fn zero() -> (r: Self) {
        0
    }

    fn min_value() -> (r: Self) {
        i8::MIN
    }

    fn max_value() -> (r: Self) {
        i8::MAX
    }

    fn add_value(self, rhs: Self) -> (r: Self) {
        self + rhs
    }

    fn sub_value(self, rhs: Self) -> (r: Self) {
        self - rhs
    }

    fn mul_value(self, rhs: Self) -> (r: Self) {
        self * rhs
    }

    fn div_value(self, rhs: Self) -> (r: Self) {
        proof {
            lemma_trunc_div_formula(self as int, rhs as int);
        }
        self.checked_div(rhs).unwrap()
    }

    fn rem_value(self, rhs: Self) -> (r: Self) {
        proof {
            lemma_trunc_rem_formula(self as int, rhs as int);
        }
        self.checked_rem(rhs).unwrap()
    }

    fn eq_value(self, rhs: Self) -> (r: bool) {
        self == rhs
    }

    fn lt_value(self, rhs: Self) -> (r: bool) {
        self < rhs
    }
}

impl DurationValues for i16 {
    open spec fn as_int(self) -> int {
        self as int
    }

    open spec fn min_int() -> int {
        i16::MIN as int
    }

    open spec fn max_int() -> int {
        i16::MAX as int
    }

    proof fn bounds(self) {
    }

    fn zero() -> (r: Self) {
        0
    }

    fn min_value() -> (r: Self) {
        i16::MIN
    }

    fn max_value() -> (r: Self) {
        i16::MAX
    }

    fn add_value(self, rhs: Self) -> (r: Self) {
        self + rhs
    }

    fn sub_value(self, rhs: Self) -> (r: Self) {
        self - rhs
    }

    fn mul_value(self, rhs: Self) -> (r: Self) {
        self * rhs
    }

    fn div_value(self, rhs: Self) -> (r: Self) {
        proof {
            lemma_trunc_div_formula(self as int, rhs as int);
        }
        self.checked_div(rhs).unwrap()
    }

    fn rem_value(self, rhs: Self) -> (r: Self) {
        proof {
            lemma_trunc_rem_formula(self as int, rhs as int);
        }
        self.checked_rem(rhs).unwrap()
    }

    fn eq_value(self, rhs: Self) -> (r: bool) {
        self == rhs
    }

    fn lt_value(self, rhs: Self) -> (r: bool) {
        self < rhs
    }
}

impl DurationValues for i32 {
    open spec fn as_int(self) -> int {
        self as int
    }

    open spec fn min_int() -> int {
        i32::MIN as int
    }

    open spec fn max_int() -> int {
        i32::MAX as int
    }

    proof fn bounds(self) {
    }

    fn zero() -> (r: Self) {
        0
    }

    fn min_value() -> (r: Self) {
        i32::MIN
    }

    fn max_value() -> (r: Self) {
        i32::MAX
    }

    fn add_value(self, rhs: Self) -> (r: Self) {
        self + rhs
    }

    fn sub_value(self, rhs: Self) -> (r: Self) {
        self - rhs
    }

    fn mul_value(self, rhs: Self) -> (r: Self) {
        self * rhs
    }

    fn div_value(self, rhs: Self) -> (r: Self) {
        proof {
            lemma_trunc_div_formula(self as int, rhs as int);
        }
        self.checked_div(rhs).unwrap()
    }

    fn rem_value(self, rhs: Self) -> (r: Self) {
        proof {
            lemma_trunc_rem_formula(self as int, rhs as int);
        }
        self.checked_rem(rhs).unwrap()
    }

    fn eq_value(self, rhs: Self) -> (r: bool) {
        self == rhs
    }

    fn lt_value(self, rhs: Self) -> (r: bool) {
        self < rhs
    }
}

impl DurationValues for i64 {
    open spec fn as_int(self) -> int {
        self as int
    }

    open spec fn min_int() -> int {
        i64::MIN as int
    }

    open spec fn max_int() -> int {
        i64::MAX as int
    }

    proof fn bounds(self) {
    }

    fn zero() -> (r: Self) {
        0
    }

    fn min_value() -> (r: Self) {
        i64::MIN
    }

    fn max_value() -> (r: Self) {
        i64::MAX
    }

    fn add_value(self, rhs: Self) -> (r: Self) {
        self + rhs
    }

    fn sub_value(self, rhs: Self) -> (r: Self) {
        self - rhs
    }

    fn mul_value(self, rhs: Self) -> (r: Self) {
        self * rhs
    }

    fn div_value(self, rhs: Self) -> (r: Self) {
        proof {
            lemma_trunc_div_formula(self as int, rhs as int);
        }
        self.checked_div(rhs).unwrap()
    }

    fn rem_value(self, rhs: Self) -> (r: Self) {
        proof {
            lemma_trunc_rem_formula(self as int, rhs as int);
        }
        self.checked_rem(rhs).unwrap()
    }

    fn eq_value(self, rhs: Self) -> (r: bool) {
        self == rhs
    }

    fn lt_value(self, rhs: Self) -> (r: bool) {
        self < rhs
    }
}

impl DurationValues for i128 {
    open spec fn as_int(self) -> int {
        self as int
    }

    open spec fn min_int() -> int {
        i128::MIN as int
    }

    open spec fn max_int() -> int {
        i128::MAX as int
    }

    proof fn bounds(self) {
    }

    fn zero() -> (r: Self) {
        0
    }

    fn min_value() -> (r: Self) {
        i128::MIN
    }

    fn max_value() -> (r: Self) {
        i128::MAX
    }

    fn add_value(self, rhs: Self) -> (r: Self) {
        self + rhs
    }

    fn sub_value(self, rhs: Self) -> (r: Self) {
        self - rhs
    }

    fn mul_value(self, rhs: Self) -> (r: Self) {
        self * rhs
    }

    fn div_value(self, rhs: Self) -> (r: Self) {
        proof {
            lemma_trunc_div_formula(self as int, rhs as int);
        }
        self.checked_div(rhs).unwrap()
    }

    fn rem_value(self, rhs: Self) -> (r: Self) {
        proof {
            lemma_trunc_rem_formula(self as int, rhs as int);
        }
        self.checked_rem(rhs).unwrap()
    }

    fn eq_value(self, rhs: Self) -> (r: bool) {
        self == rhs
    }

    fn lt_value(self, rhs: Self) -> (r: bool) {
        self < rhs
    }
}

impl DurationValues for u8 {
    open spec fn as_int(self) -> int {
        self as int
    }

    open spec fn min_int() -> int {
        u8::MIN as int
    }

    open spec fn max_int() -> int {
        u8::MAX as int
    }

    proof fn bounds(self) {
    }

    fn zero() -> (r: Self) {
        0
    }

    fn min_value() -> (r: Self) {
        0
    }

    fn max_value() -> (r: Self) {
        u8::MAX
    }

    fn add_value(self, rhs: Self) -> (r: Self) {
        self + rhs
    }

    fn sub_value(self, rhs: Self) -> (r: Self) {
        self - rhs
    }

    fn mul_value(self, rhs: Self) -> (r: Self) {
        self * rhs
    }

    fn div_value(self, rhs: Self) -> (r: Self) {
        self / rhs
    }

    fn rem_value(self, rhs: Self) -> (r: Self) {
        self % rhs
    }

    fn eq_value(self, rhs: Self) -> (r: bool) {
        self == rhs
    }

    fn lt_value(self, rhs: Self) -> (r: bool) {
        self < rhs
    }
}

impl DurationValues for u16 {
    open spec fn as_int(self) -> int {
        self as int
    }

    open spec fn min_int() -> int {
        u16::MIN as int
    }

    open spec fn max_int() -> int {
        u16::MAX as int
    }

    proof fn bounds(self) {
    }

    fn zero() -> (r: Self) {
        0
    }

    fn min_value() -> (r: Self) {
        0
    }

    fn max_value() -> (r: Self) {
        u16::MAX
    }

    fn add_value(self, rhs: Self) -> (r: Self) {
        self + rhs
    }

    fn sub_value(self, rhs: Self) -> (r: Self) {
        self - rhs
    }

    fn mul_value(self, rhs: Self) -> (r: Self) {
        self * rhs
    }

    fn div_value(self, rhs: Self) -> (r: Self) {
        self / rhs
    }

    fn rem_value(self, rhs: Self) -> (r: Self) {
        self % rhs
    }

    fn eq_value(self, rhs: Self) -> (r: bool) {
        self == rhs
    }

    fn lt_value(self, rhs: Self) -> (r: bool) {
        self < rhs
    }
}

impl DurationValues for u32 {
    open spec fn as_int(self) -> int {
        self as int
    }

    open spec fn min_int() -> int {
        u32::MIN as int
    }

    open spec fn max_int() -> int {
        u32::MAX as int
    }

    proof fn bounds(self) {
    }

    fn zero() -> (r: Self) {
        0
    }

    fn min_value() -> (r: Self) {
        0
    }

    fn max_value() -> (r: Self) {
        u32::MAX
    }

    fn add_value(self, rhs: Self) -> (r: Self) {
        self + rhs
    }

    fn sub_value(self, rhs: Self) -> (r: Self) {
        self - rhs
    }

    fn mul_value(self, rhs: Self) -> (r: Self) {
        self * rhs
    }

    fn div_value(self, rhs: Self) -> (r: Self) {
        self / rhs
    }

    fn rem_value(self, rhs: Self) -> (r: Self) {
        self % rhs
    }

    fn eq_value(self, rhs: Self) -> (r: bool) {
        self == rhs
    }

    fn lt_value(self, rhs: Self) -> (r: bool) {
        self < rhs
    }
}

impl DurationValues for u64 {
    open spec fn as_int(self) -> int {
        self as int
    }

    open spec fn min_int() -> int {
        u64::MIN as int
    }

    open spec fn max_int() -> int {
        u64::MAX as int
    }

    proof fn bounds(self) {
    }

    fn zero() -> (r: Self) {
        0
    }

    fn min_value() -> (r: Self) {
        0
    }

    fn max_value() -> (r: Self) {
        u64::MAX
    }

    fn add_value(self, rhs: Self) -> (r: Self) {
        self + rhs
    }

    fn sub_value(self, rhs: Self) -> (r: Self) {
        self - rhs
    }

    fn mul_value(self, rhs: Self) -> (r: Self) {
        self * rhs
    }

    fn div_value(self, rhs: Self) -> (r: Self) {
        self / rhs
    }

    fn rem_value(self, rhs: Self) -> (r: Self) {
        self % rhs
    }

    fn eq_value(self, rhs: Self) -> (r: bool) {
        self == rhs
    }

    fn lt_value(self, rhs: Self) -> (r: bool) {
        self < rhs
    }
}

impl DurationValues for u128 {
    open spec fn as_int(self) -> int {
        self as int
    }

    open spec fn min_int() -> int {
        u128::MIN as int
    }

    open spec fn max_int() -> int {
        u128::MAX as int
    }

    proof fn bounds(self) {
    }

    fn zero() -> (r: Self) {
        0
    }

    fn min_value() -> (r: Self) {
        0
    }

    fn max_value() -> (r: Self) {
        u128::MAX
    }

    fn add_value(self, rhs: Self) -> (r: Self) {
        self + rhs
    }

    fn sub_value(self, rhs: Self) -> (r: Self) {
        self - rhs
    }

    fn mul_value(self, rhs: Self) -> (r: Self) {
        self * rhs
    }

    fn div_value(self, rhs: Self) -> (r: Self) {
        self / rhs
    }

    fn rem_value(self, rhs: Self) -> (r: Self) {
        self % rhs
    }

    fn eq_value(self, rhs: Self) -> (r: bool) {
        self == rhs
    }

    fn lt_value(self, rhs: Self) -> (r: bool) {
        self < rhs
    }
}

/// A representation that a cross-period cast can widen into the 128-bit
/// intermediate domain and narrow back out of it.
pub trait CastRepr: DurationValues {
    /// Lossless widening into the intermediate domain.
    fn to_wide(self) -> (w: i128)
        ensures
            w as int == self.as_int(),
    ;

    /// Checked narrowing out of the intermediate domain.
    fn from_wide(w: i128) -> (r: Option<Self>)
        ensures
            r is Some <==> Self::min_int() <= w as int <= Self::max_int(),
            r matches Some(v) ==> v.as_int() == w as int,
    ;
}

impl CastRepr for i8 {
    fn to_wide(self) -> (w: i128) {
        self as i128
    }

    fn from_wide(w: i128) -> (r: Option<Self>) {
        if w < i8::MIN as i128 || w > i8::MAX as i128 {
            None
        } else {
            Some(w as i8)
        }
    }
}

impl CastRepr for i16 {
    fn to_wide(self) -> (w: i128) {
        self as i128
    }

    fn from_wide(w: i128) -> (r: Option<Self>) {
        if w < i16::MIN as i128 || w > i16::MAX as i128 {
            None
        } else {
            Some(w as i16)
        }
    }
}

impl CastRepr for i32 {
    fn to_wide(self) -> (w: i128) {
        self as i128
    }

    fn from_wide(w: i128) -> (r: Option<Self>) {
        if w < i32::MIN as i128 || w > i32::MAX as i128 {
            None
        } else {
            Some(w as i32)
        }
    }
}

impl CastRepr for i64 {
    fn to_wide(self) -> (w: i128) {
        self as i128
    }

    fn from_wide(w: i128) -> (r: Option<Self>) {
        if w < i64::MIN as i128 || w > i64::MAX as i128 {
            None
        } else {
            Some(w as i64)
        }
    }
}

impl CastRepr for i128 {
    fn to_wide(self) -> (w: i128) {
        self as i128
    }

    fn from_wide(w: i128) -> (r: Option<Self>) {
        Some(w)
    }
}

impl CastRepr for u8 {
    fn to_wide(self) -> (w: i128) {
        self as i128
    }

    fn from_wide(w: i128) -> (r: Option<Self>) {
        if w < 0 || w > u8::MAX as i128 {
            None
        } else {
            Some(w as u8)
        }
    }
}

impl CastRepr for u16 {
    fn to_wide(self) -> (w: i128) {
        self as i128
    }

    fn from_wide(w: i128) -> (r: Option<Self>) {
        if w < 0 || w > u16::MAX as i128 {
            None
        } else {
            Some(w as u16)
        }
    }
}

impl CastRepr for u32 {
    fn to_wide(self) -> (w: i128) {
        self as i128
    }

    fn from_wide(w: i128) -> (r: Option<Self>) {
        if w < 0 || w > u32::MAX as i128 {
            None
        } else {
            Some(w as u32)
        }
    }
}

impl CastRepr for u64 {
    fn to_wide(self) -> (w: i128) {
        self as i128
    }

    fn from_wide(w: i128) -> (r: Option<Self>) {
        if w < 0 || w > u64::MAX as i128 {
            None
        } else {
            Some(w as u64)
        }
    }
}

/// A tagged amount of time: one bare representation value, and a zero-size
/// period tag that never affects the stored representation. Two durations
/// interoperate only when their period tags are the same type.
#[derive(Debug, Hash)]
#[verifier::reject_recursive_types(P)]
pub struct Duration<Repr, P = Unit> {
    value: Repr,
    period: PhantomData<P>,
}

impl<Repr: Copy, P> Clone for Duration<Repr, P> {
    fn clone(&self) -> (r: Self)
        ensures
            r == *self,
    {
        *self
    }
}

impl<Repr: Copy, P> Copy for Duration<Repr, P> {

}

impl<Repr, P> Duration<Repr, P> {
    /// The stored representation value.
    pub closed spec fn repr(self) -> Repr {
        self.value
    }

    /// Wraps a representation value; any value is a legal duration.
    pub fn new(x: Repr) -> (d: Self)
        ensures
            d.repr() == x,
    {
        Duration { value: x, period: PhantomData }
    }

    /// Unwraps the representation value, losslessly.
    pub fn into_inner(self) -> (r: Repr)
        ensures
            r == self.repr(),
    {
        self.value
    }
}

impl<Repr: DurationValues, P> Duration<Repr, P> {
    /// The duration's value, as an unbounded integer.
    pub open spec fn val(self) -> int {
        self.repr().as_int()
    }

    /// The representation's range contains the value.
    pub proof fn bounds(self)
        ensures
            Repr::min_int() <= self.val() <= Repr::max_int(),
            Repr::min_int() <= 0 < Repr::max_int(),
    {
        self.value.bounds();
    }

    /// The zero duration of this period: the additive identity.
    pub fn zero() -> (d: Self)
        ensures
            d.val() == 0,
    {
        Duration { value: Repr::zero(), period: PhantomData }
    }

    /// The smallest representable duration of this period.
    pub fn min_value() -> (d: Self)
        ensures
            d.val() == Repr::min_int(),
    {
        Duration { value: Repr::min_value(), period: PhantomData }
    }

    /// The largest representable duration of this period.
    pub fn max_value() -> (d: Self)
        ensures
            d.val() == Repr::max_int(),
    {
        Duration { value: Repr::max_value(), period: PhantomData }
    }

    /// Same-period addition, forwarded to the representation; the sum must
    /// be representable.
    pub fn add(self, rhs: Self) -> (d: Self)
        requires
            Repr::min_int() <= self.val() + rhs.val() <= Repr::max_int(),
        ensures
            d.val() == self.val() + rhs.val(),
    {
        Duration { value: self.value.add_value(rhs.value), period: PhantomData }
    }

    /// Same-period subtraction, forwarded to the representation; the
    /// difference must be representable.
    pub fn sub(self, rhs: Self) -> (d: Self)
        requires
            Repr::min_int() <= self.val() - rhs.val() <= Repr::max_int(),
        ensures
            d.val() == self.val() - rhs.val(),
    {
        Duration { value: self.value.sub_value(rhs.value), period: PhantomData }
    }

    /// Multiplication by a bare scalar; the period tag is unchanged.
    pub fn mul(self, rhs: Repr) -> (d: Self)
        requires
            Repr::min_int() <= self.val() * rhs.as_int() <= Repr::max_int(),
        ensures
            d.val() == self.val() * rhs.as_int(),
    {
        Duration { value: self.value.mul_value(rhs), period: PhantomData }
    }

    /// Division by a bare scalar, truncated toward zero; the period tag is
    /// unchanged.
    pub fn div(self, rhs: Repr) -> (d: Self)
        requires
            rhs.as_int() != 0,
            Repr::min_int() <= trunc_div(self.val(), rhs.as_int()) <= Repr::max_int(),
        ensures
            d.val() == trunc_div(self.val(), rhs.as_int()),
    {
        Duration { value: self.value.div_value(rhs), period: PhantomData }
    }

    /// Remainder of division by a bare scalar; the period tag is unchanged.
    pub fn rem(self, rhs: Repr) -> (d: Self)
        requires
            rhs.as_int() != 0,
            !(self.val() == Repr::min_int() && rhs.as_int() == -1 && Repr::min_int() < 0),
        ensures
            d.val() == trunc_rem(self.val(), rhs.as_int()),
    {
        Duration { value: self.value.rem_value(rhs), period: PhantomData }
    }
}

impl<Repr: DurationValues, P> Default for Duration<Repr, P> {
    /// The default duration is the zero duration of this period.
    fn default() -> (d: Self)
        ensures
            d.val() == 0,
    {
        Duration { value: Repr::zero(), period: PhantomData }
    }
}

impl<Repr: DurationValues, P> PartialEq for Duration<Repr, P> {
    fn eq(&self, other: &Self) -> (r: bool) {
        self.value.eq_value(other.value)
    }
}

impl<Repr: DurationValues, P> vstd::std_specs::cmp::PartialEqSpecImpl for Duration<Repr, P> {
    open spec fn obeys_eq_spec() -> bool {
        true
    }

    open spec fn eq_spec(&self, other: &Self) -> bool {
        self.val() == other.val()
    }
}

impl<Repr: DurationValues, P> Eq for Duration<Repr, P> {

}

impl<Repr: DurationValues, P> PartialOrd for Duration<Repr, P> {
    fn partial_cmp(&self, other: &Self) -> (r: Option<Ordering>) {
        if self.value.lt_value(other.value) {
            Some(Ordering::Less)
        } else if self.value.eq_value(other.value) {
            Some(Ordering::Equal)
        } else {
            Some(Ordering::Greater)
        }
    }
}

impl<Repr: DurationValues, P> vstd::std_specs::cmp::PartialOrdSpecImpl for Duration<Repr, P> {
    open spec fn obeys_partial_cmp_spec() -> bool {
        true
    }

    open spec fn partial_cmp_spec(&self, other: &Self) -> Option<Ordering> {
        if self.val() < other.val() {
            Some(Ordering::Less)
        } else if self.val() == other.val() {
            Some(Ordering::Equal)
        } else {
            Some(Ordering::Greater)
        }
    }
}

/// The view of a duration's values through its representation: the range
/// and the exact arithmetic of a duration are those of its representation,
/// tagged with its period.
impl<Repr: DurationValues, P: Copy> DurationValues for Duration<Repr, P> {
    open spec fn as_int(self) -> int {
        self.val()
    }

    open spec fn min_int() -> int {
        Repr::min_int()
    }

    open spec fn max_int() -> int {
        Repr::max_int()
    }

    proof fn bounds(self) {
        self.value.bounds();
    }

    fn zero() -> (r: Self) {
        Duration { value: Repr::zero(), period: PhantomData }
    }

    fn min_value() -> (r: Self) {
        Duration { value: Repr::min_value(), period: PhantomData }
    }

    fn max_value() -> (r: Self) {
        Duration { value: Repr::max_value(), period: PhantomData }
    }

    fn add_value(self, rhs: Self) -> (r: Self) {
        Duration { value: self.value.add_value(rhs.value), period: PhantomData }
    }

    fn sub_value(self, rhs: Self) -> (r: Self) {
        Duration { value: self.value.sub_value(rhs.value), period: PhantomData }
    }

    fn mul_value(self, rhs: Self) -> (r: Self) {
        Duration { value: self.value.mul_value(rhs.value), period: PhantomData }
    }

    fn div_value(self, rhs: Self) -> (r: Self) {
        Duration { value: self.value.div_value(rhs.value), period: PhantomData }
    }

    fn rem_value(self, rhs: Self) -> (r: Self) {
        Duration { value: self.value.rem_value(rhs.value), period: PhantomData }
    }

    fn eq_value(self, rhs: Self) -> (r: bool) {
        self.value.eq_value(rhs.value)
    }

    fn lt_value(self, rhs: Self) -> (r: bool) {
        self.value.lt_value(rhs.value)
    }
}

/// The family of duration specializations: every member is a plain
/// duration under a representation and a period.
pub trait IsDuration: Sized {
    type Repr: DurationValues;

    type Period: Period;

    /// The member's value, as an unbounded integer.
    spec fn dur_val(self) -> int;

    /// The member, as the plain duration it stands for.
    fn as_duration(self) -> (d: Duration<Self::Repr, Self::Period>)
        ensures
            d.val() == self.dur_val(),
    ;
}

impl<Repr: DurationValues, P: Period> IsDuration for Duration<Repr, P> {
    type Repr = Repr;

    type Period = P;

    open spec fn dur_val(self) -> int {
        self.val()
    }

    fn as_duration(self) -> (d: Duration<Repr, P>) {
        self
    }
}

/// A representation that widens losslessly into another: the target's
/// range contains the source's.
pub trait ReprWiden<T: DurationValues>: DurationValues {
    /// The same value in the wider representation.
    fn widen(self) -> (r: T)
        ensures
            r.as_int() == self.as_int(),
    ;
}

/// A representation that narrows fallibly into another: the value is
/// preserved exactly or the conversion is refused.
pub trait ReprNarrow<T: DurationValues>: DurationValues {
    /// The same value in the narrower representation, when it fits.
    fn narrow(self) -> (r: Result<T, RangeError>)
        ensures
            r is Ok <==> T::min_int() <= self.as_int() <= T::max_int(),
            r matches Ok(v) ==> v.as_int() == self.as_int(),
    ;
}

impl<A: CastRepr, B: CastRepr> ReprNarrow<B> for A {
    fn narrow(self) -> (r: Result<B, RangeError>) {
        match B::from_wide(self.to_wide()) {
            Some(v) => Ok(v),
            None => Err(RangeError),
        }
    }
}


impl ReprWiden<i16> for i8 {
    fn widen(self) -> (r: i16) {
        self as i16
    }
}

impl ReprWiden<i32> for i8 {
    fn widen(self) -> (r: i32) {
        self as i32
    }
}

impl ReprWiden<i64> for i8 {
    fn widen(self) -> (r: i64) {
        self as i64
    }
}

impl ReprWiden<i128> for i8 {
    fn widen(self) -> (r: i128) {
        self as i128
    }
}

impl ReprWiden<i32> for i16 {
    fn widen(self) -> (r: i32) {
        self as i32
    }
}

impl ReprWiden<i64> for i16 {
    fn widen(self) -> (r: i64) {
        self as i64
    }
}

impl ReprWiden<i128> for i16 {
    fn widen(self) -> (r: i128) {
        self as i128
    }
}

impl ReprWiden<i64> for i32 {
    fn widen(self) -> (r: i64) {
        self as i64
    }
}

impl ReprWiden<i128> for i32 {
    fn widen(self) -> (r: i128) {
        self as i128
    }
}

impl ReprWiden<i128> for i64 {
    fn widen(self) -> (r: i128) {
        self as i128
    }
}

impl ReprWiden<u16> for u8 {
    fn widen(self) -> (r: u16) {
        self as u16
    }
}

impl ReprWiden<u32> for u8 {
    fn widen(self) -> (r: u32) {
        self as u32
    }
}

impl ReprWiden<u64> for u8 {
    fn widen(self) -> (r: u64) {
        self as u64
    }
}

impl ReprWiden<u128> for u8 {
    fn widen(self) -> (r: u128) {
        self as u128
    }
}

impl ReprWiden<i16> for u8 {
    fn widen(self) -> (r: i16) {
        self as i16
    }
}

impl ReprWiden<i32> for u8 {
    fn widen(self) -> (r: i32) {
        self as i32
    }
}

impl ReprWiden<i64> for u8 {
    fn widen(self) -> (r: i64) {
        self as i64
    }
}

impl ReprWiden<i128> for u8 {
    fn widen(self) -> (r: i128) {
        self as i128
    }
}

impl ReprWiden<u32> for u16 {
    fn widen(self) -> (r: u32) {
        self as u32
    }
}

impl ReprWiden<u64> for u16 {
    fn widen(self) -> (r: u64) {
        self as u64
    }
}

impl ReprWiden<u128> for u16 {
    fn widen(self) -> (r: u128) {
        self as u128
    }
}

impl ReprWiden<i32> for u16 {
    fn widen(self) -> (r: i32) {
        self as i32
    }
}

impl ReprWiden<i64> for u16 {
    fn widen(self) -> (r: i64) {
        self as i64
    }
}

impl ReprWiden<i128> for u16 {
    fn widen(self) -> (r: i128) {
        self as i128
    }
}

impl ReprWiden<u64> for u32 {
    fn widen(self) -> (r: u64) {
        self as u64
    }
}

impl ReprWiden<u128> for u32 {
    fn widen(self) -> (r: u128) {
        self as u128
    }
}

impl ReprWiden<i64> for u32 {
    fn widen(self) -> (r: i64) {
        self as i64
    }
}

impl ReprWiden<i128> for u32 {
    fn widen(self) -> (r: i128) {
        self as i128
    }
}

impl ReprWiden<u128> for u64 {
    fn widen(self) -> (r: u128) {
        self as u128
    }
}

impl ReprWiden<i128> for u64 {
    fn widen(self) -> (r: i128) {
        self as i128
    }
}

/// Widening conversion between durations: always succeeds, keeps the
/// period, and preserves the value exactly.
pub trait DurationInto<R2: DurationValues>: IsDuration {
    /// The same duration in a wider representation.
    fn into(self) -> (d: Duration<R2, Self::Period>)
        ensures
            d.val() == self.dur_val(),
    ;
}

impl<R1: ReprWiden<R2>, R2: DurationValues, P: Period> DurationInto<R2> for Duration<R1, P> {
    fn into(self) -> (d: Duration<R2, P>) {
        Duration { value: self.value.widen(), period: PhantomData }
    }
}

/// Narrowing conversion between durations: succeeds exactly when the value
/// is representable in the target representation, keeping the period.
pub trait DurationTryInto<R2: DurationValues>: IsDuration {
    type Error;

    /// The same duration in a narrower representation, when the value fits;
    /// a range error otherwise.
    fn try_into(self) -> (r: Result<Duration<R2, Self::Period>, Self::Error>)
        ensures
            r is Ok <==> R2::min_int() <= self.dur_val() <= R2::max_int(),
            r matches Ok(d) ==> d.val() == self.dur_val(),
    ;
}

impl<R1: ReprNarrow<R2>, R2: DurationValues, P: Period> DurationTryInto<R2> for Duration<R1, P> {
    type Error = RangeError;

    fn try_into(self) -> (r: Result<Duration<R2, P>, RangeError>) {
        match self.value.narrow() {
            Ok(v) => Ok(Duration { value: v, period: PhantomData }),
            Err(e) => Err(e),
        }
    }
}

/// Cross-period conversion: the value is rescaled by the exact ratio of
/// the two periods and narrowed into the target representation. The
/// scaling is computed in a widened intermediate domain; should even that
/// domain overflow, the cast reports the same range error as the final
/// narrowing, never a wrapped or saturated value.
pub trait DurationCast<D: IsDuration>: IsDuration {
    type Error;

    /// Whether the machine can represent the reduced scale factor between
    /// the two periods.
    spec fn cast_pre(self) -> bool;

    /// The exactly rescaled value, truncated toward zero.
    spec fn cast_val(self) -> int;

    /// Whether the rescaled value is representable: the widened
    /// intermediate product must fit the intermediate domain and the final
    /// value the target representation.
    spec fn cast_fits(self) -> bool;

    /// Converts, returning a range error exactly when the rescaled value
    /// is not representable.
    fn duration_cast(self) -> (r: Result<D, Self::Error>)
        requires
            self.cast_pre(),
        ensures
            r is Ok <==> self.cast_fits(),
            r matches Ok(d) ==> d.dur_val() == self.cast_val(),
    ;
}

impl<R1: CastRepr, P1: Period, R2: CastRepr, P2: Period> DurationCast<Duration<R2, P2>> for Duration<R1, P1> {
    type Error = RangeError;

    open spec fn cast_pre(self) -> bool {
        <RatioDivide<P1, P2> as Period>::in_range()
    }

    open spec fn cast_val(self) -> int {
        trunc_div(
            self.val() * <RatioDivide<P1, P2> as Period>::num(),
            <RatioDivide<P1, P2> as Period>::den(),
        )
    }

    open spec fn cast_fits(self) -> bool {
        let scaled = self.val() * <RatioDivide<P1, P2> as Period>::num();
        i128::MIN <= scaled <= i128::MAX && R2::min_int() <= trunc_div(
            scaled,
            <RatioDivide<P1, P2> as Period>::den(),
        ) <= R2::max_int()
    }

    fn duration_cast(self) -> (r: Result<Duration<R2, P2>, RangeError>) {
        proof {
            <RatioDivide<P1, P2> as Period>::properties();
        }
        let scale: Ratio = <RatioDivide<P1, P2> as Period>::ratio();
        let num: i64 = scale.numerator();
        let den: i64 = scale.denominator();
        let w: i128 = self.value.to_wide();
        match w.checked_mul(num as i128) {
            None => Err(RangeError),
            Some(scaled) => {
                proof {
                    lemma_trunc_div_formula(scaled as int, den as int);
                    lemma_trunc_div_bounds(scaled as int, den as int);
                }
                let q: i128 = scaled.checked_div(den as i128).unwrap();
                match R2::from_wide(q) {
                    Some(v) => Ok(Duration { value: v, period: PhantomData }),
                    None => Err(RangeError),
                }
            },
        }
    }
}

/// Adding the zero duration to any representable duration leaves its value
/// unchanged, and subtracting a duration from itself yields the zero value.
pub proof fn lemma_additive_identity<Repr: DurationValues, P: Period>(
    z: Duration<Repr, P>,
    d: Duration<Repr, P>,
)
    requires
        z.val() == 0,
    ensures
        z.val() + d.val() == d.val(),
        d.val() - d.val() == 0,
{
}

/// A cast down by an exact scale and back up again loses nothing when the
/// value is a whole multiple of the scale: scaling down truncates toward
/// zero, and multiplying the quotient by the scale returns the original
/// value.
pub proof fn lemma_cast_round_trip(v: int, s: int)
    requires
        s > 0,
        v % s == 0,
    ensures
        trunc_div(v, s) * s == v,
{
    vstd::arithmetic::div_mod::lemma_fundamental_div_mod(v, s);
    let q = v / s;
    assert(v == q * s) by (nonlinear_arith)
        requires v == s * q + v % s, v % s == 0;
    if v >= 0 {
        assert(trunc_div(v, s) == q);
    } else {
        // the magnitude of v is the same exact multiple of s, negated.
        vstd::arithmetic::div_mod::lemma_div_multiples_vanish(-q, s);
        assert(s * (-q) == -(q * s)) by (nonlinear_arith);
        assert((-v) / s == -q);
        assert(trunc_div(v, s) == q);
    }
    assert(q * s == v);
}

/// Seconds over a 64-bit representation.
pub type Seconds = Duration<i64, Unit>;

/// Milliseconds over a 64-bit representation.
pub type Miliseconds = Duration<i64, Mili>;

/// Microseconds over a 64-bit representation.
pub type Microseconds = Duration<i64, Micro>;

/// Nanoseconds over a 128-bit representation.
pub type Nanoseconds = Duration<i128, Nano>;

/// Minutes over a 64-bit representation.
pub type Minutes = Duration<i64, Minute>;

/// Hours over a 64-bit representation.
pub type Hours = Duration<i64, Hour>;

/// Days over a 64-bit representation.
pub type Days = Duration<i64, Day>;

/// Weeks over a 64-bit representation.
pub type Weeks = Duration<i64, Week>;

/// Average Gregorian months over a 64-bit representation.
pub type Months = Duration<i64, Month>;

/// Average Gregorian years over a 64-bit representation.
pub type Years = Duration<i64, Year>;

} // verus!
