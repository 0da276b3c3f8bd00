//! Clock contracts: what a time source must guarantee, and the saturating
//! arithmetic that lets an implementation promise a query that cannot
//! fail.
//!
//! Reading the host's time source is outside the verified core: a program
//! binds a clock by implementing [`Clock`] for a type of its own, reading
//! the host's whole-second and sub-second counts, and combining them with
//! [`ticks_from_timespec`].

use vstd::prelude::*;
use vstd::arithmetic::div_mod::lemma_fundamental_div_mod;
use crate::duration::{trunc_div, DurationValues, IsDuration};
use crate::ratio::{abs_nat, lemma_multiply_exact, Nano, Period, Ratio, RatioMultiply, Reciprocal};
use crate::time_point::TimePoint;

verus! {

/// A time source: its period, its representation, its duration type, and
/// a query for the current instant.
pub trait Clock: Sized {
    type Period: Period;

    type Repr: DurationValues;

    type Duration: IsDuration<Repr = Self::Repr, Period = Self::Period>;

    /// The current instant. What it returns depends on the outside time
    /// source, so nothing is promised of the value here.
    fn now() -> TimePoint<Self, Self::Duration>;
}

/// A clock whose representation carries the full arithmetic and ordering
/// capability set, and whose `now` cannot fail or abort. The implementer
/// owes that guarantee, for instance by computing only with saturating
/// arithmetic, as [`HackForSoundness`] does; it is not checked here.
pub trait TrivialClock: Clock {

}

/// A clock that never goes backward: when one `now` call completes before
/// another begins, the first result is at most the second, and ticks keep
/// a consistent spacing. The implementer owes that guarantee; it is not
/// checked here. `lemma_monotonic_ticks` states the promised ordering for
/// a tick sequence of fixed spacing.
pub trait Monotonic: Clock {

}

/// Conversion of instants between two clocks that are known to share a
/// timeline and epoch: the underlying duration value is kept, only the
/// clock tag changes.
pub trait ClockTimeConversion<Other: Clock>: Clock {
    /// Re-tags an instant from this clock's frame into the other's,
    /// keeping the duration value.
    fn into_other<D: IsDuration>(value: TimePoint<Self, D>) -> (r: TimePoint<Other, D>)
        ensures
            r.dur().dur_val() == value.dur().dur_val(),
    ;
}

/// Every clock shares its own timeline: conversion to itself is the
/// identity.
impl<C: Clock> ClockTimeConversion<C> for C {
    fn into_other<D: IsDuration>(value: TimePoint<C, D>) -> (r: TimePoint<C, D>) {
        value
    }
}

/// A value clamped into the 64-bit signed range.
pub open spec fn sat_i64(x: int) -> int {
    if x > i64::MAX {
        i64::MAX as int
    } else if x < i64::MIN {
        i64::MIN as int
    } else {
        x
    }
}

/// The quotient of two 64-bit values, truncated toward zero, stays in the
/// 64-bit range on every pair but the one overflowing case.
proof fn lemma_trunc_div_range(x: int, d: int)
    requires
        i64::MIN <= x <= i64::MAX,
        i64::MIN <= d <= i64::MAX,
        d != 0,
        !(x == i64::MIN && d == -1),
    ensures
        i64::MIN <= trunc_div(x, d) <= i64::MAX,
{
    let a = abs_nat(x) as int;
    let b = abs_nat(d) as int;
    lemma_fundamental_div_mod(a, b);
    let q0 = a / b;
    assert(q0 >= 0) by (nonlinear_arith)
        requires a == b * q0 + a % b, 0 <= a % b < b, b >= 1, a >= 0;
    assert(q0 * b <= a) by (nonlinear_arith)
        requires a == b * q0 + a % b, 0 <= a % b;
    if b == 1 {
        assert(q0 == a) by (nonlinear_arith)
            requires a == b * q0 + a % b, b == 1, 0 <= a % b < b;
    } else {
        assert(2 * q0 <= a) by (nonlinear_arith)
            requires q0 * b <= a, b >= 2, q0 >= 0;
    }
}

/// A 64-bit value whose addition and multiplication saturate and whose
/// division is defined on every nonzero divisor, so that a clock built on
/// it can promise a query that cannot panic.
pub struct HackForSoundness(pub i64);

impl From<i64> for HackForSoundness {
    fn from(v: i64) -> (r: Self) {
        HackForSoundness(v)
    }
}

impl vstd::std_specs::convert::FromSpecImpl<i64> for HackForSoundness {
    open spec fn obeys_from_spec() -> bool {
        true
    }

    open spec fn from_spec(v: i64) -> Self {
        HackForSoundness(v)
    }
}

impl From<HackForSoundness> for i64 {
    fn from(v: HackForSoundness) -> (r: i64) {
        v.0
    }
}

impl vstd::std_specs::convert::FromSpecImpl<HackForSoundness> for i64 {
    open spec fn obeys_from_spec() -> bool {
        true
    }

    open spec fn from_spec(v: HackForSoundness) -> i64 {
        v.0
    }
}

impl HackForSoundness {
    /// Saturating addition.
    pub fn add(self, rhs: Self) -> (r: Self)
        ensures
            r.0 as int == sat_i64(self.0 + rhs.0),
    {
        match self.0.checked_add(rhs.0) {
            Some(v) => HackForSoundness(v),
            None => {
                if self.0 > 0 {
                    HackForSoundness(i64::MAX)
                } else {
                    HackForSoundness(i64::MIN)
                }
            },
        }
    }

    /// Saturating multiplication.
    pub fn mul(self, rhs: Self) -> (r: Self)
        ensures
            r.0 as int == sat_i64(self.0 * rhs.0),
    {
        match self.0.checked_mul(rhs.0) {
            Some(v) => HackForSoundness(v),
            None => {
                proof {
                    let p = self.0 as int * rhs.0 as int;
                    if (self.0 < 0) != (rhs.0 < 0) {
                        assert(p <= 0) by (nonlinear_arith)
                            requires
                                p == self.0 as int * rhs.0 as int,
                                ((self.0 as int) < 0 && (rhs.0 as int) >= 0) || ((
                                self.0 as int) >= 0 && (rhs.0 as int) < 0);
                    } else {
                        assert(p >= 0) by (nonlinear_arith)
                            requires
                                p == self.0 as int * rhs.0 as int,
                                ((self.0 as int) < 0 && (rhs.0 as int) < 0) || ((
                                self.0 as int) >= 0 && (rhs.0 as int) >= 0);
                    }
                }
                if (self.0 < 0) != (rhs.0 < 0) {
                    HackForSoundness(i64::MIN)
                } else {
                    HackForSoundness(i64::MAX)
                }
            },
        }
    }

    /// Division truncated toward zero, defined on every nonzero divisor:
    /// the one overflowing pair wraps to the smallest value.
    pub fn div(self, rhs: Self) -> (r: Self)
        requires
            rhs.0 != 0,
        ensures
            r.0 as int == (if self.0 == i64::MIN && rhs.0 == -1 {
                i64::MIN as int
            } else {
                trunc_div(self.0 as int, rhs.0 as int)
            }),
    {
        proof {
            crate::duration::lemma_trunc_div_formula(self.0 as int, rhs.0 as int);
            if !(self.0 == i64::MIN && rhs.0 == -1) {
                lemma_trunc_div_range(self.0 as int, rhs.0 as int);
            }
        }
        match self.0.checked_div(rhs.0) {
            Some(v) => HackForSoundness(v),
            None => HackForSoundness(i64::MIN),
        }
    }
}

/// The tick count obtained by scaling a whole-second count and a
/// sub-second count each by its rate and adding the parts, all with
/// saturating arithmetic.
pub open spec fn combined_ticks(sec: int, nsec: int, sn: int, sd: int, nn: int, nd: int) -> int
    recommends
        sd > 0,
        nd > 0,
{
    sat_i64(trunc_div(sat_i64(sec * sn), sd) + trunc_div(sat_i64(nsec * nn), nd))
}

/// The computing half of a clock query: combines the whole-second and
/// sub-second counts read from the host into one tick count at the
/// clock's period. `sec_scale` is ticks per second; `nsec_scale` is ticks
/// per nanosecond. Saturating arithmetic keeps the result defined on
/// every input, so a caller can promise a query that cannot fail.
pub fn combine_ticks(tv_sec: i64, tv_nsec: i64, sec_scale: Ratio, nsec_scale: Ratio) -> (r: i64)
    requires
        sec_scale.wf(),
        nsec_scale.wf(),
    ensures
        r as int == combined_ticks(
            tv_sec as int,
            tv_nsec as int,
            sec_scale.num_int(),
            sec_scale.den_int(),
            nsec_scale.num_int(),
            nsec_scale.den_int(),
        ),
{
    let a = HackForSoundness(tv_sec).mul(HackForSoundness(sec_scale.numerator()));
    let b = a.div(HackForSoundness(sec_scale.denominator()));
    let c = HackForSoundness(tv_nsec).mul(HackForSoundness(nsec_scale.numerator()));
    let e = c.div(HackForSoundness(nsec_scale.denominator()));
    b.add(e).0
}

/// The two tick scales of a period of `num()/den()` seconds per tick, as
/// the host-reading combination uses them: the reciprocal of the period,
/// `den()/num()` ticks per second, and `den()/(num() * 10^9)` ticks per
/// nanosecond, each kept in lowest terms by the period algebra. Both
/// equalities are exact cross-multiplied rational identities, so no
/// rounding hides inside the scales themselves.
pub proof fn lemma_tick_scales<P: Period>()
    ensures
        <Reciprocal<P> as Period>::num() * P::num() == P::den() * <Reciprocal<
            P,
        > as Period>::den(),
        <Reciprocal<P> as Period>::den() > 0,
        <RatioMultiply<Reciprocal<P>, Nano> as Period>::num() * (P::num() * 1000000000)
            == P::den() * <RatioMultiply<Reciprocal<P>, Nano> as Period>::den(),
        <RatioMultiply<Reciprocal<P>, Nano> as Period>::den() > 0,
{
    P::properties();
    <Reciprocal<P> as Period>::properties();
    <RatioMultiply<Reciprocal<P>, Nano> as Period>::properties();
    lemma_multiply_exact::<Reciprocal<P>, Nano>();
    let pn = P::num();
    let pd = P::den();
    let rn = <Reciprocal<P> as Period>::num();
    let rd = <Reciprocal<P> as Period>::den();
    let tn = <RatioMultiply<Reciprocal<P>, Nano> as Period>::num();
    let td = <RatioMultiply<Reciprocal<P>, Nano> as Period>::den();
    assert(tn * (rd * 1000000000) == (rn * 1) * td);
    if pn < 0 {
        assert(rn == -pd && rd == -pn);
        assert(rn * pn == pd * rd) by (nonlinear_arith)
            requires rn == -pd, rd == -pn;
        assert(tn * (pn * 1000000000) == pd * td) by (nonlinear_arith)
            requires tn * (rd * 1000000000) == (rn * 1) * td, rn == -pd, rd == -pn;
    } else {
        assert(rn == pd && rd == pn);
        assert(tn * (pn * 1000000000) == pd * td) by (nonlinear_arith)
            requires tn * (rd * 1000000000) == (rn * 1) * td, rn == pd, rd == pn;
    }
}

/// The computing half of a clock query, fixed to a period tag: combines
/// the whole-second and sub-second counts read from the host into one
/// tick count at the period `P`, scaling seconds by the reciprocal of the
/// period (ticks per second) and nanoseconds by that reciprocal times a
/// nanosecond (ticks per nanosecond), with saturating arithmetic
/// throughout. `lemma_tick_scales` states what the two scales are as
/// rationals of `P`'s own numerator and denominator.
pub fn ticks_from_timespec<P: Period>(tv_sec: i64, tv_nsec: i64) -> (r: i64)
    requires
        <Reciprocal<P> as Period>::in_range(),
        <RatioMultiply<Reciprocal<P>, Nano> as Period>::in_range(),
    ensures
        r as int == combined_ticks(
            tv_sec as int,
            tv_nsec as int,
            <Reciprocal<P> as Period>::num(),
            <Reciprocal<P> as Period>::den(),
            <RatioMultiply<Reciprocal<P>, Nano> as Period>::num(),
            <RatioMultiply<Reciprocal<P>, Nano> as Period>::den(),
        ),
{
    let sec_scale = <Reciprocal<P> as Period>::ratio();
    let nsec_scale = <RatioMultiply<Reciprocal<P>, Nano> as Period>::ratio();
    combine_ticks(tv_sec, tv_nsec, sec_scale, nsec_scale)
}

/// The wall-time clock of the host: instants are milliseconds since the
/// Unix epoch. The host binding that reads the time stands outside the
/// verified core, which is why no `Clock` implementation appears here: a
/// program implements `Clock` for its own binding type and computes the
/// tick count with `ticks_from_timespec`.
pub struct SystemClock;

/// The monotonic clock of the host: instants are nanoseconds from an
/// arbitrary origin, never decreasing. Bound outside the verified core in
/// the same way as [`SystemClock`].
pub struct SteadyClock;

/// The ordering that the `Monotonic` contract promises, for a tick
/// sequence of fixed nonnegative spacing: a later query never sees a
/// smaller value.
pub proof fn lemma_monotonic_ticks(start: int, step: int, i: nat, j: nat)
    requires
        step >= 0,
        i <= j,
    ensures
        start + i * step <= start + j * step,
{
    assert(i * step <= j * step) by (nonlinear_arith)
        requires
            step >= 0,
            0 <= i <= j;
}

} // verus!
