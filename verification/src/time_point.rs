//! Instants: durations tagged with the identity of the clock that measured
//! them. Arithmetic and comparison are restricted to instants of the same
//! clock; crossing clock frames takes an explicit conversion.

use core::cmp::Ordering;
use core::marker::PhantomData;
use vstd::prelude::*;
use crate::clock::Clock;
use crate::duration::{
    Duration, DurationCast, DurationInto, DurationTryInto, DurationValues, IsDuration,
    RangeError, ReprNarrow, ReprWiden,
};
use crate::ratio::Period;

verus! {

/// An instant: a duration since the clock's epoch, tagged with the clock's
/// identity. The tag never affects the stored value; it only keeps two
/// clocks' instants from interoperating.
#[derive(Debug, Hash)]
#[verifier::reject_recursive_types(C)]
pub struct TimePoint<C, D> {
    value: D,
    clock: PhantomData<C>,
}

impl<C, D: Copy> Clone for TimePoint<C, D> {
    fn clone(&self) -> (r: Self)
        ensures
            r == *self,
    {
        *self
    }
}

impl<C, D: Copy> Copy for TimePoint<C, D> {

}

impl<C, D> TimePoint<C, D> {
    /// The duration since the clock's epoch.
    pub closed spec fn dur(self) -> D {
        self.value
    }

    /// Wraps a duration since the epoch; any duration is a legal instant.
    pub fn new(value: D) -> (t: Self)
        ensures
            t.dur() == value,
    {
        TimePoint { value, clock: PhantomData }
    }

    /// Unwraps the duration since the epoch, losslessly.
    pub fn into_inner(self) -> (d: D)
        ensures
            d == self.dur(),
    {
        self.value
    }
}

impl<C, R: DurationValues, P: Period> TimePoint<C, Duration<R, P>> {
    /// The instant's value, as an unbounded integer.
    pub open spec fn val(self) -> int {
        self.dur().val()
    }

    /// The clock's epoch: the instant at the zero duration.
    pub fn epoch() -> (t: Self)
        ensures
            t.val() == 0,
    {
        TimePoint { value: Duration::zero(), clock: PhantomData }
    }

    /// The earliest representable instant of this clock.
    pub fn min_value() -> (t: Self)
        ensures
            t.val() == R::min_int(),
    {
        TimePoint { value: Duration::min_value(), clock: PhantomData }
    }

    /// The latest representable instant of this clock.
    pub fn max_value() -> (t: Self)
        ensures
            t.val() == R::max_int(),
    {
        TimePoint { value: Duration::max_value(), clock: PhantomData }
    }
}

impl<C: Clock, R: DurationValues, P: Period> TimePoint<C, Duration<R, P>> {
    /// Moves the instant forward by a duration of the same period; the sum
    /// must be representable.
    pub fn add(self, rhs: Duration<R, P>) -> (t: Self)
        requires
            R::min_int() <= self.val() + rhs.val() <= R::max_int(),
        ensures
            t.val() == self.val() + rhs.val(),
    {
        TimePoint { value: self.value.add(rhs), clock: PhantomData }
    }

    /// Moves the instant backward by a duration of the same period; the
    /// difference must be representable.
    pub fn sub(self, rhs: Duration<R, P>) -> (t: Self)
        requires
            R::min_int() <= self.val() - rhs.val() <= R::max_int(),
        ensures
            t.val() == self.val() - rhs.val(),
    {
        TimePoint { value: self.value.sub(rhs), clock: PhantomData }
    }

    /// The same instant in a wider representation; always exact.
    pub fn into<R2: DurationValues>(self) -> (t: TimePoint<C, Duration<R2, P>>) where
        R: ReprWiden<R2>
        ensures
            t.val() == self.val(),
    {
        TimePoint { value: DurationInto::<R2>::into(self.value), clock: PhantomData }
    }

    /// The same instant in a narrower representation, when the value fits;
    /// a range error otherwise.
    pub fn try_into<R2: DurationValues>(self) -> (r: Result<
        TimePoint<C, Duration<R2, P>>,
        RangeError,
    >) where R: ReprNarrow<R2>
        ensures
            r is Ok <==> R2::min_int() <= self.val() <= R2::max_int(),
            r matches Ok(t) ==> t.val() == self.val(),
    {
        match DurationTryInto::<R2>::try_into(self.value) {
            Ok(v) => Ok(TimePoint { value: v, clock: PhantomData }),
            Err(e) => Err(e),
        }
    }
}

/// Converts an instant to another period by rescaling its duration with
/// the exact ratio of the two periods; the clock tag is unchanged. Fails
/// with a range error exactly when the rescaled value is not
/// representable.
pub fn time_point_cast<D1: DurationCast<D2>, D2: IsDuration, C: Clock>(
    tp: TimePoint<C, D1>,
) -> (r: Result<TimePoint<C, D2>, <D1 as DurationCast<D2>>::Error>)
    requires
        tp.dur().cast_pre(),
    ensures
        r is Ok <==> tp.dur().cast_fits(),
        r matches Ok(t) ==> t.dur().dur_val() == tp.dur().cast_val(),
{
    match tp.value.duration_cast() {
        Ok(v) => Ok(TimePoint { value: v, clock: PhantomData }),
        Err(e) => Err(e),
    }
}

impl<C: Clock, D: DurationValues> PartialEq for TimePoint<C, D> {
    fn eq(&self, other: &Self) -> (r: bool) {
        self.value.eq_value(other.value)
    }
}

impl<C: Clock, D: DurationValues> vstd::std_specs::cmp::PartialEqSpecImpl for TimePoint<C, D> {
    open spec fn obeys_eq_spec() -> bool {
        true
    }

    open spec fn eq_spec(&self, other: &Self) -> bool {
        self.dur().as_int() == other.dur().as_int()
    }
}

impl<C: Clock, D: DurationValues> Eq for TimePoint<C, D> {

}

impl<C: Clock, D: DurationValues> PartialOrd for TimePoint<C, D> {
    fn partial_cmp(&self, other: &Self) -> (r: Option<Ordering>) {
        if self.value.lt_value(other.value) {
            Some(Ordering::Less)
        } else if self.value.eq_value(other.value) {
            Some(Ordering::Equal)
        } else {
            Some(Ordering::Greater)
        }
    }
}

impl<C: Clock, D: DurationValues> vstd::std_specs::cmp::PartialOrdSpecImpl for TimePoint<C, D> {
    open spec fn obeys_partial_cmp_spec() -> bool {
        true
    }

    open spec fn partial_cmp_spec(&self, other: &Self) -> Option<Ordering> {
        if self.dur().as_int() < other.dur().as_int() {
            Some(Ordering::Less)
        } else if self.dur().as_int() == other.dur().as_int() {
            Some(Ordering::Equal)
        } else {
            Some(Ordering::Greater)
        }
    }
}

} // verus!
