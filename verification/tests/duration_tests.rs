use tick_units::duration::{
    Days, Duration, DurationCast, DurationInto, DurationTryInto, DurationValues, Hours,
    IsDuration, Miliseconds, Minutes, RangeError, Seconds, Years,
};
use tick_units::ratio::{Mili, Unit};

#[test]
fn new_and_into_inner_round_trip() {
    let d: Duration<i64, Mili> = Duration::new(1500);
    assert_eq!(d.into_inner(), 1500);
    let d: Duration<i8, Unit> = Duration::new(-7);
    assert_eq!(d.into_inner(), -7);
}

#[test]
fn zero_is_the_additive_identity() {
    // ZERO + d == d and d - d == ZERO, for a few representable durations.
    for v in [0i64, 1, -1, 1500, i64::MAX, i64::MIN] {
        let d: Duration<i64, Mili> = Duration::new(v);
        let z: Duration<i64, Mili> = Duration::zero();
        assert_eq!(z.add(d), d);
        assert_eq!(d.sub(d), z);
    }
}

#[test]
fn default_is_the_zero_duration() {
    let d: Duration<i64, Mili> = Duration::default();
    assert_eq!(d.into_inner(), 0);
}

#[test]
fn constants_come_from_the_representation() {
    let z: Duration<i8, Unit> = Duration::zero();
    assert_eq!(z.into_inner(), 0);
    let lo: Duration<i8, Unit> = Duration::min_value();
    assert_eq!(lo.into_inner(), -128);
    let hi: Duration<i8, Unit> = Duration::max_value();
    assert_eq!(hi.into_inner(), 127);
}

#[test]
fn same_period_arithmetic_forwards_to_the_representation() {
    let a: Duration<i64, Mili> = Duration::new(40);
    let b: Duration<i64, Mili> = Duration::new(2);
    assert_eq!(a.add(b).into_inner(), 42);
    assert_eq!(a.sub(b).into_inner(), 38);
}

#[test]
fn scalar_arithmetic_keeps_the_period() {
    let a: Duration<i64, Mili> = Duration::new(40);
    assert_eq!(a.mul(3).into_inner(), 120);
    assert_eq!(a.div(7).into_inner(), 5);
    assert_eq!(a.rem(7).into_inner(), 5);
    let n: Duration<i64, Mili> = Duration::new(-40);
    // machine division truncates toward zero
    assert_eq!(n.div(7).into_inner(), -5);
    assert_eq!(n.rem(7).into_inner(), -5);
}

#[test]
fn comparisons_order_by_value() {
    let a: Duration<i64, Mili> = Duration::new(1);
    let b: Duration<i64, Mili> = Duration::new(2);
    assert!(a < b);
    assert!(a <= b);
    assert!(b > a);
    assert!(a == a);
    assert!(a != b);
}

#[test]
fn widening_into_preserves_the_value() {
    let d: Duration<i32, Mili> = Duration::new(-123456);
    let w: Duration<i64, Mili> = DurationInto::<i64>::into(d);
    assert_eq!(w.into_inner(), -123456);
    let d: Duration<u8, Unit> = Duration::new(255);
    let w: Duration<i128, Unit> = DurationInto::<i128>::into(d);
    assert_eq!(w.into_inner(), 255);
}

#[test]
fn narrowing_try_into_checks_the_range() {
    let fits: Duration<i64, Mili> = Duration::new(127);
    let ok: Result<Duration<i8, Mili>, RangeError> = DurationTryInto::<i8>::try_into(fits);
    assert_eq!(ok.unwrap().into_inner(), 127);
    let too_big: Duration<i64, Mili> = Duration::new(128);
    let err: Result<Duration<i8, Mili>, RangeError> = DurationTryInto::<i8>::try_into(too_big);
    assert_eq!(err, Err(RangeError));
    let negative: Duration<i64, Mili> = Duration::new(-1);
    let err: Result<Duration<u8, Mili>, RangeError> = DurationTryInto::<u8>::try_into(negative);
    assert_eq!(err, Err(RangeError));
}

#[test]
fn cast_round_trip_between_milliseconds_and_seconds() {
    // 1000 milliseconds are exactly 1 second, and back.
    let ms: Miliseconds = Duration::new(1000);
    let s: Seconds = ms.duration_cast().unwrap();
    assert_eq!(s.into_inner(), 1);
    let back: Miliseconds = s.duration_cast().unwrap();
    assert_eq!(back.into_inner(), 1000);
}

#[test]
fn cast_truncates_toward_zero() {
    let ms: Miliseconds = Duration::new(1999);
    let s: Seconds = ms.duration_cast().unwrap();
    assert_eq!(s.into_inner(), 1);
    let ms: Miliseconds = Duration::new(-1999);
    let s: Seconds = ms.duration_cast().unwrap();
    assert_eq!(s.into_inner(), -1);
}

#[test]
fn cast_overflow_is_a_range_error() {
    // 100 seconds in an 8-bit representation cannot become milliseconds:
    // 100000 exceeds the 8-bit range.
    let s: Duration<i8, Unit> = Duration::new(100);
    let r: Result<Duration<i8, Mili>, RangeError> = s.duration_cast();
    assert_eq!(r, Err(RangeError));
    // it fits once the representation is wide enough.
    let s: Duration<i8, Unit> = Duration::new(100);
    let r: Result<Duration<i64, Mili>, RangeError> = s.duration_cast();
    assert_eq!(r.unwrap().into_inner(), 100_000);
}

#[test]
fn as_duration_is_the_identity_on_durations() {
    let d: Duration<i64, Mili> = Duration::new(5);
    assert_eq!(d.as_duration(), d);
}

#[test]
fn duration_values_lift_through_the_duration() {
    let z: Duration<i64, Mili> = DurationValues::zero();
    assert_eq!(z.into_inner(), 0);
    let a: Duration<i64, Mili> = Duration::new(6);
    let b: Duration<i64, Mili> = Duration::new(4);
    assert_eq!(a.add_value(b).into_inner(), 10);
    assert_eq!(a.mul_value(b).into_inner(), 24);
    assert!(b.lt_value(a));
}

#[test]
fn calendar_periods_cast_exactly() {
    let d: Days = Duration::new(1);
    let h: Hours = d.duration_cast().unwrap();
    assert_eq!(h.into_inner(), 24);
    let m: Minutes = Duration::new(2);
    let s: Seconds = m.duration_cast().unwrap();
    assert_eq!(s.into_inner(), 120);
    let y: Years = Duration::new(1);
    let s: Seconds = y.duration_cast().unwrap();
    assert_eq!(s.into_inner(), 31_556_952);
}
