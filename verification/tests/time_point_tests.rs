use tick_units::clock::{Clock, ClockTimeConversion, Monotonic, TrivialClock};
use tick_units::duration::{Duration, RangeError};
use tick_units::ratio::{Mili, Unit};
use tick_units::time_point::{time_point_cast, TimePoint};

/// A deterministic clock tag for these tests; its `now` is fixed.
#[derive(Debug)]
struct FakeTag;

impl Clock for FakeTag {
    type Period = Mili;
    type Repr = i64;
    type Duration = Duration<i64, Mili>;

    fn now() -> TimePoint<Self, Self::Duration> {
        TimePoint::new(Duration::new(0))
    }
}

impl TrivialClock for FakeTag {}

impl Monotonic for FakeTag {}

/// A second clock tag, for checking that conversion keeps the value.
struct OtherTag;

impl Clock for OtherTag {
    type Period = Mili;
    type Repr = i64;
    type Duration = Duration<i64, Mili>;

    fn now() -> TimePoint<Self, Self::Duration> {
        TimePoint::new(Duration::new(0))
    }
}

/// A deterministic test double: successive `now` calls return values with
/// a fixed, nonnegative spacing.
struct FakeClock {
    next: i64,
    step: i64,
}

impl FakeClock {
    fn now(&mut self) -> TimePoint<FakeTag, Duration<i64, Mili>> {
        let t = TimePoint::new(Duration::new(self.next));
        self.next += self.step;
        t
    }
}

#[test]
fn time_point_new_and_into_inner_round_trip() {
    let d: Duration<i64, Mili> = Duration::new(77);
    let tp: TimePoint<FakeTag, Duration<i64, Mili>> = TimePoint::new(d);
    assert_eq!(tp.into_inner(), d);
}

#[test]
fn epoch_and_extremes_come_from_the_representation() {
    let e: TimePoint<FakeTag, Duration<i64, Mili>> = TimePoint::epoch();
    assert_eq!(e.into_inner().into_inner(), 0);
    let lo: TimePoint<FakeTag, Duration<i64, Mili>> = TimePoint::min_value();
    assert_eq!(lo.into_inner().into_inner(), i64::MIN);
    let hi: TimePoint<FakeTag, Duration<i64, Mili>> = TimePoint::max_value();
    assert_eq!(hi.into_inner().into_inner(), i64::MAX);
}

#[test]
fn shifting_by_a_duration_moves_the_instant() {
    let tp: TimePoint<FakeTag, Duration<i64, Mili>> = TimePoint::new(Duration::new(100));
    let step: Duration<i64, Mili> = Duration::new(42);
    assert_eq!(tp.add(step).into_inner().into_inner(), 142);
    assert_eq!(tp.sub(step).into_inner().into_inner(), 58);
}

#[test]
fn comparisons_require_the_same_clock_and_order_by_value() {
    let a: TimePoint<FakeTag, Duration<i64, Mili>> = TimePoint::new(Duration::new(1));
    let b: TimePoint<FakeTag, Duration<i64, Mili>> = TimePoint::new(Duration::new(2));
    assert!(a < b);
    assert!(a == a);
    assert!(a != b);
}

#[test]
fn widening_and_narrowing_keep_the_value() {
    let tp: TimePoint<FakeTag, Duration<i32, Mili>> = TimePoint::new(Duration::new(-5));
    let wide: TimePoint<FakeTag, Duration<i64, Mili>> = tp.into();
    assert_eq!(wide.into_inner().into_inner(), -5);
    let narrow: Result<TimePoint<FakeTag, Duration<i8, Mili>>, RangeError> = wide.try_into();
    assert_eq!(narrow.unwrap().into_inner().into_inner(), -5);
    let big: TimePoint<FakeTag, Duration<i64, Mili>> = TimePoint::new(Duration::new(1000));
    let narrow: Result<TimePoint<FakeTag, Duration<i8, Mili>>, RangeError> = big.try_into();
    assert_eq!(narrow, Err(RangeError));
}

#[test]
fn casting_rescales_the_instant() {
    let ms: TimePoint<FakeTag, Duration<i64, Mili>> = TimePoint::new(Duration::new(1000));
    let s: TimePoint<FakeTag, Duration<i64, Unit>> = time_point_cast(ms).unwrap();
    assert_eq!(s.into_inner().into_inner(), 1);
    let back: TimePoint<FakeTag, Duration<i64, Mili>> = time_point_cast(s).unwrap();
    assert_eq!(back.into_inner().into_inner(), 1000);
}

#[test]
fn conversion_to_the_same_clock_is_the_identity() {
    let tp: TimePoint<FakeTag, Duration<i64, Mili>> = TimePoint::new(Duration::new(9));
    let same = <FakeTag as ClockTimeConversion<FakeTag>>::into_other(tp);
    assert_eq!(same.into_inner().into_inner(), 9);
}

#[test]
fn fake_clock_queries_never_decrease() {
    // two sequential queries t1, t2 with t1 completed before t2 began
    // always satisfy t1 <= t2.
    let mut clock = FakeClock { next: -3, step: 7 };
    let mut previous = clock.now();
    for _ in 0..10 {
        let next = clock.now();
        assert!(previous <= next);
        previous = next;
    }
    // a zero spacing is still non-decreasing.
    let mut flat = FakeClock { next: 5, step: 0 };
    let t1 = flat.now();
    let t2 = flat.now();
    assert!(t1 <= t2);
}

#[test]
fn trait_now_is_usable_through_the_clock_contract() {
    let t = <FakeTag as Clock>::now();
    assert_eq!(t.into_inner().into_inner(), 0);
    let o = <OtherTag as Clock>::now();
    assert_eq!(o.into_inner().into_inner(), 0);
}
