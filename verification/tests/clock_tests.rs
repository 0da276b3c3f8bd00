use tick_units::clock::{combine_ticks, ticks_from_timespec, HackForSoundness};
use tick_units::ratio::{Mili, Nano, Ratio, Unit};

#[test]
fn conversions_wrap_and_unwrap_the_word() {
    let h = HackForSoundness::from(42);
    assert_eq!(h.0, 42);
    assert_eq!(i64::from(h), 42);
}

#[test]
fn addition_saturates_at_both_ends() {
    assert_eq!(HackForSoundness(40).add(HackForSoundness(2)).0, 42);
    assert_eq!(HackForSoundness(i64::MAX).add(HackForSoundness(1)).0, i64::MAX);
    assert_eq!(HackForSoundness(i64::MIN).add(HackForSoundness(-1)).0, i64::MIN);
}

#[test]
fn multiplication_saturates_at_both_ends() {
    assert_eq!(HackForSoundness(6).mul(HackForSoundness(7)).0, 42);
    assert_eq!(
        HackForSoundness(i64::MAX).mul(HackForSoundness(2)).0,
        i64::MAX
    );
    assert_eq!(
        HackForSoundness(i64::MAX).mul(HackForSoundness(-2)).0,
        i64::MIN
    );
    assert_eq!(
        HackForSoundness(i64::MIN).mul(HackForSoundness(-1)).0,
        i64::MAX
    );
}

#[test]
fn division_is_defined_on_every_nonzero_divisor() {
    assert_eq!(HackForSoundness(42).div(HackForSoundness(5)).0, 8);
    assert_eq!(HackForSoundness(-42).div(HackForSoundness(5)).0, -8);
    // the one overflowing pair wraps instead of panicking.
    assert_eq!(
        HackForSoundness(i64::MIN).div(HackForSoundness(-1)).0,
        i64::MIN
    );
}

#[test]
fn combine_ticks_scales_and_adds_both_parts() {
    // 1 second and 500 000 000 nanoseconds at a millisecond period:
    // 1 * 1000 + 500000000 / 1000000 milliseconds.
    let per_second = Ratio::new(1000, 1).unwrap();
    let per_nano = Ratio::new(1, 1_000_000).unwrap();
    assert_eq!(combine_ticks(1, 500_000_000, per_second, per_nano), 1500);
    assert_eq!(combine_ticks(0, 999_999, per_second, per_nano), 0);
    assert_eq!(combine_ticks(-2, 0, per_second, per_nano), -2000);
}

#[test]
fn combine_ticks_saturates_instead_of_overflowing() {
    let per_second = Ratio::new(1000, 1).unwrap();
    let per_nano = Ratio::new(1, 1_000_000).unwrap();
    let r = combine_ticks(i64::MAX, 999_999_999, per_second, per_nano);
    assert_eq!(r, i64::MAX);
    let r = combine_ticks(i64::MIN, 0, per_second, per_nano);
    assert_eq!(r, i64::MIN);
}

#[test]
fn timespec_becomes_millisecond_ticks() {
    // 1 second and 500 000 000 nanoseconds are 1500 milliseconds.
    assert_eq!(ticks_from_timespec::<Mili>(1, 500_000_000), 1500);
    assert_eq!(ticks_from_timespec::<Mili>(0, 999_999), 0);
    assert_eq!(ticks_from_timespec::<Mili>(-2, 0), -2000);
}

#[test]
fn timespec_becomes_nanosecond_ticks() {
    assert_eq!(
        ticks_from_timespec::<Nano>(1, 500_000_000),
        1_500_000_000
    );
    assert_eq!(ticks_from_timespec::<Nano>(0, 7), 7);
}

#[test]
fn timespec_becomes_whole_seconds() {
    // at a one-second period the sub-second part truncates away.
    assert_eq!(ticks_from_timespec::<Unit>(5, 999_999_999), 5);
}

#[test]
fn timespec_combination_saturates() {
    assert_eq!(ticks_from_timespec::<Mili>(i64::MAX, 0), i64::MAX);
    assert_eq!(ticks_from_timespec::<Mili>(i64::MIN, 0), i64::MIN);
}
