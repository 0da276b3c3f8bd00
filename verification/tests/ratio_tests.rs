use tick_units::ratio::{
    gcd, gcd128, ratio_divide, ratio_multiply, signum, Kilo, Mega, Micro, Mili, Nano, Period,
    Ratio, RatioDivide, RatioMultiply, Reciprocal, Tera, Unit,
};

#[test]
fn gcd_of_plain_pairs() {
    assert_eq!(gcd(12, 18), 6);
    assert_eq!(gcd(18, 12), 6);
    assert_eq!(gcd(7, 13), 1);
    assert_eq!(gcd(0, 5), 5);
    assert_eq!(gcd(5, 0), 5);
    assert_eq!(gcd(0, 0), 0);
    assert_eq!(gcd(-12, 18), 6);
    assert_eq!(gcd(12, -18), 6);
    assert_eq!(gcd(-12, -18), 6);
}

#[test]
fn gcd128_of_plain_pairs() {
    assert_eq!(gcd128(1_000_000_000_000, 1_000_000), 1_000_000);
    assert_eq!(gcd128(-4, 6), 2);
    assert_eq!(gcd128(0, 0), 0);
}

#[test]
fn signum_of_each_sign() {
    assert_eq!(signum(-7), -1);
    assert_eq!(signum(0), 0);
    assert_eq!(signum(42), 1);
}

#[test]
fn reduction_normalizes_sign_into_numerator() {
    // A ratio built from (6, -3) reduces to (-2, 1).
    let q = Ratio::new(6, -3).unwrap();
    assert_eq!(q.numerator(), -2);
    assert_eq!(q.denominator(), 1);
}

#[test]
fn reduction_divides_by_the_gcd() {
    let q = Ratio::new(4, 8).unwrap();
    assert_eq!(q.numerator(), 1);
    assert_eq!(q.denominator(), 2);
    let q = Ratio::new(-10, 4).unwrap();
    assert_eq!(q.numerator(), -5);
    assert_eq!(q.denominator(), 2);
    let q = Ratio::new(0, 5).unwrap();
    assert_eq!(q.numerator(), 0);
    assert_eq!(q.denominator(), 1);
}

#[test]
fn zero_denominator_is_rejected() {
    assert!(Ratio::new(1, 0).is_none());
    assert!(Ratio::new(0, 0).is_none());
}

#[test]
fn multiply_is_exact() {
    // 1/1000 times 1/1000 is exactly 1/1000000.
    let mili = Ratio::new(1, 1000).unwrap();
    let product = mili.mul(mili).unwrap();
    assert_eq!(product.numerator(), 1);
    assert_eq!(product.denominator(), 1_000_000);
}

#[test]
fn divide_inverts_multiply() {
    let mili = Ratio::new(1, 1000).unwrap();
    let product = mili.mul(mili).unwrap();
    let back = product.div(mili).unwrap();
    assert_eq!(back.numerator(), 1);
    assert_eq!(back.denominator(), 1000);
}

#[test]
fn reciprocal_swaps_and_keeps_the_sign_in_the_numerator() {
    let q = Ratio::new(-2, 3).unwrap();
    let r = q.recip().unwrap();
    assert_eq!(r.numerator(), -3);
    assert_eq!(r.denominator(), 2);
    let zero = Ratio::new(0, 3).unwrap();
    assert!(zero.recip().is_none());
}

#[test]
fn raw_tuple_multiply_reduces() {
    assert_eq!(ratio_multiply((1, 1000), (1, 1000)), (1, 1_000_000));
    assert_eq!(ratio_multiply((2, 4), (2, 4)), (1, 4));
    assert_eq!(ratio_multiply((6, -3), (1, 1)), (-2, 1));
}

#[test]
fn raw_tuple_divide_reduces() {
    assert_eq!(ratio_divide((1, 1_000_000), (1, 1000)), (1, 1000));
    assert_eq!(ratio_divide((3, 4), (3, 4)), (1, 1));
}

#[test]
fn period_tags_expose_their_ratio() {
    assert_eq!(<Unit as Period>::ratio().numerator(), 1);
    assert_eq!(<Unit as Period>::ratio().denominator(), 1);
    assert_eq!(<Mili as Period>::ratio().denominator(), 1000);
    assert_eq!(<Micro as Period>::ratio().denominator(), 1_000_000);
    assert_eq!(<Nano as Period>::ratio().denominator(), 1_000_000_000);
    assert_eq!(<Kilo as Period>::ratio().numerator(), 1000);
    assert_eq!(<Mega as Period>::ratio().numerator(), 1_000_000);
    assert_eq!(<Tera as Period>::ratio().numerator(), 1_000_000_000_000);
}

#[test]
fn composed_period_tags_reduce_like_their_ratios() {
    // Mili times Mili is exactly Micro.
    let r = <RatioMultiply<Mili, Mili> as Period>::ratio();
    assert_eq!(r.numerator(), 1);
    assert_eq!(r.denominator(), 1_000_000);
    // and dividing the product by Mili returns Mili.
    let q = <RatioDivide<RatioMultiply<Mili, Mili>, Mili> as Period>::ratio();
    assert_eq!(q.numerator(), 1);
    assert_eq!(q.denominator(), 1000);
    // Kilo divided by Mili spans six orders of magnitude.
    let s = <RatioDivide<Kilo, Mili> as Period>::ratio();
    assert_eq!(s.numerator(), 1_000_000);
    assert_eq!(s.denominator(), 1);
    // the reciprocal swaps numerator and denominator.
    let t = <Reciprocal<Mili> as Period>::ratio();
    assert_eq!(t.numerator(), 1000);
    assert_eq!(t.denominator(), 1);
}
