//! Compile-time rational numbers used as unit tags for durations.
//!
//! A period is a rational number of seconds per tick, always kept in lowest
//! terms with a positive denominator and the sign carried by the numerator.

use core::marker::PhantomData;
use vstd::prelude::*;
use vstd::arithmetic::div_mod::{
    lemma_add_mod_noop, lemma_div_multiples_vanish, lemma_fundamental_div_mod,
    lemma_fundamental_div_mod_converse, lemma_mod_multiples_basic, lemma_mod_self_0,
    lemma_small_mod,
};

verus! {

/// The magnitude of an integer, as a natural number.
pub open spec fn abs_nat(x: int) -> nat {
    if x < 0 {
        (-x) as nat
    } else {
        x as nat
    }
}

/// Greatest common divisor, by Euclid's recursion; `gcd_nat(0, 0) == 0`.
pub open spec fn gcd_nat(a: nat, b: nat) -> nat
    decreases b,
{
    if b == 0 {
        a
    } else {
        gcd_nat(b, a % b)
    }
}

/// The gcd divides both of its arguments, and is zero only on `(0, 0)`.
pub proof fn lemma_gcd_divides(a: nat, b: nat)
    ensures
        gcd_nat(a, b) == 0 <==> a == 0 && b == 0,
        gcd_nat(a, b) != 0 ==> a % gcd_nat(a, b) == 0,
        gcd_nat(a, b) != 0 ==> b % gcd_nat(a, b) == 0,
    decreases b,
{
    let g = gcd_nat(a, b) as int;
    if b == 0 {
        if a != 0 {
            lemma_mod_self_0(a as int);
            lemma_small_mod(0, a);
        }
    } else {
        lemma_gcd_divides(b, a % b);
        assert(g != 0);
        lemma_fundamental_div_mod(a as int, b as int);
        let q = a as int / b as int;
        // a == q * b + a % b, and both summands are multiples of g.
        lemma_fundamental_div_mod(b as int, g);
        let kb = b as int / g;
        assert(b == kb * g);
        assert(q * b == (q * kb) * g) by (nonlinear_arith)
            requires b == kb * g;
        lemma_mod_multiples_basic(q * kb, g);
        lemma_add_mod_noop(q * b, (a % b) as int, g);
        lemma_small_mod(0, g as nat);
        assert(a % gcd_nat(a, b) == 0);
    }
}

/// The gcd of two numbers, the second positive, is at least one and at most
/// the second number.
pub proof fn lemma_gcd_bounds(a: nat, b: nat)
    requires
        b > 0,
    ensures
        1 <= gcd_nat(a, b) <= b,
{
    let g = gcd_nat(a, b);
    lemma_gcd_divides(a, b);
    lemma_fundamental_div_mod(b as int, g as int);
    let k = b as int / g as int;
    assert(b == k * g);
    assert(k >= 1) by (nonlinear_arith)
        requires b == k * g, b > 0, g >= 0;
    assert(b >= g) by (nonlinear_arith)
        requires b == k * g, k >= 1, g >= 0;
}

/// The gcd is symmetric in its arguments.
pub proof fn lemma_gcd_commutes(a: nat, b: nat)
    ensures
        gcd_nat(a, b) == gcd_nat(b, a),
{
    if a == 0 && b == 0 {
    } else if b == 0 {
        // gcd_nat(a, 0) == a; gcd_nat(0, a) unfolds to gcd_nat(a, 0 % a) == gcd_nat(a, 0).
        lemma_small_mod(0, a);
    } else if a == 0 {
        lemma_small_mod(0, b);
    } else if a == b {
    } else if a < b {
        // gcd_nat(a, b) unfolds to gcd_nat(b, a % b), and a % b == a.
        lemma_small_mod(a, b);
    } else {
        lemma_small_mod(b, a);
    }
}

/// The gcd of two common multiples scales: `gcd(t*a, t*b) == t * gcd(a, b)`.
pub proof fn lemma_gcd_scale(a: nat, b: nat, t: nat)
    requires
        t > 0,
    ensures
        gcd_nat((t * a) as nat, (t * b) as nat) == t * gcd_nat(a, b),
    decreases b,
{
    if b == 0 {
        assert(t * b == 0);
    } else {
        lemma_fundamental_div_mod(a as int, b as int);
        let q = a as int / b as int;
        let r = a as int % b as int;
        assert(a == q * b + r);
        assert(t * a == q * (t * b) + t * r) by (nonlinear_arith)
            requires a == q * b + r;
        assert(0 <= t * r < t * b) by (nonlinear_arith)
            requires t > 0, 0 <= r < b;
        lemma_fundamental_div_mod_converse(t * a as int, t * b as int, q, t * r);
        assert((t * a) % (t * b) == t * r);
        assert(t * b != 0) by (nonlinear_arith)
            requires t > 0, b > 0;
        assert(gcd_nat((t * a) as nat, (t * b) as nat) == gcd_nat((t * b) as nat, (t * r) as nat));
        lemma_gcd_scale(b, r as nat, t);
    }
}

/// The gcd of the magnitudes of a rational's numerator and denominator.
pub open spec fn gcd_pair(n: int, d: int) -> int {
    gcd_nat(abs_nat(n), abs_nat(d)) as int
}

/// Whether an unbounded integer fits the 64-bit signed machine range.
pub open spec fn fits_i64(x: int) -> bool {
    i64::MIN <= x <= i64::MAX
}

/// The numerator of `n/d` in lowest terms, sign carried by the numerator.
pub open spec fn reduced_num(n: int, d: int) -> int
    recommends
        d != 0,
{
    (if d < 0 {
        -n
    } else {
        n
    }) / gcd_pair(n, d)
}

/// The denominator of `n/d` in lowest terms, always positive.
pub open spec fn reduced_den(n: int, d: int) -> int
    recommends
        d != 0,
{
    (abs_nat(d) as int) / gcd_pair(n, d)
}

/// Reduction is correct: for every pair `(n, d)` with `d != 0`, the reduced
/// pair has a positive denominator, represents exactly the same rational
/// (`n * den' == num' * d`, no rounding), is zero only when `n` is zero, is
/// in lowest terms, and never grows in magnitude.
pub proof fn lemma_reduction(n: int, d: int)
    requires
        d != 0,
    ensures
        reduced_den(n, d) > 0,
        n * reduced_den(n, d) == reduced_num(n, d) * d,
        reduced_num(n, d) == 0 <==> n == 0,
        gcd_nat(abs_nat(reduced_num(n, d)), reduced_den(n, d) as nat) == 1,
        abs_nat(reduced_num(n, d)) <= abs_nat(n),
        reduced_den(n, d) <= abs_nat(d),
        abs_nat(reduced_num(n, d)) == abs_nat(n) as int / gcd_pair(n, d),
        reduced_num(n, d) < 0 <==> ((n < 0) != (d < 0)) && n != 0,
{
    let an = abs_nat(n) as int;
    let ad = abs_nat(d) as int;
    let g = gcd_pair(n, d);
    lemma_gcd_bounds(abs_nat(n), abs_nat(d));
    lemma_gcd_divides(abs_nat(n), abs_nat(d));
    lemma_fundamental_div_mod(an, g);
    lemma_fundamental_div_mod(ad, g);
    let kn = an / g;
    let kd = ad / g;
    assert(an == kn * g);
    assert(ad == kd * g);
    assert(kn >= 0 && kd >= 1) by (nonlinear_arith)
        requires an == kn * g, ad == kd * g, an >= 0, ad > 0, g >= 1;
    let rden = reduced_den(n, d);
    assert(rden == kd);
    let sn = if d < 0 { -n } else { n };
    let rnum = reduced_num(n, d);
    // sn / g is exactly +/- kn, depending on the sign of sn.
    if sn >= 0 {
        assert(sn == an);
        lemma_div_multiples_vanish(kn, g);
        assert(g * kn == kn * g) by (nonlinear_arith);
        assert(rnum == kn);
    } else {
        assert(sn == -an);
        lemma_div_multiples_vanish(-kn, g);
        assert(g * (-kn) == -(kn * g)) by (nonlinear_arith);
        assert(rnum == -kn);
        assert(kn >= 1) by (nonlinear_arith)
            requires an == kn * g, an > 0, kn >= 0;
    }
    assert(abs_nat(rnum) == kn);
    assert(abs_nat(rnum) <= abs_nat(n)) by (nonlinear_arith)
        requires abs_nat(rnum) == kn, an == kn * g, g >= 1, kn >= 0, an == abs_nat(n);
    assert(rden <= abs_nat(d)) by (nonlinear_arith)
        requires rden == kd, ad == kd * g, g >= 1, kd >= 1, ad == abs_nat(d);
    assert(rnum == 0 <==> n == 0) by (nonlinear_arith)
        requires
            an == kn * g,
            g >= 1,
            kn >= 0,
            an == abs_nat(n),
            abs_nat(n) == (if n < 0 { -n } else { n }),
            abs_nat(rnum) == kn,
            abs_nat(rnum) == (if rnum < 0 { -rnum } else { rnum });
    // Exactness: the reduced pair denotes the same rational.
    if d > 0 {
        assert(d == ad);
        if n >= 0 {
            assert(n * rden == rnum * d) by (nonlinear_arith)
                requires n == kn * g, d == kd * g, rnum == kn, rden == kd;
        } else {
            assert(n * rden == rnum * d) by (nonlinear_arith)
                requires n == -(kn * g), d == kd * g, rnum == -kn, rden == kd;
        }
    } else {
        assert(d == -ad);
        if n >= 0 {
            assert(n * rden == rnum * d) by (nonlinear_arith)
                requires n == kn * g, d == -(kd * g), rnum == -kn, rden == kd;
        } else {
            assert(n * rden == rnum * d) by (nonlinear_arith)
                requires n == -(kn * g), d == -(kd * g), rnum == kn, rden == kd;
        }
    }
    // Lowest terms: dividing out the gcd leaves a coprime pair.
    lemma_gcd_scale(kn as nat, kd as nat, g as nat);
    assert(g * kn == an && g * kd == ad) by (nonlinear_arith)
        requires an == kn * g, ad == kd * g;
    let c = gcd_nat(kn as nat, kd as nat);
    assert(gcd_nat(an as nat, ad as nat) == g * c);
    assert(g == g * c);
    assert(c == 1) by (nonlinear_arith)
        requires g as int == g * c, g >= 1, c >= 0;
}

/// Euclid's algorithm on unsigned machine words.
fn gcd_u64(a: u64, b: u64) -> (g: u64)
    ensures
        g == gcd_nat(a as nat, b as nat),
{
    let mut x: u64 = a;
    let mut y: u64 = b;
    while y != 0
        invariant
            gcd_nat(x as nat, y as nat) == gcd_nat(a as nat, b as nat),
        decreases y,
    {
        let t: u64 = x % y;
        x = y;
        y = t;
    }
    x
}

fn gcd_u128(a: u128, b: u128) -> (g: u128)
    ensures
        g == gcd_nat(a as nat, b as nat),
{
    let mut x: u128 = a;
    let mut y: u128 = b;
    while y != 0
        invariant
            gcd_nat(x as nat, y as nat) == gcd_nat(a as nat, b as nat),
        decreases y,
    {
        let t: u128 = x % y;
        x = y;
        y = t;
    }
    x
}

/// The greatest common divisor of the magnitudes of two signed words.
pub fn gcd(a: i64, b: i64) -> (g: i64)
    requires
        a != i64::MIN,
        b != i64::MIN,
    ensures
        g as int == gcd_pair(a as int, b as int),
        g >= 0,
{
    let xa: u64 = (if a < 0 {
        -a
    } else {
        a
    }) as u64;
    let xb: u64 = (if b < 0 {
        -b
    } else {
        b
    }) as u64;
    proof {
        assert(xa as nat == abs_nat(a as int));
        assert(xb as nat == abs_nat(b as int));
        if xb > 0 {
            lemma_gcd_bounds(xa as nat, xb as nat);
        }
    }
    let g: u64 = gcd_u64(xa, xb);
    g as i64
}

/// The greatest common divisor of the magnitudes of two 128-bit words.
pub fn gcd128(a: i128, b: i128) -> (g: i128)
    requires
        a != i128::MIN,
        b != i128::MIN,
    ensures
        g as int == gcd_pair(a as int, b as int),
        g >= 0,
{
    let xa: u128 = (if a < 0 {
        -a
    } else {
        a
    }) as u128;
    let xb: u128 = (if b < 0 {
        -b
    } else {
        b
    }) as u128;
    proof {
        assert(xa as nat == abs_nat(a as int));
        assert(xb as nat == abs_nat(b as int));
        if xb > 0 {
            lemma_gcd_bounds(xa as nat, xb as nat);
        }
    }
    let g: u128 = gcd_u128(xa, xb);
    g as i128
}

/// The sign of a signed word: `-1`, `0` or `1`.
pub fn signum(a: i64) -> (s: i64)
    ensures
        s == (if a < 0 {
            -1int
        } else if a == 0 {
            0int
        } else {
            1int
        }),
{
    if a < 0 {
        -1
    } else if a == 0 {
        0
    } else {
        1
    }
}

/// `gcd(1, b) == 1` for every `b`.
pub proof fn lemma_gcd_one(b: nat)
    ensures
        gcd_nat(1, b) == 1,
        gcd_nat(b, 1) == 1,
{
    reveal_with_fuel(gcd_nat, 4);
    lemma_mod_multiples_basic(b as int, 1);
    if b == 0 {
    } else if b == 1 {
    } else {
        lemma_small_mod(1, b);
    }
}

/// The product of two signed words, in a domain wide enough that it cannot
/// overflow.
fn wide_mul(a: i64, b: i64) -> (r: i128)
    ensures
        r as int == a as int * b as int,
        -0x40000000000000000000000000000000 <= r as int <= 0x40000000000000000000000000000000,
{
    let x: i128 = a as i128;
    let y: i128 = b as i128;
    proof {
        assert(-0x40000000000000000000000000000000 <= x * y
            <= 0x40000000000000000000000000000000) by (nonlinear_arith)
            requires
                -0x8000000000000000 <= x <= 0x7fffffffffffffff,
                -0x8000000000000000 <= y <= 0x7fffffffffffffff;
    }
    x * y
}

/// A rational number in lowest terms with a positive denominator, used as a
/// runtime description of a period.
#[derive(Clone, Copy, PartialEq, Eq, Structural, Debug, Hash)]
pub struct Ratio {
    num: i64,
    den: i64,
}

impl Ratio {
    /// The numerator, as an unbounded integer.
    pub closed spec fn num_int(self) -> int {
        self.num as int
    }

    /// The denominator, as an unbounded integer.
    pub closed spec fn den_int(self) -> int {
        self.den as int
    }

    /// Well-formed: positive denominator, lowest terms.
    pub open spec fn wf(self) -> bool {
        self.den_int() > 0 && gcd_nat(abs_nat(self.num_int()), self.den_int() as nat) == 1
    }

    /// The numerator.
    pub fn numerator(&self) -> (n: i64)
        ensures
            n as int == self.num_int(),
    {
        self.num
    }

    /// The denominator.
    pub fn denominator(&self) -> (d: i64)
        ensures
            d as int == self.den_int(),
    {
        self.den
    }

    /// Builds the rational `num / den` in lowest terms, with the sign moved
    /// to the numerator. Returns `None` when the denominator is zero, or
    /// when the reduced pair does not fit the machine representation.
    pub fn new(num: i64, den: i64) -> (r: Option<Ratio>)
        ensures
            r is Some <==> den != 0 && fits_i64(reduced_num(num as int, den as int)) && fits_i64(
                reduced_den(num as int, den as int),
            ),
            r matches Some(q) ==> q.wf() && q.num_int() == reduced_num(num as int, den as int)
                && q.den_int() == reduced_den(num as int, den as int),
    {
        if den == 0 {
            return None;
        }
        reduce128(num as i128, den as i128)
    }

    /// The exact product of two reduced rationals, reduced again; `None`
    /// when the reduced product does not fit the machine representation.
    pub fn mul(self, other: Ratio) -> (r: Option<Ratio>)
        requires
            self.wf(),
            other.wf(),
        ensures
            r is Some <==> fits_i64(
                reduced_num(
                    self.num_int() * other.num_int(),
                    self.den_int() * other.den_int(),
                ),
            ) && fits_i64(
                reduced_den(
                    self.num_int() * other.num_int(),
                    self.den_int() * other.den_int(),
                ),
            ),
            r matches Some(q) ==> q.wf() && q.num_int() == reduced_num(
                self.num_int() * other.num_int(),
                self.den_int() * other.den_int(),
            ) && q.den_int() == reduced_den(
                self.num_int() * other.num_int(),
                self.den_int() * other.den_int(),
            ),
    {
        let n: i128 = wide_mul(self.num, other.num);
        let d: i128 = wide_mul(self.den, other.den);
        proof {
            assert(d > 0 && n > i128::MIN) by (nonlinear_arith)
                requires
                    n == self.num_int() * other.num_int(),
                    d == self.den_int() * other.den_int(),
                    self.den_int() > 0,
                    other.den_int() > 0,
                    i64::MIN <= self.num_int() <= i64::MAX,
                    i64::MIN <= other.num_int() <= i64::MAX;
        }
        reduce128(n, d)
    }

    /// The exact quotient of two reduced rationals, reduced again; `None`
    /// when the divisor is zero or the reduced quotient does not fit the
    /// machine representation.
    pub fn div(self, other: Ratio) -> (r: Option<Ratio>)
        requires
            self.wf(),
            other.wf(),
        ensures
            r is Some <==> other.num_int() != 0 && fits_i64(
                reduced_num(
                    self.num_int() * other.den_int(),
                    self.den_int() * other.num_int(),
                ),
            ) && fits_i64(
                reduced_den(
                    self.num_int() * other.den_int(),
                    self.den_int() * other.num_int(),
                ),
            ),
            r matches Some(q) ==> q.wf() && q.num_int() == reduced_num(
                self.num_int() * other.den_int(),
                self.den_int() * other.num_int(),
            ) && q.den_int() == reduced_den(
                self.num_int() * other.den_int(),
                self.den_int() * other.num_int(),
            ),
    {
        if other.num == 0 {
            return None;
        }
        let n: i128 = wide_mul(self.num, other.den);
        let d: i128 = wide_mul(self.den, other.num);
        proof {
            assert(d != 0 && n > i128::MIN && d > i128::MIN) by (nonlinear_arith)
                requires
                    n == self.num_int() * other.den_int(),
                    d == self.den_int() * other.num_int(),
                    self.den_int() > 0,
                    other.num_int() != 0,
                    i64::MIN <= self.num_int() <= i64::MAX,
                    i64::MIN <= other.num_int() <= i64::MAX,
                    0 < self.den_int() <= i64::MAX,
                    0 < other.den_int() <= i64::MAX;
        }
        reduce128(n, d)
    }

    /// The reciprocal: numerator and denominator swapped, the sign staying
    /// with the numerator. The input is already reduced, so no reduction is
    /// needed. `None` when the numerator is zero (the reciprocal does not
    /// exist) or its magnitude does not fit.
    pub fn recip(self) -> (r: Option<Ratio>)
        requires
            self.wf(),
        ensures
            r is Some <==> self.num_int() != 0 && self.num_int() != i64::MIN,
            r matches Some(q) ==> q.wf() && q.num_int() == (if self.num_int() < 0 {
                -self.den_int()
            } else {
                self.den_int()
            }) && q.den_int() == abs_nat(self.num_int()),
    {
        if self.num == 0 || self.num == i64::MIN {
            return None;
        }
        let q = if self.num < 0 {
            Ratio { num: -self.den, den: -self.num }
        } else {
            Ratio { num: self.den, den: self.num }
        };
        proof {
            lemma_gcd_commutes(abs_nat(q.num_int()), q.den_int() as nat);
        }
        Some(q)
    }
}

/// Reduces `n / d` into machine words, moving the sign to the numerator.
fn reduce128(n: i128, d: i128) -> (r: Option<Ratio>)
    requires
        d != 0,
        n != i128::MIN,
        d != i128::MIN,
    ensures
        r is Some <==> fits_i64(reduced_num(n as int, d as int)) && fits_i64(
            reduced_den(n as int, d as int),
        ),
        r matches Some(q) ==> q.wf() && q.num_int() == reduced_num(n as int, d as int)
            && q.den_int() == reduced_den(n as int, d as int),
{
    let neg: bool = (n < 0) != (d < 0);
    let na: u128 = (if n < 0 {
        -n
    } else {
        n
    }) as u128;
    let da: u128 = (if d < 0 {
        -d
    } else {
        d
    }) as u128;
    proof {
        assert(na as nat == abs_nat(n as int));
        assert(da as nat == abs_nat(d as int));
        lemma_reduction(n as int, d as int);
        lemma_gcd_bounds(na as nat, da as nat);
    }
    let g: u128 = gcd_u128(na, da);
    let rn: u128 = na / g;
    let rd: u128 = da / g;
    let ghost rnum = reduced_num(n as int, d as int);
    let ghost rden = reduced_den(n as int, d as int);
    proof {
        assert(rn as int == abs_nat(rnum));
        assert(rd as int == rden);
    }
    if rd > i64::MAX as u128 {
        return None;
    }
    if neg {
        if rn > 9223372036854775808u128 {
            // the magnitude exceeds -i64::MIN
            return None;
        }
        let q = Ratio { num: (-(rn as i128)) as i64, den: rd as i64 };
        proof {
            assert(q.num_int() == rnum);
        }
        Some(q)
    } else {
        if rn > i64::MAX as u128 {
            return None;
        }
        let q = Ratio { num: rn as i64, den: rd as i64 };
        proof {
            assert(q.num_int() == rnum);
        }
        Some(q)
    }
}

/// The reduced product of two raw rationals, each a (numerator,
/// denominator) pair; computed in a widened domain, so the intermediate
/// products cannot overflow.
pub fn ratio_multiply(r1: (i64, i64), r2: (i64, i64)) -> (r: (i64, i64))
    requires
        r1.1 != 0,
        r2.1 != 0,
        fits_i64(reduced_num(r1.0 as int * r2.0 as int, r1.1 as int * r2.1 as int)),
        fits_i64(reduced_den(r1.0 as int * r2.0 as int, r1.1 as int * r2.1 as int)),
    ensures
        r.0 as int == reduced_num(r1.0 as int * r2.0 as int, r1.1 as int * r2.1 as int),
        r.1 as int == reduced_den(r1.0 as int * r2.0 as int, r1.1 as int * r2.1 as int),
{
    let n: i128 = wide_mul(r1.0, r2.0);
    let d: i128 = wide_mul(r1.1, r2.1);
    proof {
        assert(d != 0 && n > i128::MIN && d > i128::MIN) by (nonlinear_arith)
            requires
                n == r1.0 as int * r2.0 as int,
                d == r1.1 as int * r2.1 as int,
                r1.1 as int != 0,
                r2.1 as int != 0,
                i64::MIN <= r1.0 as int <= i64::MAX,
                i64::MIN <= r2.0 as int <= i64::MAX,
                i64::MIN <= r1.1 as int <= i64::MAX,
                i64::MIN <= r2.1 as int <= i64::MAX;
    }
    let q = reduce128(n, d).unwrap();
    (q.num, q.den)
}

/// The reduced quotient of two raw rationals, each a (numerator,
/// denominator) pair; computed in a widened domain, so the intermediate
/// products cannot overflow.
pub fn ratio_divide(r1: (i64, i64), r2: (i64, i64)) -> (r: (i64, i64))
    requires
        r1.1 != 0,
        r2.0 != 0,
        r2.1 != 0,
        fits_i64(reduced_num(r1.0 as int * r2.1 as int, r2.0 as int * r1.1 as int)),
        fits_i64(reduced_den(r1.0 as int * r2.1 as int, r2.0 as int * r1.1 as int)),
    ensures
        r.0 as int == reduced_num(r1.0 as int * r2.1 as int, r2.0 as int * r1.1 as int),
        r.1 as int == reduced_den(r1.0 as int * r2.1 as int, r2.0 as int * r1.1 as int),
{
    let n: i128 = wide_mul(r1.0, r2.1);
    let d: i128 = wide_mul(r2.0, r1.1);
    proof {
        assert(d != 0 && n > i128::MIN && d > i128::MIN) by (nonlinear_arith)
            requires
                n == r1.0 as int * r2.1 as int,
                d == r2.0 as int * r1.1 as int,
                r2.0 as int != 0,
                r1.1 as int != 0,
                i64::MIN <= r1.0 as int <= i64::MAX,
                i64::MIN <= r2.0 as int <= i64::MAX,
                i64::MIN <= r1.1 as int <= i64::MAX,
                i64::MIN <= r2.1 as int <= i64::MAX;
    }
    let q = reduce128(n, d).unwrap();
    (q.num, q.den)
}

/// A compile-time period tag: a rational number of seconds per tick, in
/// lowest terms, with a positive denominator, a nonzero numerator, and the
/// sign carried by the numerator.
pub trait Period: Sized {
    /// The numerator of the period.
    spec fn num() -> int;

    /// The denominator of the period.
    spec fn den() -> int;

    /// Whether the period's reduced pair fits the machine representation.
    spec fn in_range() -> bool;

    /// Every period is reduced, with a positive denominator and a nonzero
    /// numerator.
    proof fn properties()
        ensures
            Self::den() > 0,
            Self::num() != 0,
            gcd_nat(abs_nat(Self::num()), Self::den() as nat) == 1,
            Self::in_range() ==> fits_i64(Self::num()) && fits_i64(Self::den()),
    ;

    /// The period as a runtime rational value.
    fn ratio() -> (r: Ratio)
        requires
            Self::in_range(),
        ensures
            r.wf(),
            r.num_int() == Self::num(),
            r.den_int() == Self::den(),
    ;
}

/// One second per tick.
#[derive(Clone, Copy, Debug, Hash)]
pub struct Unit;

/// A thousandth of a second per tick.
#[derive(Clone, Copy, Debug, Hash)]
pub struct Mili;

/// A millionth of a second per tick.
#[derive(Clone, Copy, Debug, Hash)]
pub struct Micro;

/// A billionth of a second per tick.
#[derive(Clone, Copy, Debug, Hash)]
pub struct Nano;

/// A trillionth of a second per tick.
#[derive(Clone, Copy, Debug, Hash)]
pub struct Pico;

/// A thousand seconds per tick.
#[derive(Clone, Copy, Debug, Hash)]
pub struct Kilo;

/// A million seconds per tick.
#[derive(Clone, Copy, Debug, Hash)]
pub struct Mega;

/// A billion seconds per tick.
#[derive(Clone, Copy, Debug, Hash)]
pub struct Giga;

/// A trillion seconds per tick.
#[derive(Clone, Copy, Debug, Hash)]
pub struct Tera;

impl Period for Unit {
    open spec fn num() -> int {
        1
    }

    open spec fn den() -> int {
        1
    }

    open spec fn in_range() -> bool {
        true
    }

    proof fn properties() {
        lemma_gcd_one(1);
    }

    fn ratio() -> (r: Ratio) {
        proof {
            lemma_gcd_one(1);
        }
        Ratio { num: 1, den: 1 }
    }
}

impl Period for Mili {
    open spec fn num() -> int {
        1
    }

    open spec fn den() -> int {
        1000
    }

    open spec fn in_range() -> bool {
        true
    }

    proof fn properties() {
        lemma_gcd_one(1000);
    }

    fn ratio() -> (r: Ratio) {
        proof {
            lemma_gcd_one(1000);
        }
        Ratio { num: 1, den: 1000 }
    }
}

impl Period for Micro {
    open spec fn num() -> int {
        1
    }

    open spec fn den() -> int {
        1000000
    }

    open spec fn in_range() -> bool {
        true
    }

    proof fn properties() {
        lemma_gcd_one(1000000);
    }

    fn ratio() -> (r: Ratio) {
        proof {
            lemma_gcd_one(1000000);
        }
        Ratio { num: 1, den: 1000000 }
    }
}

impl Period for Nano {
    open spec fn num() -> int {
        1
    }

    open spec fn den() -> int {
        1000000000
    }

    open spec fn in_range() -> bool {
        true
    }

    proof fn properties() {
        lemma_gcd_one(1000000000);
    }

    fn ratio() -> (r: Ratio) {
        proof {
            lemma_gcd_one(1000000000);
        }
        Ratio { num: 1, den: 1000000000 }
    }
}

impl Period for Pico {
    open spec fn num() -> int {
        1
    }

    open spec fn den() -> int {
        1000000000000
    }

    open spec fn in_range() -> bool {
        true
    }

    proof fn properties() {
        lemma_gcd_one(1000000000000);
    }

    fn ratio() -> (r: Ratio) {
        proof {
            lemma_gcd_one(1000000000000);
        }
        Ratio { num: 1, den: 1000000000000 }
    }
}

impl Period for Kilo {
    open spec fn num() -> int {
        1000
    }

    open spec fn den() -> int {
        1
    }

    open spec fn in_range() -> bool {
        true
    }

    proof fn properties() {
        lemma_gcd_one(1000);
    }

    fn ratio() -> (r: Ratio) {
        proof {
            lemma_gcd_one(1000);
        }
        Ratio { num: 1000, den: 1 }
    }
}

impl Period for Mega {
    open spec fn num() -> int {
        1000000
    }

    open spec fn den() -> int {
        1
    }

    open spec fn in_range() -> bool {
        true
    }

    proof fn properties() {
        lemma_gcd_one(1000000);
    }

    fn ratio() -> (r: Ratio) {
        proof {
            lemma_gcd_one(1000000);
        }
        Ratio { num: 1000000, den: 1 }
    }
}

impl Period for Giga {
    open spec fn num() -> int {
        1000000000
    }

    open spec fn den() -> int {
        1
    }

    open spec fn in_range() -> bool {
        true
    }

    proof fn properties() {
        lemma_gcd_one(1000000000);
    }

    fn ratio() -> (r: Ratio) {
        proof {
            lemma_gcd_one(1000000000);
        }
        Ratio { num: 1000000000, den: 1 }
    }
}

impl Period for Tera {
    open spec fn num() -> int {
        1000000000000
    }

    open spec fn den() -> int {
        1
    }

    open spec fn in_range() -> bool {
        true
    }

    proof fn properties() {
        lemma_gcd_one(1000000000000);
    }

    fn ratio() -> (r: Ratio) {
        proof {
            lemma_gcd_one(1000000000000);
        }
        Ratio { num: 1000000000000, den: 1 }
    }
}

/// A minute of seconds per tick.
#[derive(Clone, Copy, Debug, Hash)]
pub struct Minute;

/// An hour of seconds per tick.
#[derive(Clone, Copy, Debug, Hash)]
pub struct Hour;

/// A day of seconds per tick.
#[derive(Clone, Copy, Debug, Hash)]
pub struct Day;

/// A week of seconds per tick.
#[derive(Clone, Copy, Debug, Hash)]
pub struct Week;

/// An average Gregorian month of seconds per tick.
#[derive(Clone, Copy, Debug, Hash)]
pub struct Month;

/// An average Gregorian year of seconds per tick.
#[derive(Clone, Copy, Debug, Hash)]
pub struct Year;

impl Period for Minute {
    open spec fn num() -> int {
        60
    }

    open spec fn den() -> int {
        1
    }

    open spec fn in_range() -> bool {
        true
    }

    proof fn properties() {
        lemma_gcd_one(60);
    }

    fn ratio() -> (r: Ratio) {
        proof {
            lemma_gcd_one(60);
        }
        Ratio { num: 60, den: 1 }
    }
}

impl Period for Hour {
    open spec fn num() -> int {
        3600
    }

    open spec fn den() -> int {
        1
    }

    open spec fn in_range() -> bool {
        true
    }

    proof fn properties() {
        lemma_gcd_one(3600);
    }

    fn ratio() -> (r: Ratio) {
        proof {
            lemma_gcd_one(3600);
        }
        Ratio { num: 3600, den: 1 }
    }
}

impl Period for Day {
    open spec fn num() -> int {
        86400
    }

    open spec fn den() -> int {
        1
    }

    open spec fn in_range() -> bool {
        true
    }

    proof fn properties() {
        lemma_gcd_one(86400);
    }

    fn ratio() -> (r: Ratio) {
        proof {
            lemma_gcd_one(86400);
        }
        Ratio { num: 86400, den: 1 }
    }
}

impl Period for Week {
    open spec fn num() -> int {
        604800
    }

    open spec fn den() -> int {
        1
    }

    open spec fn in_range() -> bool {
        true
    }

    proof fn properties() {
        lemma_gcd_one(604800);
    }

    fn ratio() -> (r: Ratio) {
        proof {
            lemma_gcd_one(604800);
        }
        Ratio { num: 604800, den: 1 }
    }
}

impl Period for Month {
    open spec fn num() -> int {
        2629746
    }

    open spec fn den() -> int {
        1
    }

    open spec fn in_range() -> bool {
        true
    }

    proof fn properties() {
        lemma_gcd_one(2629746);
    }

    fn ratio() -> (r: Ratio) {
        proof {
            lemma_gcd_one(2629746);
        }
        Ratio { num: 2629746, den: 1 }
    }
}

impl Period for Year {
    open spec fn num() -> int {
        31556952
    }

    open spec fn den() -> int {
        1
    }

    open spec fn in_range() -> bool {
        true
    }

    proof fn properties() {
        lemma_gcd_one(31556952);
    }

    fn ratio() -> (r: Ratio) {
        proof {
            lemma_gcd_one(31556952);
        }
        Ratio { num: 31556952, den: 1 }
    }
}

/// The exact product of two periods, reduced.
#[verifier::reject_recursive_types(A)]
#[verifier::reject_recursive_types(B)]
pub struct RatioMultiply<A, B>(PhantomData<A>, PhantomData<B>);

impl<A: Period, B: Period> Period for RatioMultiply<A, B> {
    open spec fn num() -> int {
        reduced_num(A::num() * B::num(), A::den() * B::den())
    }

    open spec fn den() -> int {
        reduced_den(A::num() * B::num(), A::den() * B::den())
    }

    open spec fn in_range() -> bool {
        A::in_range() && B::in_range() && fits_i64(
            reduced_num(A::num() * B::num(), A::den() * B::den()),
        ) && fits_i64(reduced_den(A::num() * B::num(), A::den() * B::den()))
    }

    proof fn properties() {
        A::properties();
        B::properties();
        let n = A::num() * B::num();
        let d = A::den() * B::den();
        assert(d > 0 && n != 0) by (nonlinear_arith)
            requires
                n == A::num() * B::num(),
                d == A::den() * B::den(),
                A::den() > 0,
                B::den() > 0,
                A::num() != 0,
                B::num() != 0;
        lemma_reduction(n, d);
    }

    fn ratio() -> (r: Ratio) {
        proof {
            A::properties();
            B::properties();
        }
        let ra = A::ratio();
        let rb = B::ratio();
        ra.mul(rb).unwrap()
    }
}

/// The exact quotient of two periods, reduced.
#[verifier::reject_recursive_types(A)]
#[verifier::reject_recursive_types(B)]
pub struct RatioDivide<A, B>(PhantomData<A>, PhantomData<B>);

impl<A: Period, B: Period> Period for RatioDivide<A, B> {
    open spec fn num() -> int {
        reduced_num(A::num() * B::den(), A::den() * B::num())
    }

    open spec fn den() -> int {
        reduced_den(A::num() * B::den(), A::den() * B::num())
    }

    open spec fn in_range() -> bool {
        A::in_range() && B::in_range() && fits_i64(
            reduced_num(A::num() * B::den(), A::den() * B::num()),
        ) && fits_i64(reduced_den(A::num() * B::den(), A::den() * B::num()))
    }

    proof fn properties() {
        A::properties();
        B::properties();
        let n = A::num() * B::den();
        let d = A::den() * B::num();
        assert(d != 0 && n != 0) by (nonlinear_arith)
            requires
                n == A::num() * B::den(),
                d == A::den() * B::num(),
                A::den() > 0,
                B::den() > 0,
                A::num() != 0,
                B::num() != 0;
        lemma_reduction(n, d);
    }

    fn ratio() -> (r: Ratio) {
        proof {
            A::properties();
            B::properties();
        }
        let ra = A::ratio();
        let rb = B::ratio();
        ra.div(rb).unwrap()
    }
}

/// The reciprocal of a period: numerator and denominator swapped, the sign
/// staying with the numerator. The operand is already reduced, so no
/// reduction is needed.
#[verifier::reject_recursive_types(R)]
pub struct Reciprocal<R>(PhantomData<R>);

impl<R: Period> Period for Reciprocal<R> {
    open spec fn num() -> int {
        if R::num() < 0 {
            -R::den()
        } else {
            R::den()
        }
    }

    open spec fn den() -> int {
        abs_nat(R::num()) as int
    }

    open spec fn in_range() -> bool {
        R::in_range() && R::num() != i64::MIN
    }

    proof fn properties() {
        R::properties();
        lemma_gcd_commutes(R::den() as nat, abs_nat(R::num()));
    }

    fn ratio() -> (r: Ratio) {
        proof {
            R::properties();
        }
        let rr = R::ratio();
        rr.recip().unwrap()
    }
}


impl<A, B> Clone for RatioMultiply<A, B> {
    fn clone(&self) -> (r: Self)
        ensures
            r == *self,
    {
        *self
    }
}

impl<A, B> Copy for RatioMultiply<A, B> {

}

impl<A, B> Clone for RatioDivide<A, B> {
    fn clone(&self) -> (r: Self)
        ensures
            r == *self,
    {
        *self
    }
}

impl<A, B> Copy for RatioDivide<A, B> {

}

impl<R> Clone for Reciprocal<R> {
    fn clone(&self) -> (r: Self)
        ensures
            r == *self,
    {
        *self
    }
}

impl<R> Copy for Reciprocal<R> {

}

/// Any common divisor of two numbers divides their gcd.
pub proof fn lemma_gcd_greatest(a: nat, b: nat, e: nat)
    requires
        e > 0,
        a % e == 0,
        b % e == 0,
    ensures
        gcd_nat(a, b) % e == 0,
    decreases b,
{
    if b == 0 {
    } else {
        lemma_fundamental_div_mod(a as int, b as int);
        let q = a as int / b as int;
        let r = a as int % b as int;
        lemma_fundamental_div_mod(a as int, e as int);
        lemma_fundamental_div_mod(b as int, e as int);
        let ka = a as int / e as int;
        let kb = b as int / e as int;
        assert(a == ka * e && b == kb * e) by (nonlinear_arith)
            requires
                a == e * ka + a % e,
                b == e * kb + b % e,
                a % e == 0,
                b % e == 0;
        assert(r == (ka - q * kb) * e) by (nonlinear_arith)
            requires a == q * b + r, a == ka * e, b == kb * e;
        lemma_mod_multiples_basic(ka - q * kb, e as int);
        assert(r % (e as int) == 0);
        lemma_gcd_greatest(b, r as nat, e);
    }
}

/// Euclid's lemma: a number coprime to one factor of a multiple of it
/// divides the other factor.
pub proof fn lemma_coprime_divides(a: nat, b: nat, c: nat)
    requires
        a > 0,
        gcd_nat(a, b) == 1,
        (b * c) % a == 0,
    ensures
        c % a == 0,
{
    if c == 0 {
        lemma_small_mod(0, a);
    } else {
        lemma_gcd_scale(a, b, c);
        assert(gcd_nat((c * a) as nat, (c * b) as nat) == c * gcd_nat(a, b));
        lemma_mod_multiples_basic(c as int, a as int);
        assert((c * a) % a == 0);
        assert((c * b) % a == 0) by {
            assert(c * b == b * c) by (nonlinear_arith);
        }
        lemma_gcd_greatest((c * a) as nat, (c * b) as nat, a);
        assert((c * gcd_nat(a, b)) % a == 0);
    }
}

/// Equal products cancel a common nonzero factor.
proof fn lemma_cancel(x: int, y: int, k: int)
    requires
        x * k == y * k,
        k != 0,
    ensures
        x == y,
{
    assert(x == y) by (nonlinear_arith)
        requires x * k == y * k, k != 0;
}

/// A rational has exactly one representation in lowest terms with a
/// positive denominator: two such pairs denoting the same rational are
/// the same pair.
pub proof fn lemma_lowest_terms_unique(n1: int, d1: int, n2: int, d2: int)
    requires
        d1 > 0,
        d2 > 0,
        gcd_nat(abs_nat(n1), d1 as nat) == 1,
        gcd_nat(abs_nat(n2), d2 as nat) == 1,
        n1 * d2 == n2 * d1,
    ensures
        n1 == n2,
        d1 == d2,
{
    let a1 = abs_nat(n1) as int;
    let a2 = abs_nat(n2) as int;
    assert(a1 * d2 == a2 * d1) by (nonlinear_arith)
        requires
            n1 * d2 == n2 * d1,
            d1 > 0,
            d2 > 0,
            a1 == (if n1 < 0 { -n1 } else { n1 }),
            a2 == (if n2 < 0 { -n2 } else { n2 });
    // d1 divides a1 * d2, and is coprime to a1, so d1 divides d2.
    lemma_mod_multiples_basic(a2, d1);
    assert((a1 * d2) % d1 == 0);
    lemma_gcd_commutes(d1 as nat, abs_nat(n1));
    lemma_coprime_divides(d1 as nat, abs_nat(n1), d2 as nat);
    // and symmetrically d2 divides d1.
    lemma_mod_multiples_basic(a1, d2);
    assert((a2 * d1) % d2 == 0);
    lemma_gcd_commutes(d2 as nat, abs_nat(n2));
    lemma_coprime_divides(d2 as nat, abs_nat(n2), d1 as nat);
    // mutual divisibility of positive numbers forces equality.
    lemma_fundamental_div_mod(d2, d1);
    lemma_fundamental_div_mod(d1, d2);
    let k = d2 / d1;
    let m = d1 / d2;
    assert(d2 == k * d1 && d1 == m * d2);
    assert(d1 == d2) by (nonlinear_arith)
        requires d2 == k * d1, d1 == m * d2, d1 > 0, d2 > 0;
    lemma_cancel(n1, n2, d1);
}

/// Composing two periods by multiplication is exact: the composed period
/// denotes the very rational product, with no rounding.
pub proof fn lemma_multiply_exact<A: Period, B: Period>()
    ensures
        <RatioMultiply<A, B> as Period>::num() * (A::den() * B::den()) == (A::num() * B::num())
            * <RatioMultiply<A, B> as Period>::den(),
        <RatioMultiply<A, B> as Period>::den() > 0,
{
    A::properties();
    B::properties();
    let n = A::num() * B::num();
    let d = A::den() * B::den();
    assert(d > 0) by (nonlinear_arith)
        requires d == A::den() * B::den(), A::den() > 0, B::den() > 0;
    lemma_reduction(n, d);
    assert(n * reduced_den(n, d) == reduced_num(n, d) * d);
    assert(reduced_num(n, d) * d == n * reduced_den(n, d));
}

/// Composing two periods by division is exact: the composed period
/// denotes the very rational quotient, with no rounding.
pub proof fn lemma_divide_exact<A: Period, B: Period>()
    ensures
        <RatioDivide<A, B> as Period>::num() * (A::den() * B::num()) == (A::num() * B::den())
            * <RatioDivide<A, B> as Period>::den(),
{
    A::properties();
    B::properties();
    let n = A::num() * B::den();
    let d = A::den() * B::num();
    assert(d != 0) by (nonlinear_arith)
        requires d == A::den() * B::num(), A::den() > 0, B::num() != 0;
    lemma_reduction(n, d);
}

/// Dividing a product of two periods by its second factor returns exactly
/// the first factor: division inverts multiplication.
pub proof fn lemma_divide_inverts_multiply<A: Period, B: Period>()
    ensures
        <RatioDivide<RatioMultiply<A, B>, B> as Period>::num() == A::num(),
        <RatioDivide<RatioMultiply<A, B>, B> as Period>::den() == A::den(),
{
    A::properties();
    B::properties();
    <RatioMultiply<A, B> as Period>::properties();
    <RatioDivide<RatioMultiply<A, B>, B> as Period>::properties();
    let na = A::num();
    let da = A::den();
    let nb = B::num();
    let db = B::den();
    let mn = <RatioMultiply<A, B> as Period>::num();
    let md = <RatioMultiply<A, B> as Period>::den();
    let qn = <RatioDivide<RatioMultiply<A, B>, B> as Period>::num();
    let qd = <RatioDivide<RatioMultiply<A, B>, B> as Period>::den();
    lemma_multiply_exact::<A, B>();
    lemma_divide_exact::<RatioMultiply<A, B>, B>();
    assert((na * nb) * md == mn * (da * db));
    assert(qn * (md * nb) == (mn * db) * qd);
    assert((na * nb * md) * qd == (mn * da * db) * qd) by (nonlinear_arith)
        requires (na * nb) * md == mn * (da * db);
    assert((mn * db * qd) * da == (qn * md * nb) * da) by (nonlinear_arith)
        requires qn * (md * nb) == (mn * db) * qd;
    assert((mn * da * db) * qd == (mn * db * qd) * da) by (nonlinear_arith);
    assert((na * qd) * (nb * md) == (na * nb * md) * qd) by (nonlinear_arith);
    assert((qn * md * nb) * da == (qn * da) * (nb * md)) by (nonlinear_arith);
    assert((na * qd) * (nb * md) == (qn * da) * (nb * md));
    assert(nb * md != 0) by (nonlinear_arith)
        requires nb != 0, md > 0;
    lemma_cancel(na * qd, qn * da, nb * md);
    assert(qn * da == na * qd);
    lemma_lowest_terms_unique(qn, qd, na, da);
}

} // verus!
