//! Double-precision numbers as bit patterns.
//!
//! A [`Double`] is a number in the IEEE 754 binary64 interchange format, held
//! as its 64 bits: one sign bit, eleven bits of biased exponent and fifty-two
//! bits of fraction. Everything the library has to decide about such a number
//! (is it zero, is it a whole number, which whole number is nearest to a given
//! integer) is decided on those bits with integer arithmetic.

use vstd::arithmetic::div_mod::{
    lemma_div_denominator, lemma_div_multiples_vanish, lemma_fundamental_div_mod,
    lemma_fundamental_div_mod_converse, lemma_mod_multiples_basic, lemma_small_mod,
};
use vstd::arithmetic::mul::{
    lemma_mul_inequality, lemma_mul_is_associative, lemma_mul_is_commutative,
};
use vstd::arithmetic::power2::{
    lemma2_to64, lemma2_to64_rest, lemma_pow2_adds, lemma_pow2_pos,
    lemma_pow2_strictly_increases, lemma_pow2_unfold, pow2,
};
use vstd::prelude::*;

verus! {

/// Two to the power 52: the number of fraction patterns, and the hidden
/// leading bit of a normal significand.
pub const HIDDEN_BIT: u64 = 0x10_0000_0000_0000;

/// Two to the power 53: the first integer magnitude that needs rounding.
pub const SIGNIFICAND_LIMIT: u64 = 0x20_0000_0000_0000;

/// The bit that holds the sign.
pub const SIGN_BIT: u64 = 0x8000_0000_0000_0000;

/// A binary64 number, held as its bits.
#[derive(Clone, Copy, Debug, PartialEq, Eq, Hash, Structural)]
pub struct Double {
    pub bits: u64,
}

/// The distance between neighbouring binary64 numbers around the
/// non-negative integer `n`, as long as that distance is at least one.
pub open spec fn spacing(n: nat) -> nat
    decreases n,
{
    if n < SIGNIFICAND_LIMIT {
        1
    } else {
        2 * spacing(n / 2)
    }
}

/// The multiple of `spacing(n)` nearest to `n`; of two that are equally near,
/// the one whose quotient by the spacing is even.
pub open spec fn nearest(n: nat) -> nat {
    let unit = spacing(n);
    let quotient = n / unit;
    let rest = n % unit;
    if 2 * rest > unit || (2 * rest == unit && quotient % 2 == 1) {
        (quotient + 1) * unit
    } else {
        quotient * unit
    }
}

/// `nearest`, carried over to negative integers by symmetry.
pub open spec fn nearest_integer(n: int) -> int {
    if n >= 0 {
        nearest(n as nat) as int
    } else {
        -(nearest((-n) as nat) as int)
    }
}

/// Whether `number` is the binary64 number nearest to the integer `n`, with
/// the sign of `n`.
pub open spec fn is_nearest_double(number: Double, n: int) -> bool {
    &&& number.integer_value() == Some(nearest_integer(n))
    &&& number.negative() == (n < 0)
}

/// The binary64 number nearest to the integer `n`, with the sign of `n`.
/// There is at most one (`lemma_whole_double_unique`), and for every 64-bit
/// integer `from_i64` and `from_u64` compute it.
pub open spec fn nearest_double(n: int) -> Double {
    choose|number: Double| is_nearest_double(number, n)
}

impl Double {
    /// Positive zero.
    pub fn zero() -> (d: Double)
        ensures
            d.bits == 0,
    {
        Double { bits: 0 }
    }

    /// Whether the sign bit is set.
    pub open spec fn negative(self) -> bool {
        self.bits >= SIGN_BIT
    }

    /// The eleven exponent bits, read as a number.
    pub open spec fn biased_exponent(self) -> nat {
        ((self.bits / HIDDEN_BIT) % 2048) as nat
    }

    /// The fifty-two fraction bits, read as a number.
    pub open spec fn fraction(self) -> nat {
        (self.bits % HIDDEN_BIT) as nat
    }

    /// Neither an infinity nor a NaN.
    pub open spec fn is_finite(self) -> bool {
        self.biased_exponent() != 2047
    }

    /// Positive or negative zero.
    pub open spec fn is_zero_spec(self) -> bool {
        self.bits == 0 || self.bits == SIGN_BIT
    }

    /// The significand as a whole number: the fraction bits, with the hidden
    /// leading bit in front unless the number is subnormal.
    pub open spec fn significand(self) -> nat {
        if self.biased_exponent() == 0 {
            self.fraction()
        } else {
            self.fraction() + HIDDEN_BIT as nat
        }
    }

    /// The power of two by which the significand is scaled: a finite number's
    /// magnitude is `significand() * 2^exponent()`.
    pub open spec fn exponent(self) -> int {
        if self.biased_exponent() == 0 {
            -1074
        } else {
            self.biased_exponent() - 1075
        }
    }

    /// Whether the number is finite and its value is exactly the integer `n`:
    /// the plain reading of sign, significand and exponent. The contracts
    /// speak of `integer_value`, which can be computed;
    /// `lemma_denotes_integer_value` shows that it means this.
    pub open spec fn denotes(self, n: int) -> bool {
        let sign: int = if self.negative() { -1 } else { 1 };
        &&& self.is_finite()
        &&& if self.exponent() >= 0 {
            n == sign * (self.significand() * pow2(self.exponent() as nat))
        } else {
            n * pow2((-self.exponent()) as nat) == sign * self.significand()
        }
    }

    /// The magnitude of the number, where the number is finite and whole.
    pub open spec fn whole_magnitude(self) -> Option<nat> {
        if !self.is_finite() {
            None
        } else if self.exponent() >= 0 {
            Some(self.significand() * pow2(self.exponent() as nat))
        } else if self.significand() % pow2((-self.exponent()) as nat) == 0 {
            Some(self.significand() / pow2((-self.exponent()) as nat))
        } else {
            None
        }
    }

    /// The integer that the number is, where it is finite and whole. Both
    /// zeros are the integer zero.
    pub open spec fn integer_value(self) -> Option<int> {
        match self.whole_magnitude() {
            Some(magnitude) => Some(
                if self.negative() {
                    -(magnitude as int)
                } else {
                    magnitude as int
                },
            ),
            None => None,
        }
    }

    /// The number as a signed 64-bit integer, where it is exactly one.
    pub open spec fn as_i64(self) -> Option<i64> {
        match self.integer_value() {
            Some(v) => if i64::MIN <= v <= i64::MAX {
                Some(v as i64)
            } else {
                None
            },
            None => None,
        }
    }

    /// The number as an unsigned 64-bit integer, where it is exactly one.
    pub open spec fn as_u64(self) -> Option<u64> {
        match self.integer_value() {
            Some(v) => if 0 <= v <= u64::MAX {
                Some(v as u64)
            } else {
                None
            },
            None => None,
        }
    }

    /// Whether the number is positive or negative zero.
    pub fn is_zero(&self) -> (z: bool)
        ensures
            z == self.is_zero_spec(),
    {
        self.bits == 0 || self.bits == SIGN_BIT
    }

    /// The magnitude of a finite whole number that is below two to the 64.
    fn magnitude(&self) -> (r: Option<u64>)
        ensures
            match self.whole_magnitude() {
                Some(m) => if m <= u64::MAX {
                    r == Some(m as u64)
                } else {
                    r is None
                },
                None => r is None,
            },
    {
        let e: u64 = (self.bits / HIDDEN_BIT) % 2048;
        let f: u64 = self.bits % HIDDEN_BIT;
        proof {
            lemma2_to64();
            lemma2_to64_rest();
        }
        if e == 2047 {
            return None;
        }
        if e == 0 {
            proof {
                lemma_pow2_strictly_increases(52, 1074);
                lemma_small_mod(f as nat, pow2(1074));
                lemma_fundamental_div_mod(f as int, pow2(1074) as int);
            }
            if f == 0 {
                assert(0int / (pow2(1074) as int) == 0) by {
                    vstd::arithmetic::div_mod::lemma_div_basics_1(pow2(1074) as int);
                }
                return Some(0);
            }
            return None;
        }
        let m: u64 = f + HIDDEN_BIT;
        if e >= 1075 {
            let x: u64 = e - 1075;
            if x > 11 {
                proof {
                    if x > 12 {
                        lemma_pow2_strictly_increases(12, x as nat);
                    }
                    lemma_mul_inequality(0x1000, pow2(x as nat) as int, m as int);
                    lemma_mul_inequality(
                        HIDDEN_BIT as int,
                        m as int,
                        0x1000,
                    );
                    lemma_mul_is_commutative(m as int, pow2(x as nat) as int);
                    lemma_mul_is_commutative(m as int, 0x1000);
                }
                return None;
            }
            let p: u64 = power_of_two(x);
            proof {
                if x < 11 {
                    lemma_pow2_strictly_increases(x as nat, 11);
                }
                lemma_mul_inequality(p as int, 0x800, m as int);
                lemma_mul_is_commutative(m as int, p as int);
                lemma_mul_is_commutative(m as int, 0x800);
            }
            Some(m * p)
        } else {
            let s: u64 = 1075 - e;
            if s > 52 {
                proof {
                    lemma_pow2_strictly_increases(52, s as nat);
                    lemma_pow2_unfold(53);
                    if s > 53 {
                        lemma_pow2_strictly_increases(53, s as nat);
                    }
                    lemma_small_mod(m as nat, pow2(s as nat));
                }
                return None;
            }
            let p: u64 = power_of_two(s);
            if m % p == 0 {
                Some(m / p)
            } else {
                None
            }
        }
    }

    /// The number as a signed 64-bit integer, if its value is exactly one.
    pub fn to_i64(&self) -> (r: Option<i64>)
        ensures
            r == self.as_i64(),
    {
        match self.magnitude() {
            None => None,
            Some(a) => {
                if self.bits >= SIGN_BIT {
                    if a < SIGN_BIT {
                        Some(-(a as i64))
                    } else if a == SIGN_BIT {
                        Some(i64::MIN)
                    } else {
                        None
                    }
                } else if a < SIGN_BIT {
                    Some(a as i64)
                } else {
                    None
                }
            },
        }
    }

    /// The number as an unsigned 64-bit integer, if its value is exactly one.
    pub fn to_u64(&self) -> (r: Option<u64>)
        ensures
            r == self.as_u64(),
    {
        match self.magnitude() {
            None => None,
            Some(a) => {
                if self.bits >= SIGN_BIT {
                    if a == 0 {
                        Some(0)
                    } else {
                        None
                    }
                } else {
                    Some(a)
                }
            },
        }
    }

    /// The binary64 number nearest to `n`, ties to the even significand.
    pub fn from_u64(n: u64) -> (d: Double)
        ensures
            d == nearest_double(n as int),
            is_nearest_double(d, n as int),
            n == 0 ==> d.bits == 0,
    {
        let d = Double::rounded(n);
        proof {
            assert(is_nearest_double(d, n as int));
            lemma_whole_double_unique(d, nearest_double(n as int));
        }
        d
    }

    /// The bits of the binary64 number nearest to `n`.
    fn rounded(n: u64) -> (d: Double)
        ensures
            d.integer_value() == Some(nearest(n as nat) as int),
            !d.negative(),
            n == 0 ==> d.bits == 0,
    {
        proof {
            lemma2_to64();
            lemma2_to64_rest();
        }
        if n == 0 {
            proof {
                lemma_pow2_pos(1074);
                lemma_small_mod(0, pow2(1074));
                vstd::arithmetic::div_mod::lemma_div_basics_1(pow2(1074) as int);
            }
            return Double { bits: 0 };
        }
        let mut unit: u64 = 1;
        let mut k: u64 = 0;
        while n / unit >= SIGNIFICAND_LIMIT
            invariant
                unit == pow2(k as nat),
                k <= 11,
                unit >= 1,
                spacing(n as nat) == unit * spacing((n / unit) as nat),
                k > 0 ==> n / unit >= HIDDEN_BIT,
            decreases 11 - k,
        {
            proof {
                lemma2_to64();
                lemma_fundamental_div_mod(n as int, unit as int);
                if k >= 11 {
                    if k > 11 {
                        lemma_pow2_strictly_increases(11, k as nat);
                    }
                    lemma_mul_inequality(0x800, unit as int, (n / unit) as int);
                    lemma_mul_is_commutative(unit as int, (n / unit) as int);
                }
                lemma_pow2_unfold((k + 1) as nat);
                lemma_div_denominator(n as int, unit as int, 2);
                lemma_mul_is_associative(unit as int, 2, spacing(((n / unit) / 2) as nat) as int);
            }
            unit = unit * 2;
            k = k + 1;
        }
        let q: u64 = n / unit;
        let rest: u64 = n % unit;
        if k == 0 {
            // Below two to the 53 every integer is held exactly.
            let mut m: u64 = n;
            let mut s: u64 = 0;
            while m < HIDDEN_BIT
                invariant
                    m == n * pow2(s as nat),
                    m >= pow2(s as nat),
                    s <= 52,
                    m < SIGNIFICAND_LIMIT,
                    n >= 1,
                decreases 52 - s,
            {
                proof {
                    lemma2_to64();
                    lemma2_to64_rest();
                    if s >= 52 {
                        assert(false);
                    }
                    lemma_pow2_unfold((s + 1) as nat);
                    lemma_mul_is_associative(n as int, pow2(s as nat) as int, 2);
                }
                m = m * 2;
                s = s + 1;
            }
            let d = Double { bits: (1075 - s) * HIDDEN_BIT + (m - HIDDEN_BIT) };
            proof {
                let e: int = 1075 - s;
                lemma_fundamental_div_mod_converse(
                    d.bits as int,
                    HIDDEN_BIT as int,
                    e,
                    (m - HIDDEN_BIT) as int,
                );
                assert(d.biased_exponent() == e);
                assert(d.significand() == m);
                assert(d.exponent() == -(s as int));
                lemma_pow2_pos(s as nat);
                lemma_mul_is_commutative(n as int, pow2(s as nat) as int);
                lemma_mod_multiples_basic(n as int, pow2(s as nat) as int);
                lemma_div_multiples_vanish(n as int, pow2(s as nat) as int);
                assert(spacing(n as nat) == 1);
                assert(nearest(n as nat) == n);
            }
            d
        } else {
            let up: u64 = if 2 * rest > unit || (2 * rest == unit && q % 2 == 1) {
                1
            } else {
                0
            };
            let rounded: u64 = q + up;
            let d = Double { bits: (1075 + k) * HIDDEN_BIT + (rounded - HIDDEN_BIT) };
            proof {
                assert(spacing(q as nat) == 1);
                assert(spacing(n as nat) == unit) by (nonlinear_arith)
                    requires
                        spacing(n as nat) == unit * spacing(q as nat),
                        spacing(q as nat) == 1,
                ;
                assert(nearest(n as nat) == rounded * unit);
                if rounded < SIGNIFICAND_LIMIT {
                    lemma_fundamental_div_mod_converse(
                        d.bits as int,
                        HIDDEN_BIT as int,
                        (1075 + k) as int,
                        (rounded - HIDDEN_BIT) as int,
                    );
                    assert(d.biased_exponent() == 1075 + k);
                    assert(d.significand() == rounded);
                    assert(d.exponent() == k as int);
                } else {
                    lemma_fundamental_div_mod_converse(
                        d.bits as int,
                        HIDDEN_BIT as int,
                        (1076 + k) as int,
                        0,
                    );
                    assert(d.biased_exponent() == 1076 + k);
                    assert(d.significand() == HIDDEN_BIT);
                    assert(d.exponent() == k + 1);
                    lemma_pow2_unfold((k + 1) as nat);
                    lemma_mul_is_associative(HIDDEN_BIT as int, 2, pow2(k as nat) as int);
                }
            }
            d
        }
    }

    /// The binary64 number nearest to `n`, ties to the even significand.
    pub fn from_i64(n: i64) -> (d: Double)
        ensures
            d == nearest_double(n as int),
            is_nearest_double(d, n as int),
            n == 0 ==> d.bits == 0,
    {
        let d = Double::rounded_signed(n);
        proof {
            assert(is_nearest_double(d, n as int));
            lemma_whole_double_unique(d, nearest_double(n as int));
        }
        d
    }

    /// The bits of the binary64 number nearest to `n`.
    fn rounded_signed(n: i64) -> (d: Double)
        ensures
            d.integer_value() == Some(nearest_integer(n as int)),
            n == 0 ==> d.bits == 0,
            d.negative() == (n < 0),
    {
        if n >= 0 {
            Double::rounded(n as u64)
        } else {
            let a: u64 = if n == i64::MIN {
                SIGN_BIT
            } else {
                (-n) as u64
            };
            let positive = Double::rounded(a);
            let d = Double { bits: positive.bits + SIGN_BIT };
            assert(d.biased_exponent() == positive.biased_exponent());
            assert(d.fraction() == positive.fraction());
            d
        }
    }
}

/// Two to the power `k`.
fn power_of_two(k: u64) -> (p: u64)
    requires
        k < 64,
    ensures
        p == pow2(k as nat),
{
    let mut p: u64 = 1;
    let mut i: u64 = 0;
    proof {
        lemma2_to64();
    }
    while i < k
        invariant
            i <= k,
            k < 64,
            p == pow2(i as nat),
        decreases k - i,
    {
        proof {
            lemma_pow2_unfold((i + 1) as nat);
            lemma2_to64_rest();
            if i + 1 < 63 {
                lemma_pow2_strictly_increases((i + 1) as nat, 63);
            }
        }
        p = p * 2;
        i = i + 1;
    }
    p
}

/// Below two to the 53 every integer is its own nearest number.
pub proof fn lemma_nearest_exact(n: nat)
    requires
        n < SIGNIFICAND_LIMIT,
    ensures
        nearest(n) == n,
{
    assert(spacing(n) == 1);
    assert(n as int / 1 == n && n as int % 1 == 0);
    assert(n * 1 == n);
}

/// Between two to the `52 + k` and two to the `53 + k` neighbouring numbers
/// are two to the `k` apart.
pub proof fn lemma_spacing(n: nat, k: nat)
    requires
        HIDDEN_BIT * pow2(k) <= n < SIGNIFICAND_LIMIT * pow2(k),
    ensures
        spacing(n) == pow2(k),
    decreases k,
{
    lemma2_to64();
    if k > 0 {
        lemma_pow2_unfold(k);
        lemma_pow2_pos((k - 1) as nat);
        let half = pow2((k - 1) as nat) as int;
        assert(HIDDEN_BIT * pow2(k) == 2 * (HIDDEN_BIT * half)) by (nonlinear_arith)
            requires
                pow2(k) == 2 * half,
        ;
        assert(SIGNIFICAND_LIMIT * pow2(k) == 2 * (SIGNIFICAND_LIMIT * half)) by (nonlinear_arith)
            requires
                pow2(k) == 2 * half,
        ;
        assert(SIGNIFICAND_LIMIT * half >= SIGNIFICAND_LIMIT) by (nonlinear_arith)
            requires
                half >= 1,
        ;
        lemma_spacing(n / 2, (k - 1) as nat);
    }
}

/// Why `nearest` bears its name: the nearest number is a multiple of the
/// spacing, and no further from `n` than half the spacing.
pub proof fn lemma_nearest_is_near(n: nat)
    ensures
        nearest(n) % spacing(n) == 0,
        2 * (nearest(n) - n) <= spacing(n),
        2 * (n - nearest(n)) <= spacing(n),
{
    lemma_spacing_positive(n);
    let unit = spacing(n) as int;
    let quotient = n as int / unit;
    lemma_fundamental_div_mod(n as int, unit);
    lemma_mod_multiples_basic(quotient, unit);
    lemma_mod_multiples_basic(quotient + 1, unit);
    assert((quotient + 1) * unit == quotient * unit + unit) by (nonlinear_arith);
    lemma_mul_is_commutative(quotient, unit);
}

/// The spacing is at least one.
pub proof fn lemma_spacing_positive(n: nat)
    ensures
        spacing(n) >= 1,
    decreases n,
{
    if n >= SIGNIFICAND_LIMIT {
        lemma_spacing_positive(n / 2);
    }
}

/// From two to the 63 on, the nearest number is at least two to the 63: no
/// such integer is held as a number in the range of `i64`.
pub proof fn lemma_nearest_beyond_signed(n: u64)
    requires
        n >= SIGN_BIT,
    ensures
        nearest(n as nat) >= SIGN_BIT,
{
    lemma2_to64();
    lemma_spacing(n as nat, 11);
}

/// A whole number that a binary64 number holds is its own nearest number.
pub proof fn lemma_whole_is_exact(d: Double)
    requires
        d.whole_magnitude() is Some,
    ensures
        nearest(d.whole_magnitude()->Some_0) == d.whole_magnitude()->Some_0,
        nearest_integer(d.integer_value()->Some_0) == d.integer_value()->Some_0,
{
    lemma2_to64();
    let m = d.significand();
    let v = d.whole_magnitude()->Some_0;
    if d.exponent() >= 0 {
        let x = d.exponent() as nat;
        lemma_pow2_pos(x);
        assert(HIDDEN_BIT * pow2(x) <= m * pow2(x) < SIGNIFICAND_LIMIT * pow2(x))
            by (nonlinear_arith)
            requires
                HIDDEN_BIT <= m < SIGNIFICAND_LIMIT,
                pow2(x) > 0,
        ;
        lemma_spacing(v, x);
        lemma_mod_multiples_basic(m as int, pow2(x) as int);
        lemma_div_multiples_vanish(m as int, pow2(x) as int);
        lemma_mul_is_commutative(m as int, pow2(x) as int);
    } else {
        let p = pow2((-d.exponent()) as nat);
        lemma_pow2_pos((-d.exponent()) as nat);
        vstd::arithmetic::div_mod::lemma_div_nonincreasing(m as int, p as int);
        lemma_nearest_exact(v);
    }
}

/// The magnitude of a whole number, with numerator and denominator scaled
/// by two to the 1074 so that no exponent is negative.
proof fn lemma_scaled_magnitude(d: Double)
    requires
        d.whole_magnitude() is Some,
    ensures
        d.significand() * pow2((d.exponent() + 1074) as nat) == d.whole_magnitude()->Some_0 * pow2(
            1074,
        ),
{
    let m = d.significand() as int;
    let v = d.whole_magnitude()->Some_0 as int;
    if d.exponent() >= 0 {
        let x = d.exponent() as nat;
        lemma_pow2_adds(x, 1074);
        lemma_mul_is_associative(m, pow2(x) as int, pow2(1074) as int);
    } else {
        let s = (-d.exponent()) as nat;
        let rest = (1074 - s) as nat;
        lemma_pow2_pos(s);
        lemma_pow2_adds(s, rest);
        lemma_fundamental_div_mod(m, pow2(s) as int);
        lemma_mul_is_commutative(pow2(s) as int, v);
        lemma_mul_is_associative(v, pow2(s) as int, pow2(rest) as int);
    }
}

/// Of two normal significands scaled to the same product, the one with the
/// smaller exponent would be too large.
proof fn lemma_same_scale(ma: int, ka: nat, mb: int, kb: nat)
    requires
        HIDDEN_BIT <= ma < SIGNIFICAND_LIMIT,
        HIDDEN_BIT <= mb < SIGNIFICAND_LIMIT,
        ma * pow2(ka) == mb * pow2(kb),
    ensures
        ka <= kb,
{
    if ka > kb {
        let more = (ka - kb) as nat;
        lemma_pow2_adds(more, kb);
        lemma_pow2_pos(kb);
        lemma_pow2_pos(more);
        lemma_pow2_unfold(more);
        lemma_pow2_pos((more - 1) as nat);
        let p = pow2(kb) as int;
        let q = pow2(more) as int;
        assert(ma * (q * p) == (ma * q) * p) by (nonlinear_arith);
        assert(ma * q == mb) by (nonlinear_arith)
            requires
                (ma * q) * p == mb * p,
                p > 0,
        ;
        assert(ma * q >= ma * 2) by (nonlinear_arith)
            requires
                q >= 2,
                ma >= 0,
        ;
    }
}

/// Two binary64 numbers that hold the same whole number with the same sign
/// are the same number.
pub proof fn lemma_whole_double_unique(a: Double, b: Double)
    requires
        a.integer_value() is Some,
        a.integer_value() == b.integer_value(),
        a.negative() == b.negative(),
    ensures
        a.bits == b.bits,
{
    lemma2_to64();
    lemma2_to64_rest();
    lemma_scaled_magnitude(a);
    lemma_scaled_magnitude(b);
    let v = a.whole_magnitude()->Some_0 as int;
    assert(b.whole_magnitude()->Some_0 == v);
    let ma = a.significand() as int;
    let mb = b.significand() as int;
    let ka = (a.exponent() + 1074) as nat;
    let kb = (b.exponent() + 1074) as nat;
    lemma_pow2_pos(ka);
    lemma_pow2_pos(kb);
    lemma_pow2_pos(1074);
    lemma_pow2_strictly_increases(53, 1074);
    if v == 0 {
        assert(ma == 0) by (nonlinear_arith)
            requires
                ma * pow2(ka) == 0 * pow2(1074),
                pow2(ka) > 0,
                ma >= 0,
        ;
        assert(mb == 0) by (nonlinear_arith)
            requires
                mb * pow2(kb) == 0 * pow2(1074),
                pow2(kb) > 0,
                mb >= 0,
        ;
    } else {
        assert(v * pow2(1074) >= pow2(1074)) by (nonlinear_arith)
            requires
                v >= 1,
                pow2(1074) > 0,
        ;
        if a.biased_exponent() == 0 {
            assert(ma * pow2(0) == ma);
            assert(false);
        }
        if b.biased_exponent() == 0 {
            assert(mb * pow2(0) == mb);
            assert(false);
        }
        lemma_same_scale(ma, ka, mb, kb);
        lemma_same_scale(mb, kb, ma, ka);
        assert(ma == mb) by (nonlinear_arith)
            requires
                ma * pow2(ka) == mb * pow2(ka),
                pow2(ka) > 0,
        ;
    }
    assert(a.biased_exponent() == b.biased_exponent());
    assert(a.fraction() == b.fraction());
}

/// Why `integer_value` bears its name: a number denotes `n`, by the plain
/// reading of its bits, exactly when `n` is its integer value.
pub proof fn lemma_denotes_integer_value(d: Double, n: int)
    ensures
        d.denotes(n) <==> d.integer_value() == Some(n),
{
    if d.is_finite() {
        let m = d.significand() as int;
        if d.exponent() >= 0 {
            let v = m * pow2(d.exponent() as nat);
            assert((-1) * v == -v && 1 * v == v);
        } else {
            let p = pow2((-d.exponent()) as nat) as int;
            lemma_pow2_pos((-d.exponent()) as nat);
            lemma_fundamental_div_mod(m, p);
            assert((-1) * m == -m && 1 * m == m);
            let a = if d.negative() { -n } else { n };
            assert(a * p == m <==> n * p == (if d.negative() { -m } else { m }))
                by (nonlinear_arith)
                requires
                    a == (if d.negative() { -n } else { n }),
            ;
            if a * p == m {
                lemma_fundamental_div_mod_converse(m, p, a, 0);
            }
            if m % p == 0 && a == m / p {
                assert(a * p == m) by (nonlinear_arith)
                    requires
                        m == p * (m / p),
                        a == m / p,
                ;
            }
        }
    }
}

} // verus!
