//! IEEE 754 numbers by their bit patterns, and their numeric order.
//!
//! A pattern stands for a whole number of the smallest positive step of its
//! format, so the order of the patterns can be stated over integers. An
//! infinity stands for the power of two that follows the largest finite number.

use vstd::arithmetic::div_mod;
use vstd::arithmetic::power2;
use vstd::prelude::*;

verus! {

/// The magnitude of the pattern `m` (its sign bit left out), in units of the
/// smallest positive number of a format with `p` fraction bits.
pub open spec fn magnitude(m: nat, p: nat) -> nat {
    let exponent = m / power2::pow2(p);
    let fraction = m % power2::pow2(p);
    if exponent == 0 {
        fraction
    } else {
        (power2::pow2(p) + fraction) * power2::pow2((exponent - 1) as nat)
    }
}

/// The largest finite double precision number.
pub const DOUBLE_MAX: u64 = 0x7fef_ffff_ffff_ffff;

/// A single precision number.
#[derive(Clone, Copy, Debug, PartialEq, Eq, Structural)]
pub struct Single {
    pub bits: u32,
}

/// A double precision number.
#[derive(Clone, Copy, Debug, PartialEq, Eq, Structural)]
pub struct Double {
    pub bits: u64,
}

proof fn lemma_magnitude_grows(a: nat, b: nat, p: nat)
    requires
        a < b,
    ensures
        magnitude(a, p) < magnitude(b, p),
{
    power2::lemma_pow2_pos(p);
    let n = power2::pow2(p);
    let ea = a / n;
    let eb = b / n;
    let fa = a % n;
    let fb = b % n;
    div_mod::lemma_fundamental_div_mod(a as int, n as int);
    div_mod::lemma_fundamental_div_mod(b as int, n as int);
    div_mod::lemma_div_is_ordered(a as int, b as int, n as int);
    if ea == eb {
        if ea > 0 {
            let k = power2::pow2((ea - 1) as nat);
            power2::lemma_pow2_pos((ea - 1) as nat);
            assert((n + fa) * k < (n + fb) * k) by (nonlinear_arith)
                requires
                    fa < fb,
                    0 < k,
            ;
        }
    } else {
        let k = power2::pow2(ea);
        power2::lemma_pow2_pos(ea);
        assert(magnitude(a, p) < n * k) by {
            if ea == 0 {
                power2::lemma2_to64();
                assert(n * k == n) by (nonlinear_arith)
                    requires
                        k == 1,
                ;
            } else {
                power2::lemma_pow2_unfold(ea);
                let h = power2::pow2((ea - 1) as nat);
                power2::lemma_pow2_pos((ea - 1) as nat);
                assert((n + fa) * h < n * k) by (nonlinear_arith)
                    requires
                        k == 2 * h,
                        fa < n,
                        0 < h,
                ;
            }
        }
        let j = power2::pow2((eb - 1) as nat);
        if ea < eb - 1 {
            power2::lemma_pow2_strictly_increases(ea, (eb - 1) as nat);
        }
        assert(n * k <= (n + fb) * j) by (nonlinear_arith)
            requires
                k <= j,
                0 <= fb,
                0 < n,
                0 < k,
        ;
    }
}

proof fn lemma_magnitude_zero(p: nat)
    ensures
        magnitude(0, p) == 0,
{
    power2::lemma_pow2_pos(p);
    div_mod::lemma_div_basics_1(power2::pow2(p) as int);
    div_mod::lemma_small_mod(0, power2::pow2(p));
}

/// A pattern with the exponent `exponent` and the significand `m`.
proof fn lemma_normal(bits: nat, m: nat, exponent: nat, p: nat)
    requires
        power2::pow2(p) <= m < 2 * power2::pow2(p),
        0 < exponent,
        bits == exponent * power2::pow2(p) + (m - power2::pow2(p)),
    ensures
        magnitude(bits, p) == m * power2::pow2((exponent - 1) as nat),
{
    let n = power2::pow2(p) as int;
    div_mod::lemma_fundamental_div_mod_converse(bits as int, n, exponent as int, m - n);
}

/// `s` is positive, and no single precision number is nearer to the ratio of
/// `num` to `den`: it is off by at most half the step at its size.
pub open spec fn is_nearest(s: Single, num: int, den: int) -> bool {
    let step = power2::pow2((s.bits / 0x80_0000 - 1) as nat) as int;
    &&& 0x80_0000 <= s.bits < 0x7f80_0000
    &&& 2 * (den * s.value() - Single::units(num)) <= den * step
    &&& 2 * (Single::units(num) - den * s.value()) <= den * step
}

/// A positive number with the significand `m` is the nearest one to a ratio
/// where that can be seen in steps of its own size.
pub proof fn lemma_is_nearest(s: Single, m: int, exponent: int, num: int, den: int)
    requires
        0 < exponent <= 150,
        0x80_0000 <= m < 0x100_0000,
        s.bits == exponent * 0x80_0000 + (m - 0x80_0000),
        s.bits < 0x7f80_0000,
        2 * (den * m - num * power2::pow2((150 - exponent) as nat)) <= den,
        2 * (num * power2::pow2((150 - exponent) as nat) - den * m) <= den,
    ensures
        is_nearest(s, num, den),
        s.value() == m * power2::pow2((exponent - 1) as nat),
{
    power2::lemma2_to64();
    lemma_normal(s.bits as nat, m as nat, exponent as nat, 23);
    let step = power2::pow2((exponent - 1) as nat) as int;
    let gap = power2::pow2((150 - exponent) as nat) as int;
    power2::lemma_pow2_pos((exponent - 1) as nat);
    power2::lemma_pow2_adds((150 - exponent) as nat, (exponent - 1) as nat);
    assert(s.bits / 0x80_0000 == exponent);
    assert(s.value() == m * step);
    assert(Single::units(num) == num * (gap * step));
    assert(2 * (den * (m * step) - num * (gap * step)) <= den * step && 2 * (num * (gap * step)
        - den * (m * step)) <= den * step) by (nonlinear_arith)
        requires
            2 * (den * m - num * gap) <= den,
            2 * (num * gap - den * m) <= den,
            0 < step,
    ;
}

impl Single {
    /// Whether the pattern stands for no number at all.
    pub open spec fn nan(self) -> bool {
        self.bits % 0x8000_0000 > 0x7f80_0000
    }

    /// The number, in units of the smallest positive one.
    pub open spec fn value(self) -> int {
        if self.bits < 0x8000_0000 {
            magnitude(self.bits as nat, 23) as int
        } else {
            -(magnitude((self.bits - 0x8000_0000) as nat, 23) as int)
        }
    }

    /// `n` in the units of `value`.
    pub open spec fn units(n: int) -> int {
        n * power2::pow2(149) as int
    }

    /// A number that grows with `value`.
    spec fn rank(self) -> int {
        if self.bits < 0x8000_0000 {
            self.bits as int
        } else {
            -(self.bits - 0x8000_0000)
        }
    }

    proof fn lemma_rank(self, other: Single)
        ensures
            self.rank() < other.rank() <==> self.value() < other.value(),
            self.rank() <= other.rank() <==> self.value() <= other.value(),
    {
        let a = if self.bits < 0x8000_0000 { self.bits as nat } else { (self.bits - 0x8000_0000) as nat };
        let b = if other.bits < 0x8000_0000 { other.bits as nat } else { (other.bits - 0x8000_0000) as nat };
        if a < b {
            lemma_magnitude_grows(a, b, 23);
        }
        if b < a {
            lemma_magnitude_grows(b, a, 23);
        }
        lemma_magnitude_zero(23);
        if 0 < a {
            lemma_magnitude_grows(0, a, 23);
        }
        if 0 < b {
            lemma_magnitude_grows(0, b, 23);
        }
    }

    fn rank_of(self) -> (r: i64)
        ensures
            r == self.rank(),
    {
        if self.bits < 0x8000_0000 {
            self.bits as i64
        } else {
            0 - (self.bits - 0x8000_0000) as i64
        }
    }

    /// Whether the pattern stands for no number at all.
    pub fn is_nan(self) -> (r: bool)
        ensures
            r == self.nan(),
    {
        self.bits % 0x8000_0000 > 0x7f80_0000
    }

    /// Whether `self` is less than `other`; false where one is no number.
    pub fn lt(self, other: Single) -> (r: bool)
        ensures
            r == (!self.nan() && !other.nan() && self.value() < other.value()),
    {
        proof {
            self.lemma_rank(other);
        }
        !self.is_nan() && !other.is_nan() && self.rank_of() < other.rank_of()
    }

    /// Whether `self` is at most `other`; false where one is no number.
    pub fn le(self, other: Single) -> (r: bool)
        ensures
            r == (!self.nan() && !other.nan() && self.value() <= other.value()),
    {
        proof {
            self.lemma_rank(other);
        }
        !self.is_nan() && !other.is_nan() && self.rank_of() <= other.rank_of()
    }

    /// The whole number `n`.
    pub fn whole(n: u16) -> (r: Single)
        ensures
            !r.nan(),
            r.value() == Single::units(n as int),
    {
        if n == 0 {
            proof {
                lemma_magnitude_zero(23);
            }
            return Single { bits: 0 };
        }
        let mut m: u32 = n as u32;
        let mut e: u32 = 23;
        proof {
            power2::lemma2_to64();
            power2::lemma2_to64_rest();
            assert((23 - e) as nat == 0);
            assert(m == n * 1);
        }
        while m < 0x800000
            invariant
                0 < n,
                n <= m < 0x1000000,
                e <= 23,
                n < 0x10000,
                m == n * power2::pow2((23 - e) as nat),
            decreases e,
        {
            proof {
                if e == 0 {
                    power2::lemma2_to64();
                    power2::lemma2_to64_rest();
                    let k = power2::pow2(23);
                    assert(n * k >= k) by (nonlinear_arith)
                        requires
                            0 < n,
                            0 < k,
                    ;
                }
                power2::lemma_pow2_unfold((23 - e + 1) as nat);
                let h = power2::pow2((23 - e) as nat);
                assert(2 * (n * h) == n * (2 * h)) by (nonlinear_arith);
            }
            m = m * 2;
            e = e - 1;
        }
        let r = Single { bits: (127 + e) * 0x800000 + (m - 0x800000) };
        proof {
            lemma_normal(r.bits as nat, m as nat, (127 + e) as nat, 23);
            power2::lemma_pow2_adds((23 - e) as nat, (126 + e) as nat);
            let h = power2::pow2((23 - e) as nat) as int;
            let k = power2::pow2((126 + e) as nat) as int;
            assert((n * h) * k == n * (h * k)) by (nonlinear_arith);
        }
        r
    }

    /// `self` with its sign turned.
    pub fn negated(self) -> (r: Single)
        ensures
            r.nan() == self.nan(),
            r.value() == -self.value(),
    {
        if self.bits < 0x8000_0000 {
            Single { bits: self.bits + 0x8000_0000 }
        } else {
            Single { bits: self.bits - 0x8000_0000 }
        }
    }

    /// The greater of `self` and the number `floor`, which is also the answer
    /// where `self` is no number.
    pub fn at_least(self, floor: Single) -> (r: Single)
        requires
            !floor.nan(),
        ensures
            r == (if !self.nan() && floor.value() < self.value() {
                self
            } else {
                floor
            }),
    {
        if floor.lt(self) {
            self
        } else {
            floor
        }
    }

    /// `self` brought into the range from `low` to `high`; a pattern that is no
    /// number stays as it is.
    pub fn clamp_to(self, low: Single, high: Single) -> (r: Single)
        requires
            !low.nan(),
            !high.nan(),
            low.value() <= high.value(),
        ensures
            r == (if self.nan() {
                self
            } else if self.value() < low.value() {
                low
            } else if high.value() < self.value() {
                high
            } else {
                self
            }),
    {
        if self.lt(low) {
            low
        } else if high.lt(self) {
            high
        } else {
            self
        }
    }
}

impl Double {
    /// Whether the pattern stands for no number at all.
    pub open spec fn nan(self) -> bool {
        self.bits % 0x8000_0000_0000_0000 > 0x7ff0_0000_0000_0000
    }

    /// The number, in units of the smallest positive one.
    pub open spec fn value(self) -> int {
        if self.bits < 0x8000_0000_0000_0000 {
            magnitude(self.bits as nat, 52) as int
        } else {
            -(magnitude((self.bits - 0x8000_0000_0000_0000) as nat, 52) as int)
        }
    }

    /// `n` in the units of `value`.
    pub open spec fn units(n: int) -> int {
        n * power2::pow2(1074) as int
    }

    /// A number that grows with `value`.
    spec fn rank(self) -> int {
        if self.bits < 0x8000_0000_0000_0000 {
            self.bits as int
        } else {
            -(self.bits - 0x8000_0000_0000_0000)
        }
    }

    proof fn lemma_rank(self, other: Double)
        ensures
            self.rank() < other.rank() <==> self.value() < other.value(),
            self.rank() <= other.rank() <==> self.value() <= other.value(),
    {
        let a = if self.bits < 0x8000_0000_0000_0000 { self.bits as nat } else { (self.bits - 0x8000_0000_0000_0000) as nat };
        let b = if other.bits < 0x8000_0000_0000_0000 { other.bits as nat } else { (other.bits - 0x8000_0000_0000_0000) as nat };
        if a < b {
            lemma_magnitude_grows(a, b, 52);
        }
        if b < a {
            lemma_magnitude_grows(b, a, 52);
        }
        lemma_magnitude_zero(52);
        if 0 < a {
            lemma_magnitude_grows(0, a, 52);
        }
        if 0 < b {
            lemma_magnitude_grows(0, b, 52);
        }
    }

    fn rank_of(self) -> (r: i128)
        ensures
            r == self.rank(),
    {
        if self.bits < 0x8000_0000_0000_0000 {
            self.bits as i128
        } else {
            0 - (self.bits - 0x8000_0000_0000_0000) as i128
        }
    }

    /// Whether the pattern stands for no number at all.
    pub fn is_nan(self) -> (r: bool)
        ensures
            r == self.nan(),
    {
        self.bits % 0x8000_0000_0000_0000 > 0x7ff0_0000_0000_0000
    }

    /// Whether `self` is less than `other`; false where one is no number.
    pub fn lt(self, other: Double) -> (r: bool)
        ensures
            r == (!self.nan() && !other.nan() && self.value() < other.value()),
    {
        proof {
            self.lemma_rank(other);
        }
        !self.is_nan() && !other.is_nan() && self.rank_of() < other.rank_of()
    }

    /// Whether `self` is at most `other`; false where one is no number.
    pub fn le(self, other: Double) -> (r: bool)
        ensures
            r == (!self.nan() && !other.nan() && self.value() <= other.value()),
    {
        proof {
            self.lemma_rank(other);
        }
        !self.is_nan() && !other.is_nan() && self.rank_of() <= other.rank_of()
    }

    /// The whole number `n`.
    pub fn whole(n: u16) -> (r: Double)
        ensures
            !r.nan(),
            r.value() == Double::units(n as int),
    {
        if n == 0 {
            proof {
                lemma_magnitude_zero(52);
            }
            return Double { bits: 0 };
        }
        let mut m: u64 = n as u64;
        let mut e: u64 = 52;
        proof {
            power2::lemma2_to64();
            power2::lemma2_to64_rest();
            assert((52 - e) as nat == 0);
            assert(m == n * 1);
        }
        while m < 0x10000000000000
            invariant
                0 < n,
                n <= m < 0x20000000000000,
                e <= 52,
                n < 0x10000,
                m == n * power2::pow2((52 - e) as nat),
            decreases e,
        {
            proof {
                if e == 0 {
                    power2::lemma2_to64();
                    power2::lemma2_to64_rest();
                    let k = power2::pow2(52);
                    assert(n * k >= k) by (nonlinear_arith)
                        requires
                            0 < n,
                            0 < k,
                    ;
                }
                power2::lemma_pow2_unfold((52 - e + 1) as nat);
                let h = power2::pow2((52 - e) as nat);
                assert(2 * (n * h) == n * (2 * h)) by (nonlinear_arith);
            }
            m = m * 2;
            e = e - 1;
        }
        let r = Double { bits: (1023 + e) * 0x10000000000000 + (m - 0x10000000000000) };
        proof {
            lemma_normal(r.bits as nat, m as nat, (1023 + e) as nat, 52);
            power2::lemma_pow2_adds((52 - e) as nat, (1022 + e) as nat);
            let h = power2::pow2((52 - e) as nat) as int;
            let k = power2::pow2((1022 + e) as nat) as int;
            assert((n * h) * k == n * (h * k)) by (nonlinear_arith);
        }
        r
    }
}

/// Whole numbers below the number of significands are below the largest finite
/// double precision number.
pub proof fn lemma_double_max(n: int)
    requires
        0 <= n < 0x20_0000_0000_0000,
    ensures
        !(Double { bits: DOUBLE_MAX }).nan(),
        Double::units(n) < (Double { bits: DOUBLE_MAX }).value(),
{
    power2::lemma2_to64();
    power2::lemma2_to64_rest();
    let m: int = 0x1f_ffff_ffff_ffff;
    lemma_normal(DOUBLE_MAX as nat, m as nat, 2046, 52);
    power2::lemma_pow2_strictly_increases(1074, 2045);
    let small = power2::pow2(1074) as int;
    let large = power2::pow2(2045) as int;
    assert(n * small < m * large) by (nonlinear_arith)
        requires
            0 <= n <= m,
            0 < m,
            0 <= small < large,
    ;
}

/// A single precision pattern is no number exactly where its exponent is full
/// and its fraction is not zero. Otherwise it stands for its fraction where the
/// exponent is zero, and for the fraction with a bit ahead of it, doubled once
/// for each further step of the exponent. The sign bit turns the sign.
pub proof fn lemma_single_value(sign: bool, exponent: int, fraction: int)
    requires
        0 <= exponent < 256,
        0 <= fraction < 0x80_0000,
    ensures
        ({
            let bits = exponent * 0x80_0000 + fraction + (if sign {
                0x8000_0000int
            } else {
                0
            });
            let s = Single { bits: bits as u32 };
            let size = if exponent == 0 {
                fraction
            } else {
                (0x80_0000 + fraction) * power2::pow2((exponent - 1) as nat)
            };
            &&& s.nan() <==> exponent == 255 && fraction > 0
            &&& s.value() == (if sign {
                -size
            } else {
                size
            })
        }),
{
    power2::lemma2_to64();
    let m = exponent * 0x80_0000 + fraction;
    if exponent > 0 {
        lemma_normal(m as nat, (0x80_0000 + fraction) as nat, exponent as nat, 23);
    } else {
        div_mod::lemma_fundamental_div_mod_converse(m, 0x80_0000, 0, fraction);
    }
}

/// A double precision pattern stands for its number in the same way.
pub proof fn lemma_double_value(sign: bool, exponent: int, fraction: int)
    requires
        0 <= exponent < 2048,
        0 <= fraction < 0x10_0000_0000_0000,
    ensures
        ({
            let bits = exponent * 0x10_0000_0000_0000 + fraction + (if sign {
                0x8000_0000_0000_0000int
            } else {
                0
            });
            let d = Double { bits: bits as u64 };
            let size = if exponent == 0 {
                fraction
            } else {
                (0x10_0000_0000_0000 + fraction) * power2::pow2((exponent - 1) as nat)
            };
            &&& d.nan() <==> exponent == 2047 && fraction > 0
            &&& d.value() == (if sign {
                -size
            } else {
                size
            })
        }),
{
    power2::lemma2_to64();
    power2::lemma2_to64_rest();
    let m = exponent * 0x10_0000_0000_0000 + fraction;
    if exponent > 0 {
        lemma_normal(m as nat, (0x10_0000_0000_0000 + fraction) as nat, exponent as nat, 52);
    } else {
        div_mod::lemma_fundamental_div_mod_converse(m, 0x10_0000_0000_0000, 0, fraction);
    }
}

/// A whole number is the number itself in the units of each format: one is
/// 2 to the power of 149, and of 1074.
pub proof fn lemma_units(n: int)
    ensures
        Single::units(n) == n * power2::pow2(149),
        Double::units(n) == n * power2::pow2(1074),
{
}

} // verus!
