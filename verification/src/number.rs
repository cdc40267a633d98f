//! Binary fractions by their bit patterns.
//!
//! Sizes, shares and temperatures in the settings are IEEE 754 single-precision numbers, sensor
//! readings double-precision ones. Here both are integers: the bits, and behind them the exact
//! value as a whole multiple of 2^-1074, the smallest step of a double. What an operation on such
//! numbers gives is the nearest number to the exact result, ties going to the even one.

use vstd::prelude::*;
use vstd::arithmetic::power2::pow2;
use vstd::arithmetic::power2::lemma_pow2_adds;
use vstd::arithmetic::power2::lemma_pow2_pos;
use vstd::arithmetic::power2::lemma_pow2_strictly_increases;
use vstd::arithmetic::power2::lemma2_to64;
use vstd::arithmetic::power2::lemma2_to64_rest;
use vstd::arithmetic::div_mod::lemma_fundamental_div_mod;
use vstd::arithmetic::div_mod::lemma_fundamental_div_mod_converse;

verus! {

/// The bits of positive infinity in single precision; finite magnitudes are below it.
pub const SINGLE_INFINITY: u32 = 0x7f80_0000;

/// The bits of positive infinity in double precision.
pub const DOUBLE_INFINITY: u64 = 0x7ff0_0000_0000_0000;

/// A number in single precision.
#[derive(Debug, Clone, Copy, PartialEq, Eq, Structural)]
pub struct Single {
    pub bits: u32,
}

/// A number in double precision.
#[derive(Debug, Clone, Copy, PartialEq, Eq, Structural)]
pub struct Double {
    pub bits: u64,
}

/// The whole number nearest to `num / den`, a tie going to the even one.
pub open spec fn nearest_even(num: nat, den: nat) -> nat {
    let q = num / den;
    let r = num % den;
    if 2 * r < den || (2 * r == den && q % 2 == 0) {
        q
    } else {
        q + 1
    }
}

/// How many binary digits a number has.
pub open spec fn bit_length(n: nat) -> nat
    decreases n,
{
    if n == 0 {
        0
    } else {
        1 + bit_length(n / 2)
    }
}

/// The step between neighbouring single-precision numbers around `num / den` (in units of
/// 2^-1074), as a power of two: 24 significant digits, and never finer than 2^-149.
pub open spec fn single_step(num: nat, den: nat) -> nat {
    let length = bit_length(num / den);
    if length < 949 {
        925
    } else {
        (length - 24) as nat
    }
}

/// The magnitude bits of the single-precision number nearest to `num / den` units of 2^-1074.
pub open spec fn nearest_single(num: nat, den: nat) -> nat {
    let k = single_step(num, den);
    let bits = (k - 925) * 0x80_0000 + nearest_even(num, den * pow2(k));
    if bits < SINGLE_INFINITY {
        bits as nat
    } else {
        SINGLE_INFINITY as nat
    }
}

impl Single {
    pub open spec fn negative(self) -> bool {
        self.bits >= 0x8000_0000
    }

    /// The bits without the sign.
    pub open spec fn magnitude(self) -> nat {
        (self.bits % 0x8000_0000) as nat
    }

    pub open spec fn finite(self) -> bool {
        self.magnitude() < SINGLE_INFINITY
    }

    /// The absolute value in units of 2^-1074.
    pub open spec fn extent(self) -> nat {
        single_extent(self.magnitude())
    }

    pub fn is_finite(self) -> (r: bool)
        ensures
            r == self.finite(),
    {
        self.bits % 0x8000_0000 < SINGLE_INFINITY
    }
}

/// The value of a single-precision magnitude in units of 2^-1074.
pub open spec fn single_extent(magnitude: nat) -> nat {
    let e = magnitude / 0x80_0000;
    let f = magnitude % 0x80_0000;
    if e == 0 {
        f * pow2(925)
    } else {
        (f + 0x80_0000) * pow2((e + 924) as nat)
    }
}

impl Double {
    pub open spec fn negative(self) -> bool {
        self.bits >= 0x8000_0000_0000_0000
    }

    /// The bits without the sign.
    pub open spec fn magnitude(self) -> nat {
        (self.bits % 0x8000_0000_0000_0000) as nat
    }

    pub open spec fn finite(self) -> bool {
        self.magnitude() < DOUBLE_INFINITY
    }

    pub fn is_finite(self) -> (r: bool)
        ensures
            r == self.finite(),
    {
        self.bits % 0x8000_0000_0000_0000 < DOUBLE_INFINITY
    }

    /// Not a number.
    pub open spec fn undefined(self) -> bool {
        self.magnitude() > DOUBLE_INFINITY
    }

    /// The absolute value in units of 2^-1074.
    pub open spec fn extent(self) -> nat {
        let e = self.magnitude() / 0x10_0000_0000_0000;
        let f = self.magnitude() % 0x10_0000_0000_0000;
        if e == 0 {
            f
        } else {
            (f + 0x10_0000_0000_0000) * pow2((e - 1) as nat)
        }
    }

    /// The place of the number among all numbers: magnitudes grow with their bits.
    pub open spec fn rank(self) -> int {
        if self.negative() {
            -(self.magnitude() as int)
        } else {
            self.magnitude() as int
        }
    }

    /// The nearest single, an infinite one where the number is too large or none.
    pub open spec fn narrow(self) -> Single {
        let magnitude = nearest_single(self.extent(), 1);
        Single {
            bits: if self.negative() {
                (0x8000_0000 + magnitude) as u32
            } else {
                magnitude as u32
            },
        }
    }

    /// `self >= other`; false when one of them is not a number.
    pub open spec fn not_below(self, other: Double) -> bool {
        !self.undefined() && !other.undefined() && self.rank() >= other.rank()
    }

    fn place(self) -> (r: i128)
        ensures
            r == self.rank(),
    {
        let magnitude: u64 = self.bits % 0x8000_0000_0000_0000;
        if self.bits >= 0x8000_0000_0000_0000 {
            -(magnitude as i128)
        } else {
            magnitude as i128
        }
    }

    pub fn at_least(self, other: Double) -> (r: bool)
        ensures
            r == self.not_below(other),
    {
        if self.bits % 0x8000_0000_0000_0000 > DOUBLE_INFINITY || other.bits
            % 0x8000_0000_0000_0000 > DOUBLE_INFINITY {
            return false;
        }
        self.place() >= other.place()
    }
}

pub(crate) proof fn lemma_scaled(num: nat, den: nat, c: nat)
    requires
        den > 0,
        c > 0,
    ensures
        nearest_even(num * c, den * c) == nearest_even(num, den),
{
    let q = num / den;
    let r = num % den;
    lemma_fundamental_div_mod(num as int, den as int);
    assert(num * c == q * (den * c) + r * c) by (nonlinear_arith)
        requires
            num == den * q + r,
    ;
    assert(0 <= r * c < den * c) by (nonlinear_arith)
        requires
            0 <= r < den,
            c > 0,
    ;
    assert(den * c > 0) by (nonlinear_arith)
        requires
            den > 0,
            c > 0,
    ;
    lemma_fundamental_div_mod_converse((num * c) as int, (den * c) as int, q as int, (r * c) as int);
    assert((2 * (r * c) < den * c) == (2 * r < den)) by (nonlinear_arith)
        requires
            c > 0,
    ;
    assert((2 * (r * c) == den * c) == (2 * r == den)) by (nonlinear_arith)
        requires
            c > 0,
    ;
}

pub(crate) proof fn lemma_bit_length(n: nat, k: nat)
    requires
        pow2(k) <= n < pow2(k + 1),
    ensures
        bit_length(n) == k + 1,
    decreases k,
{
    lemma_pow2_pos(k);
    if k == 0 {
        lemma2_to64();
        assert(n == 1);
        assert(bit_length(0) == 0);
        assert(bit_length(1) == 1 + bit_length(0));
    } else {
        vstd::arithmetic::power2::lemma_pow2_unfold(k);
        vstd::arithmetic::power2::lemma_pow2_unfold((k + 1) as nat);
        assert(pow2((k - 1) as nat) <= n / 2 < pow2(k));
        lemma_bit_length(n / 2, (k - 1) as nat);
    }
}

pub(crate) proof fn lemma_bit_length_small(n: nat, k: nat)
    requires
        n < pow2(k),
    ensures
        bit_length(n) <= k,
    decreases k,
{
    if k == 0 {
        lemma2_to64();
        assert(n == 0);
    } else if n > 0 {
        vstd::arithmetic::power2::lemma_pow2_unfold(k);
        lemma_bit_length_small(n / 2, (k - 1) as nat);
    }
}

/// The nearest single of a quotient whose binary order is known.
pub(crate) proof fn lemma_nearest_normal(num: nat, den: nat, k: nat)
    requires
        den > 0,
        k >= 925,
        pow2((k + 23) as nat) * den <= num < pow2((k + 24) as nat) * den,
    ensures
        nearest_single(num, den) == ({
            let bits = (k - 925) * 0x80_0000 + nearest_even(num, den * pow2(k));
            if bits < SINGLE_INFINITY {
                bits as nat
            } else {
                SINGLE_INFINITY as nat
            }
        }),
{
    let lo = pow2((k + 23) as nat);
    let hi = pow2((k + 24) as nat);
    let q = num / den;
    lemma_fundamental_div_mod(num as int, den as int);
    assert(lo <= q < hi) by (nonlinear_arith)
        requires
            num == den * q + num % den,
            0 <= num % den < den,
            lo * den <= num < hi * den,
            den > 0,
    ;
    lemma_bit_length(q, (k + 23) as nat);
}

/// The nearest single of a quotient below the normal range.
proof fn lemma_nearest_small(num: nat, den: nat)
    requires
        den > 0,
        num < pow2(949) * den,
    ensures
        single_step(num, den) == 925,
{
    let hi = pow2(949);
    let q = num / den;
    lemma_fundamental_div_mod(num as int, den as int);
    assert(q < hi) by (nonlinear_arith)
        requires
            num == den * q + num % den,
            0 <= num % den < den,
            num < hi * den,
            den > 0,
    ;
    lemma_bit_length_small(q, 949);
}

fn round_even(num: u64, den: u64) -> (r: u64)
    requires
        den > 0,
        num / den < u64::MAX,
    ensures
        r == nearest_even(num as nat, den as nat),
{
    let q: u64 = num / den;
    let rest: u64 = num % den;
    let other: u64 = den - rest;
    if rest < other || (rest == other && q % 2 == 0) {
        q
    } else {
        q + 1
    }
}

/// A power of two that fits 64 bits.
fn two_to(n: u32) -> (r: u64)
    requires
        n < 64,
    ensures
        r == pow2(n as nat),
        r > 0,
{
    let mut r: u64 = 1;
    let mut i: u32 = 0;
    proof {
        lemma2_to64();
    }
    while i < n
        invariant
            i <= n < 64,
            r == pow2(i as nat),
            r > 0,
        decreases n - i,
    {
        proof {
            lemma_pow2_strictly_increases(i as nat, 63);
            lemma2_to64_rest();
            vstd::arithmetic::power2::lemma_pow2_unfold((i + 1) as nat);
        }
        r = r * 2;
        i += 1;
    }
    r
}

/// The position of the highest binary digit of a number above zero.
fn highest_digit(v: u64) -> (k: u32)
    requires
        v > 0,
    ensures
        k < 64,
        pow2(k as nat) <= v < pow2((k + 1) as nat),
{
    let mut k: u32 = 0;
    let mut top: u64 = 1;
    proof {
        lemma2_to64();
    }
    while top <= v / 2
        invariant
            top == pow2(k as nat),
            0 < top <= v,
            k < 64,
        decreases v - top,
    {
        proof {
            vstd::arithmetic::power2::lemma_pow2_unfold((k + 1) as nat);
            if k == 63 {
                lemma2_to64_rest();
            }
        }
        top = top * 2;
        k += 1;
    }
    proof {
        vstd::arithmetic::power2::lemma_pow2_unfold((k + 1) as nat);
    }
    k
}

/// The magnitude bits of the single nearest to a whole number.
fn magnitude_of(v: u64) -> (r: u32)
    ensures
        r == nearest_single((v as nat) * pow2(1074), 1),
        r < SINGLE_INFINITY,
{
    if v == 0 {
        proof {
            lemma_pow2_pos(949);
            lemma_nearest_small(0, 1);
            lemma_pow2_pos(925);
            assert(nearest_even(0, 1 * pow2(925)) == 0) by {
                lemma_fundamental_div_mod_converse(0, pow2(925) as int, 0, 0);
            }
        }
        return 0;
    }
    let k = highest_digit(v);
    let ghost num = (v as nat) * pow2(1074);
    proof {
        lemma2_to64();
        lemma2_to64_rest();
        lemma_pow2_pos(1074);
        lemma_pow2_adds(k as nat, 1074);
        lemma_pow2_adds((k + 1) as nat, 1074);
        assert(pow2((k + 1074) as nat) <= num) by (nonlinear_arith)
            requires
                num == (v as nat) * pow2(1074),
                pow2((k + 1074) as nat) == pow2(k as nat) * pow2(1074),
                pow2(k as nat) <= v,
        ;
        assert(num < pow2((k + 1075) as nat)) by (nonlinear_arith)
            requires
                num == (v as nat) * pow2(1074),
                pow2((k + 1075) as nat) == pow2((k + 1) as nat) * pow2(1074),
                v < pow2((k + 1) as nat),
                pow2(1074) > 0,
        ;
        lemma_nearest_normal(num, 1, (k + 1051) as nat);
        lemma_pow2_pos((k + 1051) as nat);
    }
    let n: u64 = if k < 23 {
        let up = two_to(23 - k);
        proof {
            lemma_pow2_adds((23 - k) as nat, (k + 1051) as nat);
            let c = pow2((k + 1051) as nat);
            assert(num == ((v as nat) * (up as nat)) * c) by (nonlinear_arith)
                requires
                    num == (v as nat) * pow2(1074),
                    pow2(1074) == (up as nat) * c,
            ;
            lemma_scaled((v as nat) * (up as nat), 1, c);
            lemma_pow2_adds((k + 1) as nat, (23 - k) as nat);
            assert((v as nat) * (up as nat) < 0x100_0000) by (nonlinear_arith)
                requires
                    v < pow2((k + 1) as nat),
                    0x100_0000 == pow2((k + 1) as nat) * (up as nat),
                    up > 0,
            ;
            assert(nearest_even((v as nat) * (up as nat), 1) == (v as nat) * (up as nat));
        }
        v * up
    } else {
        let unit = two_to(k - 23);
        proof {
            lemma_pow2_adds((k - 23) as nat, 1074);
            lemma_scaled(v as nat, unit as nat, pow2(1074));
            lemma_pow2_adds((k - 23) as nat, 24);
            lemma_fundamental_div_mod(v as int, unit as int);
            assert(v / unit < 0x100_0000) by (nonlinear_arith)
                requires
                    v == unit * (v / unit) + v % unit,
                    0 <= v % unit,
                    v < (unit as nat) * 0x100_0000,
                    unit > 0,
            ;
        }
        round_even(v, unit)
    };
    (k + 126) * 0x80_0000 + n as u32
}

impl Single {
    /// The single nearest to a whole number.
    pub fn of_u64(v: u64) -> (r: Single)
        ensures
            !r.negative(),
            r.magnitude() == nearest_single((v as nat) * pow2(1074), 1),
    {
        Single { bits: magnitude_of(v) }
    }

    /// The single nearest to a whole number below zero.
    pub fn of_negative(v: i64) -> (r: Single)
        requires
            v < 0,
        ensures
            r.negative(),
            r.magnitude() == nearest_single((-v) as nat * pow2(1074), 1),
    {
        let amount: u64 = (-(v as i128)) as u64;
        Single { bits: 0x8000_0000 + magnitude_of(amount) }
    }

    /// The single nearest to a double.
    pub fn of_double(d: Double) -> (r: Single)
        ensures
            r == d.narrow(),
    {
        let magnitude: u64 = d.bits % 0x8000_0000_0000_0000;
        let sign: u32 = if d.bits >= 0x8000_0000_0000_0000 {
            0x8000_0000
        } else {
            0
        };
        let e: u64 = magnitude / 0x10_0000_0000_0000;
        let f: u64 = magnitude % 0x10_0000_0000_0000;
        let ghost num = d.extent();
        proof {
            lemma2_to64();
            lemma2_to64_rest();
        }
        if e >= 897 {
            let sig: u64 = f + 0x10_0000_0000_0000;
            let n = round_even(sig, 0x2000_0000);
            proof {
                let c = pow2((e - 1) as nat);
                let k = (e + 28) as nat;
                lemma_pow2_pos((e - 1) as nat);
                lemma_pow2_adds(52, (e - 1) as nat);
                lemma_pow2_adds(53, (e - 1) as nat);
                lemma_pow2_adds(29, (e - 1) as nat);
                assert(pow2((k + 23) as nat) <= num < pow2((k + 24) as nat)) by (nonlinear_arith)
                    requires
                        num == (sig as nat) * c,
                        pow2((k + 23) as nat) == 0x10_0000_0000_0000nat * c,
                        pow2((k + 24) as nat) == 0x20_0000_0000_0000nat * c,
                        0x10_0000_0000_0000 <= sig < 0x20_0000_0000_0000,
                        c > 0,
                ;
                lemma_nearest_normal(num, 1, k);
                lemma_scaled(sig as nat, 0x2000_0000, c);
            }
            let bits: u64 = (e - 897) * 0x80_0000 + n;
            let bits: u64 = if bits < SINGLE_INFINITY as u64 {
                bits
            } else {
                SINGLE_INFINITY as u64
            };
            Single { bits: sign + bits as u32 }
        } else {
            let sig: u64 = if e == 0 {
                f
            } else {
                f + 0x10_0000_0000_0000
            };
            let low: u64 = if e == 0 {
                1
            } else {
                e
            };
            proof {
                let c = pow2((low - 1) as nat);
                lemma_pow2_pos((low - 1) as nat);
                assert(num == (sig as nat) * c) by (nonlinear_arith)
                    requires
                        e == 0 ==> num == f && c == 1 && sig == f,
                        e > 0 ==> num == (sig as nat) * c,
                ;
                lemma_pow2_adds(53, (low - 1) as nat);
                assert(num < pow2((low + 52) as nat)) by (nonlinear_arith)
                    requires
                        num == (sig as nat) * c,
                        pow2((low + 52) as nat) == 0x20_0000_0000_0000nat * c,
                        sig < 0x20_0000_0000_0000,
                        c > 0,
                ;
                if low + 52 < 949 {
                    lemma_pow2_strictly_increases((low + 52) as nat, 949);
                }
                lemma_nearest_small(num, 1);
                lemma_pow2_adds((926 - low) as nat, (low - 1) as nat);
                lemma_pow2_pos((926 - low) as nat);
                lemma_scaled(sig as nat, pow2((926 - low) as nat), c);
            }
            if low < 863 {
                proof {
                    if 926 - low > 64 {
                        lemma_pow2_strictly_increases(64, (926 - low) as nat);
                    }
                    let unit = pow2((926 - low) as nat);
                    lemma_fundamental_div_mod_converse(sig as int, unit as int, 0, sig as int);
                }
                return Single { bits: sign };
            }
            let unit = two_to((926 - low) as u32);
            proof {
                lemma_pow2_strictly_increases(29, (926 - low) as nat);
                lemma_fundamental_div_mod(sig as int, unit as int);
                assert(sig / unit < 0x100_0000) by (nonlinear_arith)
                    requires
                        sig == unit * (sig / unit) + sig % unit,
                        0 <= sig % unit,
                        sig < 0x20_0000_0000_0000,
                        unit > 0x2000_0000,
                ;
            }
            let n = round_even(sig, unit);
            Single { bits: sign + n as u32 }
        }
    }
}

/// The number halfway or nearer to `extent` units of 2^-1074, halves going up.
pub open spec fn whole(extent: nat) -> nat {
    (2 * extent + pow2(1074)) / (2 * pow2(1074))
}

/// The single nearest to `num / den`.
pub open spec fn nearest_ratio(num: nat, den: nat) -> nat {
    nearest_single(num * pow2(1074), den)
}

/// A whole number as a single.
pub open spec fn whole_single(n: nat) -> Single {
    Single { bits: nearest_ratio(n, 1) as u32 }
}

/// `n` no less than `lo` and no more than `hi`.
pub open spec fn limited(n: int, lo: int, hi: int) -> int {
    if n < lo {
        lo
    } else if n > hi {
        hi
    } else {
        n
    }
}

fn round_even_wide(num: u128, den: u128) -> (r: u128)
    requires
        den > 0,
        num / den < u128::MAX,
    ensures
        r == nearest_even(num as nat, den as nat),
{
    let q: u128 = num / den;
    let rest: u128 = num % den;
    let other: u128 = den - rest;
    if rest < other || (rest == other && q % 2 == 0) {
        q
    } else {
        q + 1
    }
}

/// The quotient of two whole numbers, rounded to single precision.
fn ratio_magnitude(num: u64, den: u64) -> (r: u32)
    requires
        0 < num < 0x100_0000_0000,
        0 < den < 0x100_0000_0000,
        num * 512 >= den,
    ensures
        r == nearest_ratio(num as nat, den as nat),
        r < SINGLE_INFINITY,
        num >= den ==> r >= 0x3f80_0000,
        num < 64 * den ==> r < 0x4300_0000,
{
    let t: u128 = (num as u128) * 0x1_0000_0000;
    let mut unit: u128 = den as u128;
    let mut p: u32 = 0;
    proof {
        lemma2_to64();
        lemma2_to64_rest();
    }
    while unit * 2 <= t
        invariant
            t < 0x100_0000_0000_0000_0000,
            unit == (den as nat) * pow2(p as nat),
            0 < unit <= t,
            den > 0,
            p < 72,
        decreases t - unit,
    {
        proof {
            vstd::arithmetic::power2::lemma_pow2_unfold((p + 1) as nat);
            assert((den as nat) * pow2((p + 1) as nat) == unit * 2) by (nonlinear_arith)
                requires
                    unit == (den as nat) * pow2(p as nat),
                    pow2((p + 1) as nat) == 2 * pow2(p as nat),
            ;
            if p == 71 {
                lemma_pow2_adds(64, 8);
                lemma2_to64();
                lemma2_to64_rest();
                assert(unit * 2 >= pow2(72)) by (nonlinear_arith)
                    requires
                        (den as nat) * pow2(72) == unit * 2,
                        den > 0,
                ;
            }
        }
        unit = unit * 2;
        p += 1;
    }
    let ghost whole_unit = unit as nat;
    proof {
        if p < 23 {
            vstd::arithmetic::power2::lemma_pow2_unfold((p + 1) as nat);
            if p + 1 < 23 {
                lemma_pow2_strictly_increases((p + 1) as nat, 23);
            }
            assert((den as nat) * pow2((p + 1) as nat) <= (den as nat) * 0x80_0000) by (nonlinear_arith)
                requires
                    pow2((p + 1) as nat) <= 0x80_0000,
            ;
            assert((den as nat) * pow2((p + 1) as nat) == unit * 2) by (nonlinear_arith)
                requires
                    unit == (den as nat) * pow2(p as nat),
                    pow2((p + 1) as nat) == 2 * pow2(p as nat),
            ;
            assert(false);
        }
        lemma_pow2_adds((p - 23) as nat, 23);
        let small = (den as nat) * pow2((p - 23) as nat);
        assert(unit == small * 0x80_0000) by (nonlinear_arith)
            requires
                unit == (den as nat) * pow2(p as nat),
                pow2(p as nat) == pow2((p - 23) as nat) * 0x80_0000,
                small == (den as nat) * pow2((p - 23) as nat),
        ;
        assert(unit / 0x80_0000 == small);
        lemma_pow2_pos((p - 23) as nat);
        assert(small > 0) by (nonlinear_arith)
            requires
                small == (den as nat) * pow2((p - 23) as nat),
                den > 0,
                pow2((p - 23) as nat) > 0,
        ;
    }
    let step: u128 = unit / 0x80_0000;
    proof {
        lemma_fundamental_div_mod(t as int, step as int);
        assert(t / step < 0x100_0000) by (nonlinear_arith)
            requires
                t == step * (t / step) + t % step,
                0 <= t % step,
                t < step * 0x100_0000,
                step > 0,
        ;
    }
    let n = round_even_wide(t, step);
    proof {
        let c = pow2(1042);
        let k = (p + 1019) as nat;
        let big = (num as nat) * pow2(1074);
        lemma_pow2_pos(1042);
        lemma_pow2_adds(32, 1042);
        assert(big == (t as nat) * c) by (nonlinear_arith)
            requires
                big == (num as nat) * pow2(1074),
                pow2(1074) == 0x1_0000_0000nat * c,
                t == num * 0x1_0000_0000,
        ;
        lemma_pow2_adds((p - 23) as nat, 1042);
        assert((den as nat) * pow2(k) == (step as nat) * c) by (nonlinear_arith)
            requires
                pow2(k) == pow2((p - 23) as nat) * c,
                step == (den as nat) * pow2((p - 23) as nat),
        ;
        lemma_pow2_adds(p as nat, 1042);
        lemma_pow2_adds((p + 1) as nat, 1042);
        vstd::arithmetic::power2::lemma_pow2_unfold((p + 1) as nat);
        assert(pow2((k + 23) as nat) * (den as nat) <= big) by (nonlinear_arith)
            requires
                pow2((k + 23) as nat) == pow2(p as nat) * c,
                big == (t as nat) * c,
                (den as nat) * pow2(p as nat) <= t,
        ;
        assert(big < pow2((k + 24) as nat) * (den as nat)) by (nonlinear_arith)
            requires
                pow2((k + 24) as nat) == pow2((p + 1) as nat) * c,
                pow2((p + 1) as nat) == 2 * pow2(p as nat),
                big == (t as nat) * c,
                t < 2 * ((den as nat) * pow2(p as nat)),
                c > 0,
        ;
        lemma_nearest_normal(big, den as nat, k);
        lemma_scaled(t as nat, step as nat, c);
        assert(t / step >= 0x80_0000) by (nonlinear_arith)
            requires
                t == step * (t / step) + t % step,
                t % step < step,
                t >= step * 0x80_0000,
                step > 0,
        ;
        if num >= den && p < 32 {
            if p + 1 < 32 {
                lemma_pow2_strictly_increases((p + 1) as nat, 32);
            }
            assert((den as nat) * pow2((p + 1) as nat) <= t) by (nonlinear_arith)
                requires
                    pow2((p + 1) as nat) <= 0x1_0000_0000,
                    t == num * 0x1_0000_0000,
                    num >= den,
            ;
            assert((den as nat) * pow2((p + 1) as nat) == unit * 2) by (nonlinear_arith)
                requires
                    unit == (den as nat) * pow2(p as nat),
                    pow2((p + 1) as nat) == 2 * pow2(p as nat),
            ;
        }
        if num < 64 * den && p >= 38 {
            if p > 38 {
                lemma_pow2_strictly_increases(38, p as nat);
            }
            assert(unit > t) by (nonlinear_arith)
                requires
                    unit == (den as nat) * pow2(p as nat),
                    pow2(p as nat) >= 0x40_0000_0000,
                    t == num * 0x1_0000_0000,
                    num < 64 * den,
            ;
        }
    }
    (p + 94) * 0x80_0000 + n as u32
}

pub(crate) proof fn lemma_quotient_scaled(a: nat, b: nat, c: nat)
    requires
        b > 0,
        c > 0,
    ensures
        (a * c) / (b * c) == a / b,
{
    let q = a / b;
    let r = a % b;
    lemma_fundamental_div_mod(a as int, b as int);
    assert(a * c == q * (b * c) + r * c) by (nonlinear_arith)
        requires
            a == b * q + r,
    ;
    assert(0 <= r * c < b * c) by (nonlinear_arith)
        requires
            0 <= r < b,
            c > 0,
    ;
    lemma_fundamental_div_mod_converse((a * c) as int, (b * c) as int, q as int, (r * c) as int);
}

/// The whole number nearest to a magnitude, or 128 for one that is 128 or more.
fn whole_of(magnitude: u32) -> (r: u32)
    requires
        magnitude < SINGLE_INFINITY,
    ensures
        magnitude < 0x4300_0000 ==> r == whole(single_extent(magnitude as nat)),
        magnitude >= 0x4300_0000 ==> r == 128 && whole(single_extent(magnitude as nat)) >= 128,
        magnitude >= 0x3f80_0000 ==> r >= 1,
        r <= 128,
{
    let e: u32 = magnitude / 0x80_0000;
    let f: u32 = magnitude % 0x80_0000;
    let ghost extent = single_extent(magnitude as nat);
    proof {
        lemma2_to64();
        lemma2_to64_rest();
        vstd::arithmetic::power2::lemma_pow2_unfold(1074);
        vstd::arithmetic::power2::lemma_pow2_unfold(1075);
        lemma_pow2_pos(1073);
    }
    if e < 126 {
        proof {
            let c = if e == 0 {
                pow2(925)
            } else {
                pow2((e + 924) as nat)
            };
            lemma_pow2_pos(925);
            lemma_pow2_pos((e + 924) as nat);
            assert(extent < 0x100_0000 * c) by (nonlinear_arith)
                requires
                    extent == (f as nat) * c || extent == (f + 0x80_0000) * c,
                    f < 0x80_0000,
                    c > 0,
            ;
            if e == 0 {
                lemma_pow2_adds(24, 925);
                lemma_pow2_strictly_increases(949, 1073);
            } else {
                lemma_pow2_adds(24, (e + 924) as nat);
                if e < 125 {
                    lemma_pow2_strictly_increases((e + 948) as nat, 1073);
                }
            }
            assert(whole(extent) == 0) by {
                lemma_fundamental_div_mod_converse(
                    (2 * extent + pow2(1074)) as int,
                    (2 * pow2(1074)) as int,
                    0,
                    (2 * extent + pow2(1074)) as int,
                );
            }
        }
        return 0;
    }
    let m: u32 = f + 0x80_0000;
    if e >= 134 {
        proof {
            let c = pow2((e + 924) as nat);
            lemma_pow2_pos((e + 924) as nat);
            assert(extent >= 0x80_0000 * c) by (nonlinear_arith)
                requires
                    extent == (m as nat) * c,
                    m >= 0x80_0000,
            ;
            lemma_pow2_adds(23, (e + 924) as nat);
            if e > 134 {
                lemma_pow2_strictly_increases(1081, (e + 947) as nat);
            }
            lemma_pow2_adds(7, 1074);
            let x = 2 * extent + pow2(1074);
            let d = 2 * pow2(1074);
            lemma_fundamental_div_mod(x as int, d as int);
            assert(x / d >= 128) by (nonlinear_arith)
                requires
                    x == d * (x / d) + x % d,
                    x % d < d,
                    x >= 128 * d,
                    d > 0,
            ;
        }
        return 128;
    }
    let half = two_to(149 - e);
    let unit = two_to(150 - e);
    proof {
        lemma_pow2_strictly_increases((149 - e) as nat, 24);
        lemma_pow2_strictly_increases((150 - e) as nat, 25);
        let c = pow2((e + 925) as nat);
        lemma_pow2_pos((e + 925) as nat);
        vstd::arithmetic::power2::lemma_pow2_unfold((e + 925) as nat);
        lemma_pow2_adds((149 - e) as nat, (e + 925) as nat);
        lemma_pow2_adds((150 - e) as nat, (e + 925) as nat);
        let a = (m as nat) + (half as nat);
        assert(2 * extent + pow2(1074) == a * c) by (nonlinear_arith)
            requires
                extent == (m as nat) * pow2((e + 924) as nat),
                c == 2 * pow2((e + 924) as nat),
                pow2(1074) == (half as nat) * c,
                a == (m as nat) + (half as nat),
        ;
        lemma_quotient_scaled(a, unit as nat, c);
    }
    let total: u64 = m as u64 + half;
    let r: u64 = total / unit;
    proof {
        if e < 133 {
            lemma_pow2_strictly_increases(16, (149 - e) as nat);
        }
        vstd::arithmetic::power2::lemma_pow2_unfold((150 - e) as nat);
        lemma_fundamental_div_mod(total as int, unit as int);
        assert(r <= 128) by (nonlinear_arith)
            requires
                total == unit * r + total % unit,
                0 <= total % unit,
                total < unit * 129,
                unit > 0,
        ;
        if e >= 127 {
            if e > 127 {
                lemma_pow2_strictly_increases((150 - e) as nat, 23);
            }
            assert(r >= 1) by (nonlinear_arith)
                requires
                    total == unit * r + total % unit,
                    total % unit < unit,
                    total >= unit,
            ;
        }
    }
    r as u32
}

impl Single {
    /// The nearest whole number, halves going away from zero.
    pub open spec fn rounded(self) -> int {
        if self.negative() {
            -(whole(self.extent()) as int)
        } else {
            whole(self.extent()) as int
        }
    }

    /// The number kept between two numbers above zero.
    pub open spec fn kept_between(self, lo: Single, hi: Single) -> Single {
        if self.negative() || self.bits < lo.bits {
            lo
        } else if self.bits > hi.bits {
            hi
        } else {
            self
        }
    }

    /// `clamp` for limits above zero: positive numbers grow with their bits.
    pub fn clamped(self, lo: Single, hi: Single) -> (r: Single)
        requires
            lo.bits <= hi.bits < SINGLE_INFINITY,
            self.finite(),
        ensures
            r == self.kept_between(lo, hi),
    {
        if self.bits >= 0x8000_0000 || self.bits < lo.bits {
            lo
        } else if self.bits > hi.bits {
            hi
        } else {
            self
        }
    }

    /// Rounded to a whole number, then kept between two whole numbers.
    pub fn rounded_within(self, lo: u32, hi: u32) -> (r: Single)
        requires
            self.finite(),
            lo <= hi < 128,
        ensures
            r == whole_single(limited(self.rounded(), lo as int, hi as int) as nat),
    {
        let n = whole_of(self.bits % 0x8000_0000);
        let kept: u32 = if self.bits >= 0x8000_0000 || n < lo {
            lo
        } else if n > hi {
            hi
        } else {
            n
        };
        Single { bits: magnitude_of(kept as u64) }
    }
}

pub(crate) proof fn lemma_nearest_scaled(num: nat, den: nat, c: nat)
    requires
        den > 0,
        c > 0,
    ensures
        nearest_single(num * c, den * c) == nearest_single(num, den),
{
    lemma_quotient_scaled(num, den, c);
    let k = single_step(num, den);
    lemma_pow2_pos(k);
    assert(den * pow2(k) > 0) by (nonlinear_arith)
        requires
            den > 0,
            pow2(k) > 0,
    ;
    assert((den * c) * pow2(k) == (den * pow2(k)) * c) by (nonlinear_arith);
    lemma_scaled(num, den * pow2(k), c);
}

/// A number between a half and two as a multiple of 2^-24.
fn fraction_units(s: Single) -> (w: u64)
    requires
        0x3f00_0000 <= s.bits <= 0x4000_0000,
    ensures
        0x80_0000 <= w <= 0x200_0000,
        s.extent() == (w as nat) * pow2(1050),
{
    let e: u32 = s.bits / 0x80_0000;
    let m: u64 = (s.bits % 0x80_0000) as u64 + 0x80_0000;
    proof {
        vstd::arithmetic::power2::lemma_pow2_unfold(1051);
        vstd::arithmetic::power2::lemma_pow2_unfold(1052);
    }
    if e == 126 {
        m
    } else if e == 127 {
        proof {
            assert((m as nat) * pow2(1051) == (2 * m) * pow2(1050)) by (nonlinear_arith)
                requires
                    pow2(1051) == 2 * pow2(1050),
            ;
        }
        2 * m
    } else {
        proof {
            assert((m as nat) * pow2(1052) == (4 * m) * pow2(1050)) by (nonlinear_arith)
                requires
                    pow2(1052) == 4 * pow2(1050),
            ;
        }
        4 * m
    }
}

/// The magnitude of a quotient of two singles.
pub open spec fn quotient(a: Single, b: Single) -> nat {
    nearest_single(a.extent() * pow2(1074), b.extent())
}

/// The magnitude of a single times a whole number.
pub open spec fn product(a: Single, n: nat) -> nat {
    nearest_single(a.extent() * n, 1)
}

/// A twentieth, as near as a single comes to it.
pub const TWENTIETH: u32 = 0x3d4c_cccd;

/// How often a twentieth goes into a number between a half and two: the quotient in single
/// precision, rounded to a whole number.
pub fn twentieths(s: Single) -> (n: u32)
    requires
        0x3f00_0000 <= s.bits <= 0x4000_0000,
    ensures
        n == whole(single_extent(quotient(s, (Single { bits: TWENTIETH })))),
        0 < n <= 128,
{
    let w = fraction_units(s);
    let bits = ratio_magnitude(w * 16, 13421773);
    proof {
        lemma2_to64();
        let c = pow2(1046);
        let b = Single { bits: TWENTIETH };
        assert(TWENTIETH % 0x8000_0000 == 0x3d4c_cccd);
        assert(b.extent() == 13421773 * c);
        lemma_pow2_pos(1046);
        lemma_pow2_adds(4, 1046);
        let big = (w as nat) * 16 * pow2(1074);
        assert(s.extent() * pow2(1074) == big * c) by (nonlinear_arith)
            requires
                s.extent() == (w as nat) * pow2(1050),
                pow2(1050) == 16 * c,
                big == (w as nat) * 16 * pow2(1074),
        ;
        lemma_nearest_scaled(big, 13421773, c);
        assert(bits == quotient(s, b));
    }
    whole_of(bits)
}

/// A number between a half and two times twenty, rounded to a whole number.
pub fn times_twenty(s: Single) -> (n: u32)
    requires
        0x3f00_0000 <= s.bits <= 0x4000_0000,
    ensures
        n == whole(single_extent(product(s, 20))),
        0 < n <= 128,
{
    let w = fraction_units(s);
    let bits = ratio_magnitude(w * 20, 0x100_0000);
    proof {
        lemma2_to64();
        let c = pow2(1050);
        lemma_pow2_pos(1050);
        lemma_pow2_adds(24, 1050);
        let big = (w as nat) * 20;
        assert(big * pow2(1074) == (s.extent() * 20) * 0x100_0000) by (nonlinear_arith)
            requires
                s.extent() == (w as nat) * c,
                pow2(1074) == 0x100_0000 * c,
                big == (w as nat) * 20,
        ;
        lemma_nearest_scaled(s.extent() * 20, 1, 0x100_0000);
    }
    whole_of(bits)
}

/// A number of twentieths as the nearest single.
pub fn of_twentieths(n: u32) -> (r: Single)
    requires
        0 < n <= 128,
    ensures
        r == (Single { bits: nearest_ratio(n as nat, 20) as u32 }),
{
    Single { bits: ratio_magnitude(n as u64, 20) }
}

/// Rounding a value that a single holds exactly gives that single back.
pub proof fn lemma_single_exact(magnitude: nat)
    requires
        magnitude < SINGLE_INFINITY,
    ensures
        nearest_single(single_extent(magnitude), 1) == magnitude,
{
    let e = magnitude / 0x80_0000;
    let f = magnitude % 0x80_0000;
    let extent = single_extent(magnitude);
    lemma2_to64();
    if e == 0 {
        let c = pow2(925);
        lemma_pow2_pos(925);
        lemma_pow2_adds(24, 925);
        assert(extent < pow2(949)) by (nonlinear_arith)
            requires
                extent == f * c,
                f < 0x80_0000,
                pow2(949) == 0x100_0000 * c,
                c > 0,
        ;
        lemma_nearest_small(extent, 1);
        lemma_scaled(f, 1, c);
        assert(nearest_even(f, 1) == f);
    } else {
        let k = (e + 924) as nat;
        let m = (f + 0x80_0000) as nat;
        let c = pow2(k);
        lemma_pow2_pos(k);
        lemma_pow2_adds(23, k);
        lemma_pow2_adds(24, k);
        assert(0x80_0000 * c <= extent < 0x100_0000 * c) by (nonlinear_arith)
            requires
                extent == m * c,
                0x80_0000 <= m < 0x100_0000,
                c > 0,
        ;
        lemma_nearest_normal(extent, 1, k);
        lemma_scaled(m, 1, c);
        assert(nearest_even(m, 1) == m);
    }
}

impl Single {
    /// The double with the same value; infinity stays infinity, and what is not a number stays
    /// none.
    pub open spec fn wide(self) -> Double {
        let e = self.magnitude() / 0x80_0000;
        let f = self.magnitude() % 0x80_0000;
        let sign: int = if self.negative() {
            0x8000_0000_0000_0000
        } else {
            0
        };
        let bits: int = if e == 0 && f == 0 {
            0
        } else if e == 0 {
            (873 + bit_length(f)) * 0x10_0000_0000_0000 + (f * pow2((53 - bit_length(f)) as nat)
                - 0x10_0000_0000_0000)
        } else if e == 255 {
            (DOUBLE_INFINITY + f * 0x2000_0000) as int
        } else {
            ((e + 896) * 0x10_0000_0000_0000 + f * 0x2000_0000) as int
        };
        Double { bits: (sign + bits) as u64 }
    }

    pub fn widened(self) -> (r: Double)
        ensures
            r == self.wide(),
    {
        let sign: u64 = if self.bits >= 0x8000_0000 {
            0x8000_0000_0000_0000
        } else {
            0
        };
        let magnitude: u32 = self.bits % 0x8000_0000;
        let e: u32 = magnitude / 0x80_0000;
        let f: u32 = magnitude % 0x80_0000;
        if e == 0 && f == 0 {
            return Double { bits: sign };
        }
        if e == 0 {
            let j = highest_digit(f as u64);
            proof {
                lemma2_to64();
                lemma_subnormal(f as nat, j as nat);
            }
            let up = two_to(52 - j);
            let sig: u64 = (f as u64) * up;
            let bits: u64 = (874 + j as u64) * 0x10_0000_0000_0000 + (sig - 0x10_0000_0000_0000);
            return Double { bits: sign + bits };
        }
        if e == 255 {
            return Double { bits: sign + DOUBLE_INFINITY + (f as u64) * 0x2000_0000 };
        }
        let bits: u64 = (e as u64 + 896) * 0x10_0000_0000_0000 + (f as u64) * 0x2000_0000;
        Double { bits: sign + bits }
    }
}

proof fn lemma_subnormal(f: nat, j: nat)
    requires
        f < 0x80_0000,
        pow2(j) <= f < pow2(j + 1),
    ensures
        j < 23,
        bit_length(f) == j + 1,
        0x10_0000_0000_0000 <= f * pow2((52 - j) as nat) < 0x20_0000_0000_0000,
        f * pow2(925) == (f * pow2((52 - j) as nat)) * pow2((873 + j) as nat),
{
    lemma2_to64();
    lemma2_to64_rest();
    lemma_bit_length(f, j);
    if j > 23 {
        lemma_pow2_strictly_increases(23, j);
    }
    let up = pow2((52 - j) as nat);
    lemma_pow2_pos((52 - j) as nat);
    lemma_pow2_adds(j, (52 - j) as nat);
    lemma_pow2_adds(j + 1, (52 - j) as nat);
    assert(0x10_0000_0000_0000 <= f * up < 0x20_0000_0000_0000) by (nonlinear_arith)
        requires
            pow2(j) <= f < pow2(j + 1),
            0x10_0000_0000_0000 == pow2(j) * up,
            0x20_0000_0000_0000 == pow2(j + 1) * up,
            up > 0,
    ;
    lemma_pow2_adds((52 - j) as nat, (873 + j) as nat);
    let g = pow2((873 + j) as nat);
    assert(f * pow2(925) == (f * up) * g) by (nonlinear_arith)
        requires
            pow2(925) == up * g,
    ;
}

/// A number above zero lies between two neighbouring powers of two.
proof fn lemma_highest_digit(f: nat) -> (j: nat)
    requires
        f > 0,
    ensures
        pow2(j) <= f < pow2(j + 1),
    decreases f,
{
    lemma2_to64();
    if f == 1 {
        0
    } else {
        let i = lemma_highest_digit(f / 2);
        vstd::arithmetic::power2::lemma_pow2_unfold(i + 1);
        vstd::arithmetic::power2::lemma_pow2_unfold(i + 2);
        i + 1
    }
}

/// Widening keeps the value.
pub proof fn lemma_wide(s: Single)
    requires
        s.finite(),
    ensures
        s.wide().finite(),
        s.wide().negative() == s.negative(),
        s.wide().extent() == s.extent(),
{
    let e = s.magnitude() / 0x80_0000;
    let f = s.magnitude() % 0x80_0000;
    let d = s.wide();
    lemma2_to64();
    if e == 0 && f == 0 {
    } else if e == 0 {
        let j = lemma_highest_digit(f);
        lemma_subnormal(f, j);
        let sig = f * pow2((52 - j) as nat);
        let bits = (874 + j) * 0x10_0000_0000_0000 + (sig - 0x10_0000_0000_0000);
        assert(d.magnitude() == bits);
        assert(d.magnitude() / 0x10_0000_0000_0000 == 874 + j);
        assert(d.magnitude() % 0x10_0000_0000_0000 == sig - 0x10_0000_0000_0000);
    } else {
        let bits = (e + 896) * 0x10_0000_0000_0000 + f * 0x2000_0000;
        assert(d.magnitude() == bits);
        assert(d.magnitude() / 0x10_0000_0000_0000 == e + 896);
        assert(d.magnitude() % 0x10_0000_0000_0000 == f * 0x2000_0000);
        lemma_pow2_adds(29, (e + 895) as nat);
        let g = pow2((e + 895) as nat);
        assert((f + 0x80_0000) * pow2((e + 924) as nat) == (f * 0x2000_0000 + 0x10_0000_0000_0000)
            * g) by (nonlinear_arith)
            requires
                pow2((e + 924) as nat) == 0x2000_0000 * g,
        ;
    }
}

/// A single survives widening and narrowing.
pub proof fn lemma_widened_narrows_back(s: Single)
    requires
        s.finite(),
    ensures
        s.wide().finite(),
        s.wide().narrow() == s,
{
    lemma_wide(s);
    lemma_single_exact(s.magnitude());
}

/// A whole number below 2^24 is a single exactly.
pub proof fn lemma_whole_single(n: nat)
    requires
        0 < n < 0x100_0000,
    ensures
        whole_single(n).finite(),
        !whole_single(n).negative(),
        whole_single(n).extent() == n * pow2(1074),
        whole_single(n).rounded() == n,
{
    let k = lemma_highest_digit(n);
    lemma2_to64();
    if k > 24 {
        lemma_pow2_strictly_increases(24, k);
    }
    lemma_whole_bits(n, k);
}

/// The bits of a whole number whose highest binary digit is known.
pub proof fn lemma_whole_bits(n: nat, k: nat)
    requires
        k < 24,
        pow2(k) <= n < pow2(k + 1),
    ensures
        whole_single(n).bits == (k + 126) * 0x80_0000 + n * pow2((23 - k) as nat),
        whole_single(n).finite(),
        !whole_single(n).negative(),
        whole_single(n).extent() == n * pow2(1074),
        whole_single(n).rounded() == n,
{
    lemma2_to64();
    let num = n * pow2(1074);
    let unit = pow2(1074);
    lemma_pow2_pos(1074);
    lemma_pow2_adds(k, 1074);
    lemma_pow2_adds(k + 1, 1074);
    assert(pow2((k + 1074) as nat) <= num < pow2((k + 1075) as nat)) by (nonlinear_arith)
        requires
            num == n * unit,
            pow2((k + 1074) as nat) == pow2(k) * unit,
            pow2((k + 1075) as nat) == pow2(k + 1) * unit,
            pow2(k) <= n < pow2(k + 1),
            unit > 0,
    ;
    lemma_nearest_normal(num, 1, (k + 1051) as nat);
    let up = pow2((23 - k) as nat);
    let c = pow2((k + 1051) as nat);
    lemma_pow2_pos((k + 1051) as nat);
    lemma_pow2_adds((23 - k) as nat, (k + 1051) as nat);
    lemma_pow2_adds(k, (23 - k) as nat);
    lemma_pow2_adds(k + 1, (23 - k) as nat);
    lemma_pow2_pos((23 - k) as nat);
    let m = n * up;
    assert(num == m * c) by (nonlinear_arith)
        requires
            num == n * unit,
            unit == up * c,
            m == n * up,
    ;
    assert(0x80_0000 <= m < 0x100_0000) by (nonlinear_arith)
        requires
            m == n * up,
            0x80_0000 == pow2(k) * up,
            0x100_0000 == pow2(k + 1) * up,
            pow2(k) <= n < pow2(k + 1),
            up > 0,
    ;
    lemma_scaled(m, 1, c);
    assert(nearest_even(m, 1) == m);
    let s = whole_single(n);
    assert(s.bits == (k + 126) * 0x80_0000 + m);
    assert(s.magnitude() / 0x80_0000 == k + 127);
    assert(s.magnitude() % 0x80_0000 == m - 0x80_0000);
    assert(whole(num) == n) by {
        assert(2 * num + unit == n * (2 * unit) + unit) by (nonlinear_arith)
            requires
                num == n * unit,
        ;
        lemma_fundamental_div_mod_converse(
            (2 * num + unit) as int,
            (2 * unit) as int,
            n as int,
            unit as int,
        );
    }
}

/// Whole numbers keep their order as singles.
pub proof fn lemma_whole_single_grows(a: nat, b: nat)
    requires
        0 < a <= b < 0x100_0000,
    ensures
        whole_single(a).bits <= whole_single(b).bits,
        a < b ==> whole_single(a).bits < whole_single(b).bits,
{
    lemma_whole_single(a);
    lemma_whole_single(b);
    let x = whole_single(a).magnitude();
    let y = whole_single(b).magnitude();
    if x > y {
        lemma_extent_grows(y, x);
    }
    if x == y && a < b {
        lemma_pow2_pos(1074);
        assert(a * pow2(1074) < b * pow2(1074)) by (nonlinear_arith)
            requires
                a < b,
                pow2(1074) > 0,
        ;
    }
    if x > y {
        assert(a * pow2(1074) <= b * pow2(1074)) by (nonlinear_arith)
            requires
                a <= b,
        ;
    }
}

/// Larger magnitudes are larger numbers.
pub proof fn lemma_extent_grows(x: nat, y: nat)
    requires
        x < y < SINGLE_INFINITY,
    ensures
        single_extent(x) < single_extent(y),
{
    let (e, f) = (x / 0x80_0000, x % 0x80_0000);
    let (g, h) = (y / 0x80_0000, y % 0x80_0000);
    lemma2_to64();
    let low = if e == 0 {
        pow2(925)
    } else {
        pow2((e + 924) as nat)
    };
    let m = if e == 0 {
        f
    } else {
        (f + 0x80_0000) as nat
    };
    lemma_pow2_pos(925);
    lemma_pow2_pos((e + 924) as nat);
    if e == g {
        let k = if g == 0 {
            h
        } else {
            (h + 0x80_0000) as nat
        };
        assert(m * low < k * low) by (nonlinear_arith)
            requires
                m < k,
                low > 0,
        ;
    } else {
        let high = pow2((g + 924) as nat);
        if e == 0 {
            assert(m * low < 0x80_0000 * low) by (nonlinear_arith)
                requires
                    m < 0x80_0000,
                    low > 0,
            ;
            if g > 1 {
                lemma_pow2_strictly_increases(925, (g + 924) as nat);
            }
        } else {
            assert(m * low < 0x100_0000 * low) by (nonlinear_arith)
                requires
                    m < 0x100_0000,
                    low > 0,
            ;
            vstd::arithmetic::power2::lemma_pow2_unfold((e + 925) as nat);
            if g > e + 1 {
                lemma_pow2_strictly_increases((e + 925) as nat, (g + 924) as nat);
            }
        }
        assert(0x80_0000 * high <= (h + 0x80_0000) * high) by (nonlinear_arith)
            requires
                h >= 0,
                high >= 0,
        ;
    }
}

} // verus!
