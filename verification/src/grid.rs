//! Scales and widths on their grid of a twentieth: what the repair of the settings does to them.

use vstd::prelude::*;
use vstd::arithmetic::div_mod::lemma_fundamental_div_mod;
use vstd::arithmetic::power2::lemma2_to64;
use vstd::arithmetic::power2::lemma_pow2_adds;
use vstd::arithmetic::power2::lemma_pow2_pos;
use vstd::arithmetic::power2::pow2;

use crate::number::lemma_nearest_normal;
use crate::number::lemma_nearest_scaled;
use crate::number::lemma_quotient_scaled;
use crate::number::lemma_scaled;
use crate::number::nearest_even;
use crate::number::nearest_ratio;
use crate::number::product;
use crate::number::quotient;
use crate::number::single_extent;
use crate::number::whole;
use crate::number::Single;
use crate::number::TWENTIETH;
use crate::settings::in_twentieths;
use crate::settings::scale_steps;
use crate::settings::width_steps;
use crate::settings::MAX_SCALE;
use crate::settings::MAX_WIDTH_SCALE;
use crate::settings::MIN_SCALE;
use crate::settings::MIN_WIDTH_SCALE;
use crate::settings::ONE;

verus! {

/// A rounded quotient is no more than a half away from the exact one.
proof fn lemma_half_away(num: nat, den: nat)
    requires
        den > 0,
    ensures
        2 * num - den <= 2 * (nearest_even(num, den) * den) <= 2 * num + den,
{
    let q = num / den;
    let r = num % den;
    lemma_fundamental_div_mod(num as int, den as int);
    assert(den * q == q * den) by (nonlinear_arith);
    assert((q + 1) * den == q * den + den) by (nonlinear_arith);
}

/// The magnitude of a number of the form `m` times a power of two, and its nearest whole number.
proof fn lemma_normal_value(m: nat, k: nat, bits: nat)
    requires
        0x80_0000 <= m <= 0x100_0000,
        925 <= k < 1074,
        bits == (k - 925) * 0x80_0000 + m,
    ensures
        single_extent(bits) == m * pow2(k),
        whole(single_extent(bits)) == (2 * m + pow2((1074 - k) as nat)) / (2 * pow2(
            (1074 - k) as nat,
        )),
{
    lemma2_to64();
    if m == 0x100_0000 {
        assert(bits / 0x80_0000 == k - 923);
        assert(bits % 0x80_0000 == 0);
        vstd::arithmetic::power2::lemma_pow2_unfold((k + 1) as nat);
        assert(0x80_0000 * pow2((k + 1) as nat) == m * pow2(k)) by (nonlinear_arith)
            requires
                pow2((k + 1) as nat) == 2 * pow2(k),
                m == 0x100_0000,
        ;
    } else {
        assert(bits / 0x80_0000 == k - 924);
        assert(bits % 0x80_0000 == m - 0x80_0000);
    }
    let c = pow2(k);
    let unit = pow2((1074 - k) as nat);
    lemma_pow2_pos(k);
    lemma_pow2_pos((1074 - k) as nat);
    lemma_pow2_adds((1074 - k) as nat, k);
    let extent = m * c;
    assert(2 * extent + pow2(1074) == (2 * m + unit) * c) by (nonlinear_arith)
        requires
            extent == m * c,
            pow2(1074) == unit * c,
    ;
    assert(2 * pow2(1074) == (2 * unit) * c) by (nonlinear_arith)
        requires
            pow2(1074) == unit * c,
    ;
    lemma_quotient_scaled(2 * m + unit, 2 * unit, c);
}

/// The nearest single to `num / den`, where the quotient lies between two neighbouring powers of
/// two.
proof fn lemma_ratio(num: nat, den: nat, k: nat, m: nat, up: nat)
    requires
        den > 0,
        925 <= k < 1074,
        up == pow2((1074 - k) as nat),
        0x80_0000 * den <= num * up < 0x100_0000 * den,
        m == nearest_even(num * up, den),
    ensures
        nearest_ratio(num, den) == (k - 925) * 0x80_0000 + m,
        0x80_0000 <= m <= 0x100_0000,
{
    lemma2_to64();
    let c = pow2(k);
    let big = num * pow2(1074);
    lemma_pow2_pos(k);
    lemma_pow2_adds((1074 - k) as nat, k);
    lemma_pow2_adds(23, k);
    lemma_pow2_adds(24, k);
    assert(big == (num * up) * c) by (nonlinear_arith)
        requires
            big == num * pow2(1074),
            pow2(1074) == up * c,
    ;
    assert(pow2((k + 23) as nat) * den <= big < pow2((k + 24) as nat) * den) by (nonlinear_arith)
        requires
            big == (num * up) * c,
            pow2((k + 23) as nat) == 0x80_0000 * c,
            pow2((k + 24) as nat) == 0x100_0000 * c,
            0x80_0000 * den <= num * up < 0x100_0000 * den,
            c > 0,
    ;
    lemma_nearest_normal(big, den, k);
    lemma_scaled(num * up, den, c);
    let q = (num * up) / den;
    lemma_fundamental_div_mod((num * up) as int, den as int);
    assert(0x80_0000 <= q < 0x100_0000) by (nonlinear_arith)
        requires
            num * up == den * q + (num * up) % den,
            0 <= (num * up) % den < den,
            0x80_0000 * den <= num * up < 0x100_0000 * den,
            den > 0,
    ;
}

/// A number of twentieths as a multiple of 2^-24.
pub open spec fn fine(n: nat) -> nat {
    if n < 20 {
        nearest_even(n * 0x100_0000, 20)
    } else if n < 40 {
        2 * nearest_even(n * 0x80_0000, 20)
    } else {
        0x200_0000
    }
}

/// The bits and the value of a number of twentieths between a half and two.
proof fn lemma_in_twentieths(n: nat)
    requires
        10 <= n <= 40,
    ensures
        in_twentieths(n).extent() == fine(n) * pow2(1050),
        MIN_SCALE <= in_twentieths(n).bits <= MAX_SCALE,
        16 <= n <= 30 ==> MIN_WIDTH_SCALE <= in_twentieths(n).bits <= MAX_WIDTH_SCALE,
        n * 0x100_0000 - 20 <= 20 * fine(n) <= n * 0x100_0000 + 20,
        0x80_0000 <= fine(n) <= 0x200_0000,
        n == 20 ==> in_twentieths(n).bits == ONE,
{
    lemma2_to64();
    let s = in_twentieths(n);
    vstd::arithmetic::power2::lemma_pow2_unfold(1051);
    vstd::arithmetic::power2::lemma_pow2_unfold(1052);
    let g = pow2(1050);
    if n < 20 {
        let m = nearest_even(n * 0x100_0000, 20);
        lemma_half_away(n * 0x100_0000, 20);
        lemma_ratio(n, 20, 1050, m, 0x100_0000);
        lemma_normal_value(m, 1050, nearest_ratio(n, 20));
    } else if n < 40 {
        let m = nearest_even(n * 0x80_0000, 20);
        lemma_half_away(n * 0x80_0000, 20);
        lemma_ratio(n, 20, 1051, m, 0x80_0000);
        lemma_normal_value(m, 1051, nearest_ratio(n, 20));
        assert(m * pow2(1051) == (2 * m) * g) by (nonlinear_arith)
            requires
                pow2(1051) == 2 * g,
        ;
    } else {
        let m = nearest_even(n * 0x40_0000, 20);
        lemma_half_away(n * 0x40_0000, 20);
        lemma_ratio(n, 20, 1052, m, 0x40_0000);
        lemma_normal_value(m, 1052, nearest_ratio(n, 20));
        assert(m * pow2(1052) == (4 * m) * g) by (nonlinear_arith)
            requires
                pow2(1052) == 4 * g,
        ;
    }
}

/// Every number between a half and two is a multiple of 2^-24.
proof fn lemma_fine_value(s: Single) -> (w: nat)
    requires
        0x3f00_0000 <= s.bits <= 0x4000_0000,
    ensures
        0x80_0000 <= w <= 0x200_0000,
        s.extent() == w * pow2(1050),
        s.bits >= MIN_WIDTH_SCALE ==> w >= 13421773,
        s.bits <= MAX_WIDTH_SCALE ==> w <= 25165824,
{
    let e = s.bits / 0x80_0000;
    let m = (s.bits % 0x80_0000 + 0x80_0000) as nat;
    let g = pow2(1050);
    vstd::arithmetic::power2::lemma_pow2_unfold(1051);
    vstd::arithmetic::power2::lemma_pow2_unfold(1052);
    if e == 126 {
        m
    } else if e == 127 {
        assert(m * pow2(1051) == (2 * m) * g) by (nonlinear_arith)
            requires
                pow2(1051) == 2 * g,
        ;
        2 * m
    } else {
        assert(m * pow2(1052) == (4 * m) * g) by (nonlinear_arith)
            requires
                pow2(1052) == 4 * g,
        ;
        4 * m
    }
}

/// How many twentieths go into a multiple of 2^-24.
proof fn lemma_steps(s: Single, w: nat, n: nat)
    requires
        0x80_0000 <= w <= 0x200_0000,
        s.extent() == w * pow2(1050),
        n == whole(single_extent(quotient(s, Single { bits: TWENTIETH }))),
    ensures
        10 <= n <= 40,
        forall|k: nat|
            10 <= k <= 40 && k * 0x100_0000 - 20 <= 20 * w <= #[trigger] (k * 0x100_0000) + 20
                ==> n == k,
{
    lemma2_to64();
    let c = pow2(1046);
    let b = Single { bits: TWENTIETH };
    let big = w * 16 * pow2(1074);
    assert(TWENTIETH % 0x8000_0000 == 0x3d4c_cccd);
    assert(b.extent() == 13421773 * c);
    lemma_pow2_pos(1046);
    lemma_pow2_adds(4, 1046);
    assert(s.extent() * pow2(1074) == big * c) by (nonlinear_arith)
        requires
            s.extent() == w * pow2(1050),
            pow2(1050) == 16 * c,
            big == w * 16 * pow2(1074),
    ;
    lemma_nearest_scaled(big, 13421773, c);
    let num = w * 16;
    let den: nat = 13421773;
    assert(quotient(s, b) == nearest_ratio(num, den));
    if w < 13421773 {
        let m = nearest_even(num * 0x10_0000, den);
        lemma_half_away(num * 0x10_0000, den);
        lemma_ratio(num, den, 1054, m, 0x10_0000);
        lemma_normal_value(m, 1054, nearest_ratio(num, den));
        assert(n == (2 * m + 0x10_0000) / 0x20_0000);
    } else if w < 26843546 {
        let m = nearest_even(num * 0x8_0000, den);
        lemma_half_away(num * 0x8_0000, den);
        lemma_ratio(num, den, 1055, m, 0x8_0000);
        lemma_normal_value(m, 1055, nearest_ratio(num, den));
        assert(n == (2 * m + 0x8_0000) / 0x10_0000);
    } else {
        let m = nearest_even(num * 0x4_0000, den);
        lemma_half_away(num * 0x4_0000, den);
        lemma_ratio(num, den, 1056, m, 0x4_0000);
        lemma_normal_value(m, 1056, nearest_ratio(num, den));
        assert(n == (2 * m + 0x4_0000) / 0x8_0000);
    }
}

/// How many twentieths a width holds.
proof fn lemma_width(s: Single, w: nat, n: nat)
    requires
        13421773 <= w <= 25165824,
        s.extent() == w * pow2(1050),
        n == whole(single_extent(product(s, 20))),
    ensures
        16 <= n <= 30,
        forall|k: nat|
            10 <= k <= 40 && k * 0x100_0000 - 20 <= 20 * w <= #[trigger] (k * 0x100_0000) + 20
                ==> n == k,
{
    lemma2_to64();
    let c = pow2(1050);
    lemma_pow2_pos(1050);
    lemma_pow2_adds(24, 1050);
    let num = w * 20;
    assert(num * pow2(1074) == (s.extent() * 20) * 0x100_0000) by (nonlinear_arith)
        requires
            s.extent() == w * c,
            pow2(1074) == 0x100_0000 * c,
            num == w * 20,
    ;
    lemma_nearest_scaled(s.extent() * 20, 1, 0x100_0000);
    let den: nat = 0x100_0000;
    assert(product(s, 20) == nearest_ratio(num, den));
    let m = nearest_even(num * 0x8_0000, den);
    lemma_half_away(num * 0x8_0000, den);
    lemma_ratio(num, den, 1055, m, 0x8_0000);
    lemma_normal_value(m, 1055, nearest_ratio(num, den));
    assert(n == (2 * m + 0x8_0000) / 0x10_0000);
}

/// A scale lands on the grid, between its limits, and stays there.
pub proof fn law_scale_settles(scale: Single)
    requires
        scale.finite(),
    ensures
        10 <= scale_steps(scale) <= 40,
        scale_steps(in_twentieths(scale_steps(scale))) == scale_steps(scale),
        in_twentieths(scale_steps(scale)).finite(),
        scale_steps(Single { bits: ONE }) == 20,
        in_twentieths(20) == (Single { bits: ONE }),
{
    let lo = Single { bits: MIN_SCALE };
    let hi = Single { bits: MAX_SCALE };
    let kept = scale.kept_between(lo, hi);
    let w = lemma_fine_value(kept);
    let n = scale_steps(scale);
    lemma_steps(kept, w, n);
    lemma_in_twentieths(n);
    let back = in_twentieths(n);
    assert(back.kept_between(lo, hi) == back);
    lemma_steps(back, fine(n), scale_steps(back));
    assert(n * 0x100_0000 - 20 <= 20 * fine(n) <= (n * 0x100_0000) + 20);
    let one = Single { bits: ONE };
    lemma_in_twentieths(20);
    assert(one.kept_between(lo, hi) == one);
    lemma_steps(one, fine(20), scale_steps(one));
    assert(20 * 0x100_0000 - 20 <= 20 * fine(20) <= (20nat * 0x100_0000) + 20);
}

/// A width lands on the grid, between its limits, and stays there.
pub proof fn law_width_settles(width: Single)
    requires
        width.finite(),
    ensures
        16 <= width_steps(width) <= 30,
        width_steps(in_twentieths(width_steps(width))) == width_steps(width),
        in_twentieths(width_steps(width)).finite(),
        width_steps(Single { bits: ONE }) == 20,
{
    let lo = Single { bits: MIN_WIDTH_SCALE };
    let hi = Single { bits: MAX_WIDTH_SCALE };
    let kept = width.kept_between(lo, hi);
    let w = lemma_fine_value(kept);
    let n = width_steps(width);
    lemma_width(kept, w, n);
    lemma_in_twentieths(n);
    let back = in_twentieths(n);
    assert(back.kept_between(lo, hi) == back);
    let v = lemma_fine_value(back);
    assert(v == fine(n)) by {
        lemma_pow2_pos(1050);
        assert(v == fine(n)) by (nonlinear_arith)
            requires
                v * pow2(1050) == fine(n) * pow2(1050),
                pow2(1050) > 0,
        ;
    }
    lemma_width(back, fine(n), width_steps(back));
    assert(n * 0x100_0000 - 20 <= 20 * fine(n) <= (n * 0x100_0000) + 20);
    let one = Single { bits: ONE };
    lemma_in_twentieths(20);
    assert(one.kept_between(lo, hi) == one);
    lemma_width(one, fine(20), width_steps(one));
    assert(20 * 0x100_0000 - 20 <= 20 * fine(20) <= (20nat * 0x100_0000) + 20);
}

/// A number of twentieths within the limits of a scale, or of a width, is kept as it is.
pub proof fn law_grid_points_stay(n: nat)
    ensures
        10 <= n <= 40 ==> scale_steps(in_twentieths(n)) == n && in_twentieths(n).finite(),
        16 <= n <= 30 ==> width_steps(in_twentieths(n)) == n,
{
    if 10 <= n <= 40 {
        let point = in_twentieths(n);
        lemma_in_twentieths(n);
        assert(point.kept_between(Single { bits: MIN_SCALE }, Single { bits: MAX_SCALE })
            == point);
        lemma_steps(point, fine(n), scale_steps(point));
        assert(n * 0x100_0000 - 20 <= 20 * fine(n) <= (n * 0x100_0000) + 20);
        if 16 <= n <= 30 {
            let kept = point.kept_between(
                Single { bits: MIN_WIDTH_SCALE },
                Single { bits: MAX_WIDTH_SCALE },
            );
            assert(kept == point);
            let v = lemma_fine_value(point);
            lemma_pow2_pos(1050);
            assert(v == fine(n)) by (nonlinear_arith)
                requires
                    v * pow2(1050) == fine(n) * pow2(1050),
                    pow2(1050) > 0,
            ;
            lemma_width(point, fine(n), width_steps(point));
        }
    }
}

} // verus!
