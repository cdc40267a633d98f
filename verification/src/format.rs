//! Texts for the numbers of the overlay, where the numbers are whole.
//!
//! Memory is counted in binary units and labelled `GB`, as other monitors do; the conversion
//! stands in one place.

use vstd::prelude::*;
use vstd::arithmetic::power2::lemma2_to64;
use vstd::arithmetic::power2::lemma2_to64_rest;
use vstd::arithmetic::power2::lemma_pow2_adds;
use vstd::arithmetic::power2::lemma_pow2_pos;
use vstd::arithmetic::power2::lemma_pow2_strictly_increases;
use vstd::arithmetic::power2::pow2;

use crate::blocks::opt_text;
use crate::number::bit_length;
use crate::number::nearest_even;
use crate::paths::text_of;
use crate::text::cut_at;
use crate::text::cut_before;
use crate::text::decimal;
use crate::text::digit;
use crate::text::ends_with;
use crate::text::finishes_with;
use crate::text::join;
use crate::text::joined;
use crate::text::lemma_views_push;
use crate::text::pad_left;
use crate::text::padded;
use crate::text::remove_all;
use crate::text::replace_char;
use crate::text::replaced;
use crate::text::same_text;
use crate::text::split_whitespace;
use crate::text::to_decimal;
use crate::text::views;
use crate::text::without;
use crate::text::words;
use crate::units::Memory;

verus! {

/// Shown where a sensor has no value.
pub const EMPTY: &'static str = "—";

/// Shown until the first measurement.
pub const WARMING_UP: &'static str = "…";

pub const GIB: u64 = 0x4000_0000;

pub const MIB: u64 = 0x10_0000;

/// A whole number as a double holds it: with 53 binary digits.
pub open spec fn doubled(n: nat) -> nat {
    let length = bit_length(n);
    if length <= 53 {
        n
    } else {
        let step = pow2((length - 53) as nat);
        nearest_even(n, step) * step
    }
}

/// An amount in units, rounded to a whole number of them.
pub open spec fn in_whole(bytes: nat, unit: nat) -> Seq<char> {
    decimal(nearest_even(doubled(bytes), unit))
}

/// An amount in units, rounded to one digit behind the point.
pub open spec fn in_tenths(bytes: nat, unit: nat) -> Seq<char> {
    let tenths = nearest_even(doubled(bytes) * 10, unit);
    decimal(tenths / 10).push('.').push(digit(tenths % 10))
}

/// The double nearest to a whole number.
fn to_double(n: u64) -> (r: u128)
    ensures
        r == doubled(n as nat),
        r <= 0x1_0000_0000_0000_0000,
        (r >= GIB) == (n >= GIB),
        (r >= 10 * GIB) == (n >= 10 * GIB),
{
    proof {
        lemma2_to64();
        lemma2_to64_rest();
    }
    if n < 0x20_0000_0000_0000 {
        proof {
            crate::number::lemma_bit_length_small(n as nat, 53);
        }
        return n as u128;
    }
    let mut step: u64 = 1;
    let mut extra: u32 = 0;
    while n / step >= 0x20_0000_0000_0000
        invariant
            extra <= 11,
            step == pow2(extra as nat),
            step > 0,
            n >= 0x20_0000_0000_0000,
            extra > 0 ==> n / (step / 2) as u64 >= 0x20_0000_0000_0000,
            extra > 0 ==> step % 2 == 0,
        decreases 12 - extra,
    {
        proof {
            lemma2_to64();
            lemma2_to64_rest();
            vstd::arithmetic::power2::lemma_pow2_unfold((extra + 1) as nat);
            if extra == 11 {
                assert(n / step < 0x20_0000_0000_0000) by (nonlinear_arith)
                    requires
                        step == 2048,
                        n <= 0xffff_ffff_ffff_ffff,
                ;
            }
            lemma_pow2_strictly_increases(extra as nat, 12);
        }
        step = step * 2;
        extra += 1;
    }
    let q: u64 = n / step;
    let rest: u64 = n % step;
    proof {
        let half = (step / 2) as nat;
        vstd::arithmetic::div_mod::lemma_fundamental_div_mod(n as int, step as int);
        if extra == 0 {
            assert(false);
        }
        vstd::arithmetic::div_mod::lemma_fundamental_div_mod(n as int, half as int);
        assert(n >= 0x20_0000_0000_0000 * half) by (nonlinear_arith)
            requires
                n == half * (n as nat / half) + n as nat % half,
                n as nat / half >= 0x20_0000_0000_0000,
                n as nat % half >= 0,
        ;
        assert(n < 0x20_0000_0000_0000 * step) by (nonlinear_arith)
            requires
                n == step * (n / step) + n % step,
                n % step < step,
                n / step < 0x20_0000_0000_0000,
        ;
        lemma_pow2_adds(53, (extra - 1) as nat);
        lemma_pow2_adds(53, extra as nat);
        vstd::arithmetic::power2::lemma_pow2_unfold(extra as nat);
        assert(half == pow2((extra - 1) as nat));
        crate::number::lemma_bit_length(n as nat, (52 + extra) as nat);
        assert(q >= 0x10_0000_0000_0000) by (nonlinear_arith)
            requires
                n == step * q + n % step,
                n % step < step,
                n >= 0x20_0000_0000_0000 * half,
                step == 2 * half,
                half > 0,
        ;
    }
    let rounded: u64 = if rest < step - rest || (rest == step - rest && q % 2 == 0) {
        q
    } else {
        q + 1
    };
    proof {
        assert(rounded == nearest_even(n as nat, step as nat));
        assert((rounded as nat) * (step as nat) <= 0x1_0000_0000_0000_0000) by (nonlinear_arith)
            requires
                rounded <= 0x20_0000_0000_0000,
                step <= 2048,
        {
        }
        assert((rounded as nat) * (step as nat) >= 10 * GIB) by (nonlinear_arith)
            requires
                rounded >= 0x10_0000_0000_0000,
                step >= 1,
        ;
    }
    (rounded as u128) * (step as u128)
}

fn even_quotient(num: u128, den: u64) -> (r: u64)
    requires
        den >= MIB,
        num <= 0xa_0000_0000_0000_0000,
    ensures
        r == nearest_even(num as nat, den as nat),
{
    let wide: u128 = den as u128;
    let q: u128 = num / wide;
    let rest: u128 = num % wide;
    proof {
        vstd::arithmetic::div_mod::lemma_fundamental_div_mod(num as int, wide as int);
        assert(q <= 0xa000_0000_0000) by (nonlinear_arith)
            requires
                num == wide * q + rest,
                rest >= 0,
                num <= 0xa_0000_0000_0000_0000,
                wide >= 0x10_0000,
        ;
    }
    if rest < wide - rest || (rest == wide - rest && q % 2 == 0) {
        q as u64
    } else {
        (q + 1) as u64
    }
}

fn whole_text(bytes: u64, unit: u64) -> (r: String)
    requires
        unit >= MIB,
    ensures
        r@ == in_whole(bytes as nat, unit as nat),
{
    let v = to_double(bytes);
    to_decimal(even_quotient(v, unit))
}

fn tenths_text(bytes: u64, unit: u64) -> (r: String)
    requires
        unit >= MIB,
    ensures
        r@ == in_tenths(bytes as nat, unit as nat),
{
    let v = to_double(bytes);
    let tenths = even_quotient(v * 10, unit);
    let mut r = to_decimal(tenths / 10);
    r.push('.');
    r.push(crate::text::digit_char((tenths % 10) as u8));
    r
}

/// The total of a pair in gigabytes: a round one from ten up.
pub open spec fn total_text(bytes: nat) -> Seq<char> {
    if bytes >= 10 * GIB {
        in_whole(bytes, GIB as nat)
    } else {
        in_tenths(bytes, GIB as nat)
    }
}

/// Used and total memory with the unit once.
pub open spec fn pair_text(used: Option<u64>, total: Option<u64>, unit: Memory) -> Option<Seq<char>> {
    if used is None && total is None {
        None
    } else {
        let left = match used {
            Some(v) => match unit {
                Memory::Gb => in_tenths(v as nat, GIB as nat),
                Memory::Mb => in_whole(v as nat, MIB as nat),
            },
            None => EMPTY@,
        };
        let right = match total {
            Some(v) => match unit {
                Memory::Gb => total_text(v as nat),
                Memory::Mb => in_whole(v as nat, MIB as nat),
            },
            None => EMPTY@,
        };
        let label = match unit {
            Memory::Gb => "GB"@,
            Memory::Mb => "MB"@,
        };
        Some(left + " / "@ + right + " "@ + label)
    }
}

/// `7.2 / 16 GB`: the unit once, a round total without a fraction. Megabytes are whole.
pub fn bytes_pair(used: Option<u64>, total: Option<u64>, unit: Memory) -> (r: Option<String>)
    ensures
        text_of(r) == pair_text(used, total, unit),
{
    if used.is_none() && total.is_none() {
        return None;
    }
    let mut text = match used {
        Some(v) => match unit {
            Memory::Gb => tenths_text(v, GIB),
            Memory::Mb => whole_text(v, MIB),
        },
        None => EMPTY.to_owned(),
    };
    let right = match total {
        Some(v) => match unit {
            Memory::Gb => if v >= 10 * GIB {
                whole_text(v, GIB)
            } else {
                tenths_text(v, GIB)
            },
            Memory::Mb => whole_text(v, MIB),
        },
        None => EMPTY.to_owned(),
    };
    text.append(" / ");
    text.append(right.as_str());
    text.append(" ");
    text.append(
        match unit {
            Memory::Gb => "GB",
            Memory::Mb => "MB",
        },
    );
    Some(text)
}

/// An amount of memory: in gigabytes from one of them on, where these are wanted.
pub open spec fn amount_text(value: u64, unit: Memory) -> Seq<char> {
    if unit == Memory::Gb && value >= GIB {
        in_tenths(value as nat, GIB as nat) + " GB"@
    } else {
        in_whole(value as nat, MIB as nat) + " MB"@
    }
}

/// `3.4 GB`, and below one gigabyte `812 MB`.
pub fn bytes(value: u64, unit: Memory) -> (r: String)
    ensures
        r@ == amount_text(value, unit),
{
    if unit == Memory::Gb && value >= GIB {
        let mut text = tenths_text(value, GIB);
        text.append(" GB");
        text
    } else {
        let mut text = whole_text(value, MIB);
        text.append(" MB");
        text
    }
}

/// The words of a device name that say something: no core counts.
pub open spec fn telling_words(all: Seq<Seq<char>>) -> Seq<Seq<char>>
    decreases all.len(),
{
    if all.len() == 0 {
        seq![]
    } else if finishes_with(all.last(), "-Core"@) {
        telling_words(all.drop_last())
    } else {
        telling_words(all.drop_last()).push(all.last())
    }
}

pub open spec fn is_vendor(word: Seq<char>) -> bool {
    word == "NVIDIA"@ || word == "AMD"@ || word == "Intel"@
}

pub open spec fn is_family(word: Seq<char>) -> bool {
    word == "GeForce"@ || word == "Radeon"@ || word == "Arc"@
}

/// A device name without its marks and everything from a telling tail on.
pub open spec fn bare_name(name: Seq<char>) -> Seq<char> {
    let text = without(without(name, "(R)"@), "(TM)"@);
    let text = replaced(replaced(text, '®', seq![]), '™', seq![]);
    cut_at(cut_at(cut_at(text, " CPU @"@), " with Radeon"@), " Processor"@)
}

/// The name of a device without what goes without saying.
pub open spec fn short_name(name: Seq<char>) -> Seq<char> {
    let kept = telling_words(words(bare_name(name)));
    let rest = if kept.len() >= 2 && is_vendor(kept[0]) && is_family(kept[1]) {
        kept.skip(1)
    } else {
        kept
    };
    joined(rest, " "@)
}

/// The name of a device without what goes without saying: the maker of a graphics card, ® and ™,
/// and tails such as `12-Core Processor`. The maker of a processor stays: it is part of the name.
pub fn short_device_name(name: &str) -> (r: String)
    ensures
        r@ == short_name(name@),
{
    let text = remove_all(name, "(R)");
    let text = remove_all(text.as_str(), "(TM)");
    let text = replace_char(text.as_str(), '®', "");
    let text = replace_char(text.as_str(), '™', "");
    proof {
        reveal_strlit("");
        assert(""@ =~= seq![]);
    }
    let text = cut_before(text.as_str(), " CPU @");
    let text = cut_before(text.as_str(), " with Radeon");
    let text = cut_before(text.as_str(), " Processor");
    let all = split_whitespace(text.as_str());
    let ghost whole = views(all@);
    let mut kept: Vec<String> = Vec::new();
    let mut i: usize = 0;
    proof {
        assert(whole.take(0) =~= seq![]);
        assert(views(kept@) =~= seq![]);
    }
    while i < all.len()
        invariant
            i <= all.len(),
            whole == views(all@),
            views(kept@) == telling_words(whole.take(i as int)),
        decreases all.len() - i,
    {
        proof {
            assert(whole.take(i + 1).drop_last() =~= whole.take(i as int));
            assert(whole.take(i + 1).last() == whole[i as int]);
        }
        if !ends_with(all[i].as_str(), "-Core") {
            let word = all[i].clone();
            proof {
                lemma_views_push(kept@, word);
            }
            kept.push(word);
        }
        i += 1;
    }
    proof {
        assert(whole.take(whole.len() as int) =~= whole);
    }
    if kept.len() >= 2 {
        let vendor = kept[0].as_str();
        let family = kept[1].as_str();
        let graphics = (same_text(vendor, "NVIDIA") || same_text(vendor, "AMD") || same_text(
            vendor,
            "Intel",
        )) && (same_text(family, "GeForce") || same_text(family, "Radeon") || same_text(
            family,
            "Arc",
        ));
        if graphics {
            let ghost before = views(kept@);
            kept.remove(0);
            proof {
                assert(views(kept@) =~= before.skip(1));
            }
        }
    }
    join(&kept, " ")
}

/// A time of day.
pub open spec fn clock_text(hour: u8, minute: u8) -> Seq<char> {
    padded(decimal(hour as nat), 2, '0').push(':') + padded(decimal(minute as nat), 2, '0')
}

/// `09:05`.
pub fn clock(time: (u8, u8)) -> (r: String)
    ensures
        r@ == clock_text(time.0, time.1),
{
    let hour = to_decimal(time.0 as u64);
    let minute = to_decimal(time.1 as u64);
    let mut r = pad_left(hour.as_str(), 2, '0');
    r.push(':');
    let minute = pad_left(minute.as_str(), 2, '0');
    r.append(minute.as_str());
    r
}

/// The clock of the memory: `6000 MHz`.
pub fn memory_speed(megahertz: u32) -> (r: String)
    ensures
        r@ == decimal(megahertz as nat) + " MHz"@,
{
    let mut r = to_decimal(megahertz as u64);
    r.append(" MHz");
    r
}

/// What is known of the interface and the resolution of a game.
pub open spec fn api_text(api: Option<Seq<char>>, resolution: Option<(u32, u32)>) -> Option<
    Seq<char>,
> {
    let size = match resolution {
        Some((width, height)) => Some(
            decimal(width as nat).push('×') + decimal(height as nat),
        ),
        None => None,
    };
    match (api, size) {
        (Some(api), Some(size)) => Some(api + " · "@ + size),
        (Some(api), None) => Some(api),
        (None, size) => size,
    }
}

/// `DXGI · 2560×1440`, `DXGI` or `2560×1440`: what is known.
pub fn api_and_resolution(api: Option<&str>, resolution: Option<(u32, u32)>) -> (r: Option<String>)
    ensures
        text_of(r) == api_text(opt_text(api), resolution),
{
    let size = match resolution {
        Some((width, height)) => {
            let mut text = to_decimal(width as u64);
            text.push('×');
            let height = to_decimal(height as u64);
            text.append(height.as_str());
            Some(text)
        },
        None => None,
    };
    match (api, size) {
        (Some(api), Some(size)) => {
            let mut text = api.to_owned();
            text.append(" · ");
            text.append(size.as_str());
            Some(text)
        },
        (Some(api), None) => Some(api.to_owned()),
        (None, size) => size,
    }
}

// --- what the texts say ---

proof fn lemma_whole_units(n: nat, unit: nat)
    requires
        unit > 0,
        n * unit < 0x20_0000_0000_0000,
    ensures
        in_whole(n * unit, unit) == decimal(n),
        in_tenths(n * unit, unit) == decimal(n).push('.').push('0'),
{
    lemma2_to64();
    lemma2_to64_rest();
    crate::number::lemma_bit_length_small(n * unit, 53);
    assert(doubled(n * unit) == n * unit);
    vstd::arithmetic::div_mod::lemma_fundamental_div_mod_converse(
        (n * unit) as int,
        unit as int,
        n as int,
        0,
    );
    assert(n * unit * 10 == (n * 10) * unit) by (nonlinear_arith);
    vstd::arithmetic::div_mod::lemma_fundamental_div_mod_converse(
        (n * unit * 10) as int,
        unit as int,
        (n * 10) as int,
        0,
    );
    assert(nearest_even(n * unit * 10, unit) == n * 10);
}

/// A number of whole gigabytes or megabytes is shown as that number, the used part first, then the
/// whole, and the unit once: with a digit behind the point in gigabytes, but for a whole from ten
/// up, and without one in megabytes. What is not known is a dash.
pub proof fn law_pairs_show_used_and_total(used: u64, total: u64)
    requires
        used < 0x80_0000,
        total < 0x80_0000,
    ensures
        ({
            let used_gb = Some((used * 0x4000_0000) as u64);
            let total_gb = Some((total * 0x4000_0000) as u64);
            let used_mb = Some((used * 0x10_0000) as u64);
            let total_mb = Some((total * 0x10_0000) as u64);
            let shown_used = decimal(used as nat).push('.').push('0');
            let shown_total = if total >= 10 {
                decimal(total as nat)
            } else {
                decimal(total as nat).push('.').push('0')
            };
            &&& pair_text(used_gb, total_gb, Memory::Gb) == Some(
                shown_used + " / "@ + shown_total + " "@ + "GB"@,
            )
            &&& pair_text(used_gb, None, Memory::Gb) == Some(
                shown_used + " / "@ + "—"@ + " "@ + "GB"@,
            )
            &&& pair_text(None, total_gb, Memory::Gb) == Some(
                "—"@ + " / "@ + shown_total + " "@ + "GB"@,
            )
            &&& pair_text(used_mb, total_mb, Memory::Mb) == Some(
                decimal(used as nat) + " / "@ + decimal(total as nat) + " "@ + "MB"@,
            )
            &&& pair_text(used_mb, None, Memory::Mb) == Some(
                decimal(used as nat) + " / "@ + "—"@ + " "@ + "MB"@,
            )
            &&& pair_text(None, total_mb, Memory::Mb) == Some(
                "—"@ + " / "@ + decimal(total as nat) + " "@ + "MB"@,
            )
            &&& pair_text(None, None, Memory::Gb) is None
            &&& pair_text(None, None, Memory::Mb) is None
        }),
{
    lemma_whole_units(used as nat, 0x4000_0000);
    lemma_whole_units(total as nat, 0x4000_0000);
    lemma_whole_units(used as nat, 0x10_0000);
    lemma_whole_units(total as nat, 0x10_0000);
}

/// An amount is shown in gigabytes from one of them on, where these are wanted, and in megabytes
/// otherwise.
pub proof fn law_amounts_have_their_unit(n: u64)
    requires
        n < 0x80_0000,
    ensures
        amount_text((n * 0x10_0000) as u64, Memory::Mb) == decimal(n as nat) + " MB"@,
        n < 1024 ==> amount_text((n * 0x10_0000) as u64, Memory::Gb) == decimal(n as nat)
            + " MB"@,
        n >= 1 ==> amount_text((n * 0x4000_0000) as u64, Memory::Gb) == decimal(n as nat).push(
            '.',
        ).push('0') + " GB"@,
{
    lemma_whole_units(n as nat, 0x4000_0000);
    lemma_whole_units(n as nat, 0x10_0000);
}

/// What is shown of an amount is off by no more than half of its last digit.
pub proof fn law_amounts_are_rounded(bytes: nat, unit: nat)
    requires
        unit > 0,
        bytes < 0x20_0000_0000_0000,
    ensures
        exists|whole: nat|
            in_whole(bytes, unit) == decimal(whole) && -(unit as int) <= 2 * (#[trigger] (whole
                * unit) - bytes) <= unit,
        exists|tenths: nat|
            in_tenths(bytes, unit) == decimal(tenths / 10).push('.').push(digit(tenths % 10))
                && -(unit as int) <= 2 * (#[trigger] (tenths * unit) - 10 * bytes) <= unit,
{
    lemma2_to64();
    lemma2_to64_rest();
    crate::number::lemma_bit_length_small(bytes, 53);
    lemma_nearest(bytes, unit);
    lemma_nearest(bytes * 10, unit);
    let whole = nearest_even(bytes, unit);
    let tenths = nearest_even(bytes * 10, unit);
    assert(in_whole(bytes, unit) == decimal(whole) && -(unit as int) <= 2 * (whole * unit - bytes)
        <= unit);
    assert(in_tenths(bytes, unit) == decimal(tenths / 10).push('.').push(digit(tenths % 10))
        && -(unit as int) <= 2 * (tenths * unit - 10 * bytes) <= unit);
}

proof fn lemma_nearest(n: nat, unit: nat)
    requires
        unit > 0,
    ensures
        -(unit as int) <= 2 * (nearest_even(n, unit) * unit - n) <= unit,
{
    let q = n / unit;
    let r = n % unit;
    vstd::arithmetic::div_mod::lemma_fundamental_div_mod(n as int, unit as int);
    assert(q * unit == n - r) by (nonlinear_arith)
        requires
            n == unit * q + r,
    ;
    assert((q + 1) * unit == n - r + unit) by (nonlinear_arith)
        requires
            n == unit * q + r,
    ;
}

/// Of the words of a name those that count cores are left out, and all others stay.
pub proof fn law_names_lose_the_core_count(all: Seq<Seq<char>>, word: Seq<char>)
    ensures
        telling_words(all).contains(word) <==> all.contains(word) && !finishes_with(
            word,
            "-Core"@,
        ),
    decreases all.len(),
{
    if all.len() == 0 {
        assert(!telling_words(all).contains(word));
    } else {
        let front = all.drop_last();
        law_names_lose_the_core_count(front, word);
        let kept = telling_words(front);
        if front.contains(word) {
            let i = choose|i: int| 0 <= i < front.len() && front[i] == word;
            assert(all[i] == word);
        }
        if all.contains(word) && all.last() != word {
            let i = choose|i: int| 0 <= i < all.len() && all[i] == word;
            assert(front[i] == word);
        }
        assert(all[all.len() - 1] == all.last());
        if kept.contains(word) {
            let i = choose|i: int| 0 <= i < kept.len() && kept[i] == word;
            assert(kept.push(all.last())[i] == word);
        }
        assert(kept.push(all.last())[kept.len() as int] == all.last());
        if kept.push(all.last()).contains(word) && all.last() != word {
            let i = choose|i: int|
                0 <= i < kept.push(all.last()).len() && kept.push(all.last())[i] == word;
            assert(kept[i] == word);
        }
    }
}

/// The maker of a graphics card goes, and only where the family of its cards follows: the maker of
/// a processor stays.
pub proof fn law_only_the_maker_of_a_card_goes(name: Seq<char>)
    ensures
        ({
            let kept = telling_words(words(bare_name(name)));
            let makes_cards = kept.len() >= 2 && (kept[0] == "NVIDIA"@ || kept[0] == "AMD"@
                || kept[0] == "Intel"@) && (kept[1] == "GeForce"@ || kept[1] == "Radeon"@ || kept[1]
                == "Arc"@);
            &&& makes_cards ==> short_name(name) == joined(kept.skip(1), " "@)
            &&& !makes_cards ==> short_name(name) == joined(kept, " "@)
        }),
{
}

/// A time of day has the two digits of its hour, a colon, and the two digits of its minute.
pub proof fn law_clock_has_two_digits_each(hour: u8, minute: u8)
    requires
        hour < 100,
        minute < 100,
    ensures
        clock_text(hour, minute) == seq![
            digit((hour / 10) as nat),
            digit((hour % 10) as nat),
            ':',
            digit((minute / 10) as nat),
            digit((minute % 10) as nat),
        ],
{
    reveal_with_fuel(decimal, 2);
    assert(digit(0) == '0');
    assert(padded(decimal(hour as nat), 2, '0') =~= seq![
        digit((hour / 10) as nat),
        digit((hour % 10) as nat),
    ]);
    assert(padded(decimal(minute as nat), 2, '0') =~= seq![
        digit((minute / 10) as nat),
        digit((minute % 10) as nat),
    ]);
}

/// The interface stands before the resolution, the width before the height, and what is not known
/// is left out.
pub proof fn law_interface_and_resolution(api: Seq<char>, width: u32, height: u32)
    ensures
        ({
            let size = decimal(width as nat) + seq!['×'] + decimal(height as nat);
            &&& api_text(Some(api), Some((width, height))) == Some(api + " · "@ + size)
            &&& api_text(Some(api), None) == Some(api)
            &&& api_text(None, Some((width, height))) == Some(size)
            &&& api_text(None, None) is None
        }),
{
    assert(decimal(width as nat).push('×') =~= decimal(width as nat) + seq!['×']);
}

} // verus!
