//! The frames that a summary is made of: which of them count, in what order, and how many are the
//! slowest.

use vstd::prelude::*;

use crate::number::Single;

verus! {

/// The least frames for the slowest percent: of fewer it would be one frame.
pub const MIN_SAMPLES_1_PERCENT: usize = 100;

/// The least frames for the slowest tenth of a percent.
pub const MIN_SAMPLES_0_1_PERCENT: usize = 1_000;

/// A time that a frame can take: a number above zero.
pub open spec fn counts(time: Single) -> bool {
    time.finite() && !time.negative() && time.magnitude() > 0
}

/// The frames with the quickest first.
pub open spec fn rising(times: Seq<Single>) -> bool {
    forall|i: int, j: int|
        0 <= i <= j < times.len() ==> (#[trigger] times[i]).extent() <= (
        #[trigger] times[j]).extent()
}

/// How many of the frames are the slowest one in so many, rounded up.
pub open spec fn share(frames: nat, one_in: nat) -> nat {
    (frames + one_in - 1) as nat / one_in
}

/// How many frames a low is the average of; none where there are too few.
pub open spec fn low_of(frames: nat, one_in: nat) -> Option<nat> {
    if frames < one_in {
        None
    } else {
        Some(share(frames, one_in))
    }
}

/// The frames that count, with the quickest first.
#[derive(Debug)]
pub struct Sample {
    pub times: Vec<Single>,
    pub rejected: usize,
    /// How many at the end make the slowest percent.
    pub low_1_percent: Option<usize>,
    /// How many at the end make the slowest tenth of a percent.
    pub low_0_1_percent: Option<usize>,
}

pub open spec fn number_of(count: Option<usize>) -> Option<nat> {
    match count {
        Some(n) => Some(n as nat),
        None => None,
    }
}

// --- order ---

/// The bits never fall. Of times that count, that is the order of their values.
spec fn bits_rise(times: Seq<Single>) -> bool {
    forall|i: int, j: int|
        0 <= i <= j < times.len() ==> (#[trigger] times[i]).bits <= (#[trigger] times[j]).bits
}

fn merge(a: &Vec<Single>, b: &Vec<Single>) -> (r: Vec<Single>)
    requires
        bits_rise(a@),
        bits_rise(b@),
    ensures
        bits_rise(r@),
        r@.to_multiset() == a@.to_multiset().add(b@.to_multiset()),
{
    broadcast use vstd::seq_lib::group_to_multiset_ensures;

    let mut out: Vec<Single> = Vec::new();
    let mut i: usize = 0;
    let mut j: usize = 0;
    proof {
        assert(a@.take(0) =~= seq![]);
        assert(b@.take(0) =~= seq![]);
        assert(out@.to_multiset() =~= a@.take(0).to_multiset().add(b@.take(0).to_multiset()));
    }
    while i < a.len() || j < b.len()
        invariant
            i <= a.len(),
            j <= b.len(),
            bits_rise(a@),
            bits_rise(b@),
            bits_rise(out@),
            forall|k: int, l: int|
                0 <= k < out.len() && i <= l < a.len() ==> (#[trigger] out@[k]).bits <= (
                #[trigger] a@[l]).bits,
            forall|k: int, l: int|
                0 <= k < out.len() && j <= l < b.len() ==> (#[trigger] out@[k]).bits <= (
                #[trigger] b@[l]).bits,
            out@.to_multiset() == a@.take(i as int).to_multiset().add(
                b@.take(j as int).to_multiset(),
            ),
        decreases a.len() - i + b.len() - j,
    {
        let first = j >= b.len() || (i < a.len() && a[i].bits <= b[j].bits);
        if first {
            proof {
                broadcast use vstd::seq_lib::group_to_multiset_ensures;

                assert(a@.take(i + 1) =~= a@.take(i as int).push(a@[i as int]));
                assert(out@.push(a@[i as int]).to_multiset() =~= a@.take(
                    i + 1,
                ).to_multiset().add(b@.take(j as int).to_multiset()));
            }
            out.push(a[i]);
            i += 1;
        } else {
            proof {
                broadcast use vstd::seq_lib::group_to_multiset_ensures;

                assert(b@.take(j + 1) =~= b@.take(j as int).push(b@[j as int]));
                assert(out@.push(b@[j as int]).to_multiset() =~= a@.take(
                    i as int,
                ).to_multiset().add(b@.take(j + 1).to_multiset()));
            }
            out.push(b[j]);
            j += 1;
        }
    }
    proof {
        assert(a@.take(i as int) =~= a@);
        assert(b@.take(j as int) =~= b@);
    }
    out
}

fn sorted(times: Vec<Single>) -> (r: Vec<Single>)
    ensures
        bits_rise(r@),
        r@.to_multiset() == times@.to_multiset(),
    decreases times.len(),
{
    if times.len() < 2 {
        return times;
    }
    let half: usize = times.len() / 2;
    let ghost all = times@;
    let mut front = times;
    let back = front.split_off(half);
    proof {
        assert(all =~= front@ + back@);
        vstd::seq_lib::lemma_multiset_commutative(front@, back@);
    }
    let front = sorted(front);
    let back = sorted(back);
    merge(&front, &back)
}

// --- the sample ---

fn time_counts(time: Single) -> (r: bool)
    ensures
        r == counts(time),
{
    time.is_finite() && time.bits < 0x8000_0000 && time.bits > 0
}

fn low_count(frames: usize, one_in: usize) -> (r: Option<usize>)
    requires
        one_in > 0,
    ensures
        number_of(r) == low_of(frames as nat, one_in as nat),
{
    if frames < one_in {
        return None;
    }
    let whole: usize = frames / one_in;
    let left: usize = frames % one_in;
    let ghost q = whole as int;
    proof {
        let d = one_in as int;
        let n = frames as int;
        vstd::arithmetic::div_mod::lemma_fundamental_div_mod(n, d);
        if left == 0 {
            assert(n + d - 1 == q * d + (d - 1)) by (nonlinear_arith)
                requires
                    n == d * q + 0,
            ;
            vstd::arithmetic::div_mod::lemma_fundamental_div_mod_converse(n + d - 1, d, q, d - 1);
        } else {
            assert(n + d - 1 == (q + 1) * d + (left - 1)) by (nonlinear_arith)
                requires
                    n == d * q + left,
            ;
            vstd::arithmetic::div_mod::lemma_fundamental_div_mod_converse(
                n + d - 1,
                d,
                q + 1,
                left - 1,
            );
            assert(q < n) by (nonlinear_arith)
                requires
                    n == d * q + left,
                    left > 0,
                    d >= 1,
                    q >= 0,
            ;
        }
    }
    if left == 0 {
        Some(whole)
    } else {
        Some(whole + 1)
    }
}

/// The frames that a summary is made of; none where no time counts. A time that is no number, and
/// one that is not above zero, is left out before anything is divided or put in order.
pub fn compute(frametimes: &Vec<Single>) -> (r: Option<Sample>)
    ensures
        r is None <==> frametimes@.filter(|t: Single| counts(t)).len() == 0,
        r matches Some(sample) ==> {
            let kept = frametimes@.filter(|t: Single| counts(t));
            &&& rising(sample.times@)
            &&& sample.times@.to_multiset() == kept.to_multiset()
            &&& sample.times@.len() == kept.len()
            &&& sample.rejected == frametimes@.len() - kept.len()
            &&& number_of(sample.low_1_percent) == low_of(
                kept.len(),
                MIN_SAMPLES_1_PERCENT as nat,
            )
            &&& number_of(sample.low_0_1_percent) == low_of(
                kept.len(),
                MIN_SAMPLES_0_1_PERCENT as nat,
            )
        },
{
    broadcast use vstd::seq_lib::group_to_multiset_ensures;

    let ghost keep = |t: Single| counts(t);
    let mut valid: Vec<Single> = Vec::new();
    let mut rejected: usize = 0;
    let mut i: usize = 0;
    proof {
        reveal(Seq::filter);
        assert(frametimes@.take(0).filter(keep) =~= seq![]);
    }
    while i < frametimes.len()
        invariant
            i <= frametimes.len(),
            keep == (|t: Single| counts(t)),
            valid@ == frametimes@.take(i as int).filter(keep),
            rejected == i - valid.len(),
        decreases frametimes.len() - i,
    {
        proof {
            reveal(Seq::filter);
            assert(frametimes@.take(i + 1).drop_last() =~= frametimes@.take(i as int));
        }
        if time_counts(frametimes[i]) {
            valid.push(frametimes[i]);
        } else {
            rejected += 1;
        }
        i += 1;
    }
    proof {
        assert(frametimes@.take(i as int) =~= frametimes@);
    }
    if valid.len() == 0 {
        return None;
    }
    let ghost kept = valid@;
    let n: usize = valid.len();
    let times = sorted(valid);
    proof {
        assert(times@.len() == times@.to_multiset().len());
        assert(kept.len() == kept.to_multiset().len());
        lemma_all_count(frametimes@, keep);
        assert forall|i: int| 0 <= i < times@.len() implies counts(#[trigger] times@[i]) by {
            assert(times@.contains(times@[i]));
            assert(times@.to_multiset().count(times@[i]) > 0);
            assert(kept.contains(times@[i]));
        }
        lemma_rising(times@);
    }
    Some(
        Sample {
            times,
            rejected,
            low_1_percent: low_count(n, MIN_SAMPLES_1_PERCENT),
            low_0_1_percent: low_count(n, MIN_SAMPLES_0_1_PERCENT),
        },
    )
}

proof fn lemma_all_count(times: Seq<Single>, keep: spec_fn(Single) -> bool)
    ensures
        forall|t: Single| #[trigger] times.filter(keep).contains(t) ==> keep(t),
{
    broadcast use vstd::seq_lib::group_filter_ensures;

}

proof fn lemma_rising(times: Seq<Single>)
    requires
        bits_rise(times),
        forall|i: int| 0 <= i < times.len() ==> counts(#[trigger] times[i]),
    ensures
        rising(times),
{
    assert forall|i: int, j: int| 0 <= i <= j < times.len() implies (#[trigger] times[i]).extent()
        <= (#[trigger] times[j]).extent() by {
        assert(counts(times[i]) && counts(times[j]));
        if times[i].bits < times[j].bits {
            crate::number::lemma_extent_grows(times[i].magnitude(), times[j].magnitude());
        }
    }
}

/// Every low is the average of at least one frame and of no more than there are.
pub proof fn law_lows_have_frames(frames: nat, one_in: nat)
    requires
        0 < one_in <= frames,
    ensures
        low_of(frames, one_in) is Some,
        1 <= low_of(frames, one_in)->0 <= frames,
{
    let n = frames as int;
    let d = one_in as int;
    assert((n + d - 1) / d >= 1) by (nonlinear_arith)
        requires
            n >= d,
            d > 0,
    ;
    assert((n + d - 1) / d <= n) by (nonlinear_arith)
        requires
            n >= d,
            d > 0,
    ;
}

/// The slowest frames of a low are one in a hundred, or one in a thousand, and no fewer: one less
/// would be too few.
pub proof fn law_lows_are_the_slowest_part(frames: nat, one_in: nat)
    requires
        one_in > 0,
    ensures
        low_of(frames, one_in) is None <==> frames < one_in,
        low_of(frames, one_in) matches Some(slowest) ==> slowest * one_in >= frames && (slowest
            - 1) * one_in < frames,
        MIN_SAMPLES_1_PERCENT == 100,
        MIN_SAMPLES_0_1_PERCENT == 1000,
{
    let n = frames as int;
    let d = one_in as int;
    let q = (n + d - 1) / d;
    vstd::arithmetic::div_mod::lemma_fundamental_div_mod(n + d - 1, d);
    assert(q * d >= n && (q - 1) * d < n) by (nonlinear_arith)
        requires
            n + d - 1 == d * q + (n + d - 1) % d,
            0 <= (n + d - 1) % d < d,
    ;
}

/// Nothing that is no number, not above zero or without an end is the time of a frame, and every
/// other number is.
pub proof fn law_frames_take_time(time: Single)
    ensures
        counts(time) <==> 0 < time.bits < 0x7f80_0000,
{
}

} // verus!
