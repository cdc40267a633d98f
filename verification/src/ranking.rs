//! Lists with the largest first.

use vstd::prelude::*;

verus! {

/// Items with a weight.
pub trait Weighted: Sized {
    spec fn heaviness(self) -> nat;

    fn weight(&self) -> (r: u64)
        ensures
            r == self.heaviness(),
    ;
}

/// How many items at the front weigh at least so much.
pub open spec fn place<T>(items: Seq<T>, weigh: spec_fn(T) -> nat, weight: nat) -> int
    decreases items.len(),
{
    if items.len() > 0 && weigh(items[0]) >= weight {
        1 + place(items.skip(1), weigh, weight)
    } else {
        0
    }
}

/// The items with the heaviest first; of two that weigh the same the earlier stays in front.
pub open spec fn ranked<T>(items: Seq<T>, weigh: spec_fn(T) -> nat) -> Seq<T>
    decreases items.len(),
{
    if items.len() == 0 {
        seq![]
    } else {
        let rest = ranked(items.drop_last(), weigh);
        rest.insert(place(rest, weigh, weigh(items.last())), items.last())
    }
}

proof fn lemma_place<T>(items: Seq<T>, weigh: spec_fn(T) -> nat, weight: nat)
    ensures
        0 <= place(items, weigh, weight) <= items.len(),
        forall|i: int|
            0 <= i < place(items, weigh, weight) ==> weigh(#[trigger] items[i]) >= weight,
        place(items, weigh, weight) < items.len() ==> weigh(items[place(items, weigh, weight)])
            < weight,
    decreases items.len(),
{
    if items.len() > 0 && weigh(items[0]) >= weight {
        let rest = items.skip(1);
        lemma_place(rest, weigh, weight);
        assert forall|i: int| 0 <= i < place(items, weigh, weight) implies weigh(
            #[trigger] items[i],
        ) >= weight by {
            if i > 0 {
                assert(rest[i - 1] == items[i]);
            }
        }
    }
}

proof fn lemma_place_found<T>(items: Seq<T>, weigh: spec_fn(T) -> nat, weight: nat, at: int)
    requires
        0 <= at <= items.len(),
        forall|i: int| 0 <= i < at ==> weigh(#[trigger] items[i]) >= weight,
        at < items.len() ==> weigh(items[at]) < weight,
    ensures
        place(items, weigh, weight) == at,
    decreases items.len(),
{
    if at > 0 {
        let rest = items.skip(1);
        assert forall|i: int| 0 <= i < at - 1 implies weigh(#[trigger] rest[i]) >= weight by {
            assert(rest[i] == items[i + 1]);
        }
        assert(weigh(items[0]) >= weight);
        lemma_place_found(rest, weigh, weight, at - 1);
    }
}

/// The weights never rise.
pub open spec fn falling<T>(items: Seq<T>, weigh: spec_fn(T) -> nat) -> bool {
    forall|i: int, j: int|
        0 <= i <= j < items.len() ==> weigh(#[trigger] items[i]) >= weigh(#[trigger] items[j])
}

/// A ranked list falls and has as many items as before.
pub proof fn law_ranked_falls<T>(items: Seq<T>, weigh: spec_fn(T) -> nat)
    ensures
        falling(ranked(items, weigh), weigh),
        ranked(items, weigh).len() == items.len(),
    decreases items.len(),
{
    if items.len() > 0 {
        law_ranked_falls(items.drop_last(), weigh);
        let rest = ranked(items.drop_last(), weigh);
        let at = place(rest, weigh, weigh(items.last()));
        lemma_place(rest, weigh, weigh(items.last()));
        let all = ranked(items, weigh);
        assert forall|i: int, j: int| 0 <= i <= j < all.len() implies weigh(#[trigger] all[i])
            >= weigh(#[trigger] all[j]) by {
            let from = |k: int|
                if k < at {
                    k
                } else {
                    k - 1
                };
            if i != at && j != at {
                assert(weigh(rest[from(i)]) >= weigh(rest[from(j)]));
            } else if i == at && j > at {
                assert(weigh(rest[at]) >= weigh(rest[j - 1]));
            }
        }
    }
}

proof fn lemma_filter_insert<T>(items: Seq<T>, keep: spec_fn(T) -> bool, at: int, item: T)
    requires
        0 <= at <= items.len(),
        keep(item) ==> forall|i: int| at <= i < items.len() ==> !keep(#[trigger] items[i]),
    ensures
        items.insert(at, item).filter(keep) == (if keep(item) {
            items.filter(keep).push(item)
        } else {
            items.filter(keep)
        }),
    decreases items.len(),
{
    reveal_with_fuel(Seq::filter, 2);
    let all = items.insert(at, item);
    if at == items.len() {
        assert(all.drop_last() =~= items);
    } else {
        let rest = items.drop_last();
        assert forall|i: int| keep(item) && at <= i < rest.len() implies !keep(
            #[trigger] rest[i],
        ) by {
            assert(rest[i] == items[i]);
        }
        lemma_filter_insert(rest, keep, at, item);
        assert(all.drop_last() =~= rest.insert(at, item));
        assert(all.last() == items.last());
    }
}

/// Items of one weight keep their order.
pub proof fn law_ranked_keeps_order<T>(items: Seq<T>, weigh: spec_fn(T) -> nat, weight: nat)
    ensures
        ranked(items, weigh).filter(|item: T| weigh(item) == weight) == items.filter(
            |item: T| weigh(item) == weight,
        ),
    decreases items.len(),
{
    let keep = |item: T| weigh(item) == weight;
    reveal_with_fuel(Seq::filter, 2);
    if items.len() > 0 {
        let rest = ranked(items.drop_last(), weigh);
        let last = items.last();
        let at = place(rest, weigh, weigh(last));
        law_ranked_keeps_order(items.drop_last(), weigh, weight);
        law_ranked_falls(items.drop_last(), weigh);
        lemma_place(rest, weigh, weigh(last));
        assert forall|i: int| keep(last) && at <= i < rest.len() implies !keep(
            #[trigger] rest[i],
        ) by {
            assert(weigh(rest[at]) >= weigh(rest[i]));
        }
        lemma_filter_insert(rest, keep, at, last);
    } else {
        assert(ranked(items, weigh).filter(keep) =~= items.filter(keep));
    }
}

/// Ranking neither adds nor drops an item.
pub proof fn law_ranked_keeps_items<T>(items: Seq<T>, weigh: spec_fn(T) -> nat)
    ensures
        ranked(items, weigh).to_multiset() == items.to_multiset(),
    decreases items.len(),
{
    broadcast use vstd::seq_lib::group_to_multiset_ensures;

    if items.len() > 0 {
        let rest = ranked(items.drop_last(), weigh);
        law_ranked_keeps_items(items.drop_last(), weigh);
        lemma_place(rest, weigh, weigh(items.last()));
        assert(items.drop_last().push(items.last()) =~= items);
        vstd::seq_lib::to_multiset_insert(
            rest,
            place(rest, weigh, weigh(items.last())),
            items.last(),
        );
    } else {
        assert(ranked(items, weigh) =~= items);
    }
}

proof fn lemma_place_mapped<T, U>(
    items: Seq<T>,
    weigh: spec_fn(T) -> nat,
    to: spec_fn(T) -> U,
    measure: spec_fn(U) -> nat,
    weight: nat,
)
    requires
        forall|item: T| #[trigger] weigh(item) == measure(to(item)),
    ensures
        place(items.map_values(to), measure, weight) == place(items, weigh, weight),
    decreases items.len(),
{
    let mapped = items.map_values(to);
    if items.len() > 0 {
        assert(weigh(items[0]) == measure(to(items[0])));
        assert(mapped[0] == to(items[0]));
        lemma_place_mapped(items.skip(1), weigh, to, measure, weight);
        assert(mapped.skip(1) =~= items.skip(1).map_values(to));
    }
}

/// What stands for the items is ranked as they are, where it weighs the same.
pub proof fn lemma_ranked_mapped<T, U>(
    items: Seq<T>,
    weigh: spec_fn(T) -> nat,
    to: spec_fn(T) -> U,
    measure: spec_fn(U) -> nat,
)
    requires
        forall|item: T| #[trigger] weigh(item) == measure(to(item)),
    ensures
        ranked(items, weigh).map_values(to) == ranked(items.map_values(to), measure),
    decreases items.len(),
{
    let mapped = items.map_values(to);
    if items.len() > 0 {
        let rest = ranked(items.drop_last(), weigh);
        let last = items.last();
        lemma_ranked_mapped(items.drop_last(), weigh, to, measure);
        assert(mapped.drop_last() =~= items.drop_last().map_values(to));
        assert(weigh(last) == measure(to(last)));
        lemma_place_mapped(rest, weigh, to, measure, weigh(last));
        lemma_place(rest, weigh, weigh(last));
        let at = place(rest, weigh, weigh(last));
        assert(rest.insert(at, last).map_values(to) =~= rest.map_values(to).insert(at, to(last)));
    } else {
        assert(ranked(items, weigh).map_values(to) =~= ranked(mapped, measure));
    }
}

/// The list with the heaviest first.
pub fn rank<T: Weighted>(items: Vec<T>) -> (r: Vec<T>)
    ensures
        r@ == ranked(items@, |item: T| item.heaviness()),
{
    let ghost weigh = |item: T| item.heaviness();
    let mut left = items;
    let mut out: Vec<T> = Vec::new();
    let ghost mut taken: int = 0;
    proof {
        assert(items@.take(0) =~= seq![]);
        assert(items@.skip(0) =~= items@);
    }
    while left.len() > 0
        invariant
            0 <= taken <= items@.len(),
            weigh == (|item: T| item.heaviness()),
            left@ == items@.skip(taken),
            out@ == ranked(items@.take(taken), weigh),
        decreases left.len(),
    {
        let item = left.remove(0);
        let weight: u64 = item.weight();
        let mut at: usize = 0;
        while at < out.len() && out[at].weight() >= weight
            invariant
                at <= out.len(),
                forall|i: int| 0 <= i < at ==> (#[trigger] out@[i]).heaviness() >= weight,
            decreases out.len() - at,
        {
            at += 1;
        }
        proof {
            lemma_place_found(out@, weigh, weight as nat, at as int);
            assert(items@.take(taken + 1).drop_last() =~= items@.take(taken));
            assert(items@.take(taken + 1).last() == item);
            assert(left@ =~= items@.skip(taken + 1));
        }
        out.insert(at, item);
        proof {
            taken = taken + 1;
        }
    }
    proof {
        assert(items@.take(taken) =~= items@);
    }
    out
}

} // verus!
