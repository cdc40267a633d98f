//! Tables kept in the order of their keys.

use vstd::prelude::*;

verus! {

/// Keys with an order: each has a rank of its own.
pub trait Ranked: Sized + Copy {
    spec fn rank(self) -> nat;

    proof fn lemma_rank(self, other: Self)
        ensures
            self.rank() == other.rank() ==> self == other,
    ;

    fn is_below(&self, other: &Self) -> (r: bool)
        ensures
            r == (self.rank() < other.rank()),
    ;
}

impl Ranked for u64 {
    open spec fn rank(self) -> nat {
        self as nat
    }

    proof fn lemma_rank(self, other: Self) {
    }

    fn is_below(&self, other: &Self) -> (r: bool) {
        *self < *other
    }
}

impl Ranked for u32 {
    open spec fn rank(self) -> nat {
        self as nat
    }

    proof fn lemma_rank(self, other: Self) {
    }

    fn is_below(&self, other: &Self) -> (r: bool) {
        *self < *other
    }
}

/// A value for each of some keys, in the order of the keys.
#[derive(Debug)]
pub struct Table<K, V> {
    pub entries: Vec<(K, V)>,
}

/// The keys of the entries rise.
pub open spec fn rising<K: Ranked, V>(entries: Seq<(K, V)>) -> bool {
    forall|i: int, j: int|
        0 <= i < j < entries.len() ==> (#[trigger] entries[i]).0.rank() < (
        #[trigger] entries[j]).0.rank()
}

pub open spec fn key_at<K, V>(entries: Seq<(K, V)>, key: K, i: int) -> bool {
    0 <= i < entries.len() && entries[i].0 == key
}

/// What a sequence of entries says of each key.
pub open spec fn values_of<K, V>(entries: Seq<(K, V)>) -> Map<K, V> {
    Map::new(
        |key: K| exists|i: int| key_at(entries, key, i),
        |key: K| entries[choose|i: int| key_at(entries, key, i)].1,
    )
}

/// In entries with rising keys each key has one place.
pub proof fn lemma_entry<K: Ranked, V>(entries: Seq<(K, V)>, i: int)
    requires
        rising(entries),
        0 <= i < entries.len(),
    ensures
        values_of(entries).contains_key(entries[i].0),
        values_of(entries)[entries[i].0] == entries[i].1,
{
    let key = entries[i].0;
    assert(key_at(entries, key, i));
    let found = choose|j: int| key_at(entries, key, j);
    assert(key_at(entries, key, found));
    if found < i {
        assert(entries[found].0.rank() < entries[i].0.rank());
    } else if found > i {
        assert(entries[i].0.rank() < entries[found].0.rank());
    }
}

/// A new value for a key that has one.
pub proof fn lemma_replaced<K: Ranked, V>(entries: Seq<(K, V)>, i: int, value: V)
    requires
        rising(entries),
        0 <= i < entries.len(),
    ensures
        rising(entries.update(i, (entries[i].0, value))),
        values_of(entries.update(i, (entries[i].0, value))) == values_of(entries).insert(
            entries[i].0,
            value,
        ),
{
    let key = entries[i].0;
    let after = entries.update(i, (key, value));
    assert(rising(after)) by {
        assert forall|a: int, b: int| 0 <= a < b < after.len() implies (
        #[trigger] after[a]).0.rank() < (#[trigger] after[b]).0.rank() by {
            assert(after[a].0 == entries[a].0);
            assert(after[b].0 == entries[b].0);
        }
    }
    assert forall|k: K| #[trigger]
        values_of(after).contains_key(k) == values_of(entries).insert(key, value).contains_key(
            k,
        ) by {
        if values_of(after).contains_key(k) {
            let j = choose|j: int| key_at(after, k, j);
            assert(key_at(entries, k, j));
        }
        if values_of(entries).contains_key(k) {
            let j = choose|j: int| key_at(entries, k, j);
            assert(key_at(after, k, j));
        }
        assert(key_at(after, key, i));
    }
    assert forall|k: K| values_of(after).contains_key(k) implies #[trigger] values_of(after)[k]
        == values_of(entries).insert(key, value)[k] by {
        let j = choose|j: int| key_at(after, k, j);
        lemma_entry(after, j);
        lemma_entry(entries, j);
        lemma_entry(after, i);
        if k != key {
            assert(entries[j].0 == k);
        }
    }
    assert(values_of(after) =~= values_of(entries).insert(key, value));
}

/// A value for a key that had none, at its place in the order.
pub proof fn lemma_inserted<K: Ranked, V>(entries: Seq<(K, V)>, at: int, key: K, value: V)
    requires
        rising(entries),
        0 <= at <= entries.len(),
        forall|i: int| 0 <= i < at ==> (#[trigger] entries[i]).0.rank() < key.rank(),
        forall|i: int| at <= i < entries.len() ==> key.rank() < (#[trigger] entries[i]).0.rank(),
    ensures
        rising(entries.insert(at, (key, value))),
        values_of(entries.insert(at, (key, value))) == values_of(entries).insert(key, value),
        !values_of(entries).contains_key(key),
{
    let after = entries.insert(at, (key, value));
    assert forall|i: int| 0 <= i < after.len() implies (#[trigger] after[i]) == (if i < at {
        entries[i]
    } else if i == at {
        (key, value)
    } else {
        entries[i - 1]
    }) by {}
    if values_of(entries).contains_key(key) {
        let j = choose|j: int| key_at(entries, key, j);
        assert(entries[j].0.rank() == key.rank());
    }
    assert(rising(after)) by {
        assert forall|a: int, b: int| 0 <= a < b < after.len() implies (
        #[trigger] after[a]).0.rank() < (#[trigger] after[b]).0.rank() by {
            if a < at && b > at {
                assert(entries[a].0.rank() < entries[b - 1].0.rank());
            } else if a > at {
                assert(entries[a - 1].0.rank() < entries[b - 1].0.rank());
            }
        }
    }
    assert forall|k: K| #[trigger]
        values_of(after).contains_key(k) == values_of(entries).insert(key, value).contains_key(
            k,
        ) by {
        if values_of(after).contains_key(k) && k != key {
            let j = choose|j: int| key_at(after, k, j);
            assert(key_at(
                entries,
                k,
                if j < at {
                    j
                } else {
                    j - 1
                },
            ));
        }
        if values_of(entries).contains_key(k) {
            let j = choose|j: int| key_at(entries, k, j);
            assert(key_at(
                after,
                k,
                if j < at {
                    j
                } else {
                    j + 1
                },
            ));
        }
        assert(key_at(after, key, at));
    }
    assert forall|k: K| values_of(after).contains_key(k) implies #[trigger] values_of(after)[k]
        == values_of(entries).insert(key, value)[k] by {
        let j = choose|j: int| key_at(after, k, j);
        lemma_entry(after, j);
        if k != key {
            let from = if j < at {
                j
            } else {
                j - 1
            };
            assert(entries[from] == after[j]);
            lemma_entry(entries, from);
        }
    }
    assert(values_of(after) =~= values_of(entries).insert(key, value));
}

impl<K: Ranked, V> Table<K, V> {
    pub open spec fn ordered(self) -> bool {
        rising(self.entries@)
    }

    pub open spec fn values(self) -> Map<K, V> {
        values_of(self.entries@)
    }

    pub fn new() -> (r: Table<K, V>)
        ensures
            r.ordered(),
            r.entries@ == Seq::<(K, V)>::empty(),
            r.values() == Map::<K, V>::empty(),
    {
        let r: Table<K, V> = Table { entries: Vec::new() };
        proof {
            assert(r.values() =~= Map::<K, V>::empty());
        }
        r
    }

    /// The first place whose key is not below a key.
    pub fn place(&self, key: &K) -> (r: usize)
        requires
            self.ordered(),
        ensures
            r <= self.entries.len(),
            forall|i: int|
                0 <= i < r ==> (#[trigger] self.entries@[i]).0.rank() < key.rank(),
            forall|i: int|
                r <= i < self.entries.len() ==> key.rank() <= (
                #[trigger] self.entries@[i]).0.rank(),
    {
        let mut i: usize = 0;
        while i < self.entries.len()
            invariant
                self.ordered(),
                i <= self.entries.len(),
                forall|j: int|
                    0 <= j < i ==> (#[trigger] self.entries@[j]).0.rank() < key.rank(),
            decreases self.entries.len() - i,
        {
            if !self.entries[i].0.is_below(key) {
                proof {
                    assert forall|j: int| i <= j < self.entries.len() implies key.rank() <= (
                    #[trigger] self.entries@[j]).0.rank() by {
                        if j > i {
                            assert(self.entries@[i as int].0.rank() < self.entries@[j].0.rank());
                        }
                    }
                }
                return i;
            }
            i += 1;
        }
        i
    }

    /// The place of a key, where it has one.
    pub fn find(&self, key: &K) -> (r: Option<usize>)
        requires
            self.ordered(),
        ensures
            r is Some <==> self.values().contains_key(*key),
            r matches Some(i) ==> i < self.entries.len() && self.entries@[i as int].0 == *key
                && self.entries@[i as int].1 == self.values()[*key],
    {
        let i: usize = self.place(key);
        if i < self.entries.len() && !key.is_below(&self.entries[i].0) {
            proof {
                self.entries@[i as int].0.lemma_rank(*key);
                lemma_entry(self.entries@, i as int);
            }
            Some(i)
        } else {
            proof {
                if self.values().contains_key(*key) {
                    let j = choose|j: int| key_at(self.entries@, *key, j);
                    assert(self.entries@[j].0.rank() == key.rank());
                }
            }
            None
        }
    }

    /// The value of a key, to change it in place; a key without one gets `default` first.
    pub fn entry(&mut self, key: K, default: V) -> (r: &mut V)
        requires
            old(self).ordered(),
        ensures
            *r == (if old(self).values().contains_key(key) {
                old(self).values()[key]
            } else {
                default
            }),
            final(self).ordered(),
            final(self).values() == old(self).values().insert(key, *final(r)),
            changed(old(self).entries@, final(self).entries@, key, *final(r)),
    {
        let i: usize = self.place(&key);
        let ghost before = self.entries@;
        if i < self.entries.len() && !key.is_below(&self.entries[i].0) {
            proof {
                self.entries@[i as int].0.lemma_rank(key);
                lemma_entry(before, i as int);
                assert forall|v: V|
                    #![trigger before.update(i as int, (key, v))]
                    rising(before.update(i as int, (key, v))) && values_of(
                        before.update(i as int, (key, v)),
                    ) == values_of(before).insert(key, v) && changed(before, before.update(i as int, (key, v)), key, v) by {
                    assert(changed_at(
                        before,
                        before.update(i as int, (key, v)),
                        i as int,
                        key,
                        v,
                    ));
                    lemma_replaced(before, i as int, v);
                }
            }
        } else {
            proof {
                assert forall|v: V|
                    #![trigger before.insert(i as int, (key, default)).update(i as int, (key, v))]
                    rising(before.insert(i as int, (key, default)).update(i as int, (key, v)))
                        && values_of(
                        before.insert(i as int, (key, default)).update(i as int, (key, v)),
                    ) == values_of(before).insert(key, v) && changed(
                        before,
                        before.insert(i as int, (key, default)).update(i as int, (key, v)),
                        key,
                        v,
                    ) by {
                    lemma_inserted(before, i as int, key, v);
                    assert(before.insert(i as int, (key, default)).update(i as int, (key, v))
                        =~= before.insert(i as int, (key, v)));
                    assert(changed_at(
                        before,
                        before.insert(i as int, (key, v)),
                        i as int,
                        key,
                        v,
                    ));
                }
                lemma_inserted(before, i as int, key, default);
            }
            self.entries.insert(i, (key, default));
        }
        &mut self.entries[i].1
    }
}

/// What a measure gives for all values of a table together.
pub open spec fn sum_by<K, V>(entries: Seq<(K, V)>, measure: spec_fn(V) -> nat) -> nat
    decreases entries.len(),
{
    if entries.len() == 0 {
        0
    } else {
        sum_by(entries.drop_last(), measure) + measure(entries.last().1)
    }
}

/// How much a table of counts holds in all.
pub open spec fn total<K>(entries: Seq<(K, u64)>) -> nat {
    sum_by(entries, |count: u64| count as nat)
}

/// No value measures more than all together.
pub proof fn lemma_sum_bounds<K, V>(entries: Seq<(K, V)>, measure: spec_fn(V) -> nat, i: int)
    requires
        0 <= i < entries.len(),
    ensures
        measure(entries[i].1) <= sum_by(entries, measure),
    decreases entries.len(),
{
    if i < entries.len() - 1 {
        lemma_sum_bounds(entries.drop_last(), measure, i);
    }
}

/// A value in the place of another changes the sum by their difference.
pub proof fn lemma_sum_update<K, V>(
    entries: Seq<(K, V)>,
    measure: spec_fn(V) -> nat,
    i: int,
    entry: (K, V),
)
    requires
        0 <= i < entries.len(),
    ensures
        sum_by(entries.update(i, entry), measure) == sum_by(entries, measure) - measure(
            entries[i].1,
        ) + measure(entry.1),
    decreases entries.len(),
{
    let after = entries.update(i, entry);
    if i < entries.len() - 1 {
        lemma_sum_update(entries.drop_last(), measure, i, entry);
        assert(after.drop_last() =~= entries.drop_last().update(i, entry));
    } else {
        assert(after.drop_last() =~= entries.drop_last());
    }
}

/// A new value adds to the sum.
pub proof fn lemma_sum_insert<K, V>(
    entries: Seq<(K, V)>,
    measure: spec_fn(V) -> nat,
    i: int,
    entry: (K, V),
)
    requires
        0 <= i <= entries.len(),
    ensures
        sum_by(entries.insert(i, entry), measure) == sum_by(entries, measure) + measure(entry.1),
    decreases entries.len(),
{
    let after = entries.insert(i, entry);
    if i < entries.len() {
        lemma_sum_insert(entries.drop_last(), measure, i, entry);
        assert(after.drop_last() =~= entries.drop_last().insert(i, entry));
        assert(after.last() == entries.last());
    } else {
        assert(after.drop_last() =~= entries);
    }
}

/// A value for a key, in the place of the one it had or at a new place.
pub open spec fn changed_at<K, V>(
    before: Seq<(K, V)>,
    after: Seq<(K, V)>,
    at: int,
    key: K,
    value: V,
) -> bool {
    ||| key_at(before, key, at) && after == before.update(at, (key, value))
    ||| 0 <= at <= before.len() && !values_of(before).contains_key(key) && after
        == before.insert(at, (key, value))
}

/// The entries after a key got a value.
pub open spec fn changed<K, V>(
    before: Seq<(K, V)>,
    after: Seq<(K, V)>,
    key: K,
    value: V,
) -> bool {
    exists|at: int| changed_at(before, after, at, key, value)
}

/// How a sum changes with the value of one key.
pub proof fn lemma_sum_changed<K: Ranked, V>(
    before: Seq<(K, V)>,
    after: Seq<(K, V)>,
    measure: spec_fn(V) -> nat,
    key: K,
    value: V,
)
    requires
        rising(before),
        changed(before, after, key, value),
    ensures
        sum_by(after, measure) == sum_by(before, measure) + measure(value) - (if values_of(
            before,
        ).contains_key(key) {
            measure(values_of(before)[key]) as int
        } else {
            0
        }),
{
    let at = choose|at: int| changed_at(before, after, at, key, value);
    if key_at(before, key, at) {
        lemma_entry(before, at);
        lemma_sum_update(before, measure, at, (key, value));
    } else {
        lemma_sum_insert(before, measure, at, (key, value));
    }
}

/// The counts with one more of a key.
pub open spec fn tallied<K>(counts: Map<K, u64>, key: K) -> Map<K, u64> {
    counts.insert(
        key,
        if counts.contains_key(key) {
            (counts[key] + 1) as u64
        } else {
            1
        },
    )
}

impl<K: Ranked> Table<K, u64> {
    /// Counts one more of a key.
    pub fn tally(&mut self, key: K)
        requires
            old(self).ordered(),
            total(old(self).entries@) < u64::MAX,
        ensures
            final(self).ordered(),
            final(self).values() == tallied(old(self).values(), key),
            total(final(self).entries@) == total(old(self).entries@) + 1,
    {
        let i: usize = self.place(&key);
        let ghost before = self.entries@;
        if i < self.entries.len() && !key.is_below(&self.entries[i].0) {
            let count: u64 = self.entries[i].1;
            proof {
                self.entries@[i as int].0.lemma_rank(key);
                lemma_entry(before, i as int);
                lemma_sum_bounds(before, |count: u64| count as nat, i as int);
                lemma_replaced(before, i as int, (count + 1) as u64);
                lemma_sum_update(
                    before,
                    |count: u64| count as nat,
                    i as int,
                    (key, (count + 1) as u64),
                );
            }
            self.entries.set(i, (key, count + 1));
        } else {
            proof {
                lemma_inserted(before, i as int, key, 1u64);
                lemma_sum_insert(before, |count: u64| count as nat, i as int, (key, 1u64));
            }
            self.entries.insert(i, (key, 1));
        }
    }
}

} // verus!
