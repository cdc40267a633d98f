//! A set of names, kept in order.

use vstd::prelude::*;

use crate::text::before;
use crate::text::is_before;
use crate::text::lemma_before_chains;
use crate::text::lemma_before_total;
use crate::text::lemma_views_push;
use crate::text::same_text;
use crate::text::views;

verus! {

/// Names in strictly growing order, so none occurs twice.
#[derive(Debug, PartialEq)]
pub struct NameSet {
    pub names: Vec<String>,
}

/// Every name comes before all names behind it.
pub open spec fn in_order(names: Seq<Seq<char>>) -> bool {
    forall|i: int, j: int|
        0 <= i < j < names.len() ==> before(#[trigger] names[i], #[trigger] names[j])
}

/// The names with one more, at its place; unchanged where it is already there.
pub open spec fn with_name(names: Seq<Seq<char>>, name: Seq<char>) -> Seq<Seq<char>>
    decreases names.len(),
{
    if names.len() == 0 {
        seq![name]
    } else if names.last() == name {
        names
    } else if before(names.last(), name) {
        names.push(name)
    } else {
        with_name(names.drop_last(), name).push(names.last())
    }
}

/// The names without one.
pub open spec fn without_name(names: Seq<Seq<char>>, name: Seq<char>) -> Seq<Seq<char>>
    decreases names.len(),
{
    if names.len() == 0 {
        names
    } else if names.last() == name {
        without_name(names.drop_last(), name)
    } else {
        without_name(names.drop_last(), name).push(names.last())
    }
}

/// All names of a list, put into an empty set one after another.
pub open spec fn set_of(list: Seq<Seq<char>>) -> Seq<Seq<char>>
    decreases list.len(),
{
    if list.len() == 0 {
        seq![]
    } else {
        with_name(set_of(list.drop_last()), list.last())
    }
}

/// A name that was added is there, the others are as before, and the order holds.
pub proof fn law_name_added(names: Seq<Seq<char>>, name: Seq<char>)
    requires
        in_order(names),
    ensures
        in_order(with_name(names, name)),
        forall|x: Seq<char>| #[trigger]
            with_name(names, name).contains(x) <==> names.contains(x) || x == name,
    decreases names.len(),
{
    let r = with_name(names, name);
    if names.len() == 0 {
        assert(r[0] == name);
        assert forall|x: Seq<char>| #[trigger] r.contains(x) <==> names.contains(x) || x
            == name by {}
    } else if names.last() == name {
        assert(names[names.len() - 1] == name);
        assert forall|x: Seq<char>| #[trigger] r.contains(x) <==> names.contains(x) || x
            == name by {}
    } else if before(names.last(), name) {
        assert forall|i: int, j: int| 0 <= i < j < r.len() implies before(
            #[trigger] r[i],
            #[trigger] r[j],
        ) by {
            if j == names.len() && i < names.len() - 1 {
                lemma_before_chains(names[i], names.last(), name);
            }
        }
        assert forall|x: Seq<char>| #[trigger] r.contains(x) <==> names.contains(x) || x
            == name by {
            if names.contains(x) {
                let i = choose|i: int| 0 <= i < names.len() && names[i] == x;
                assert(r[i] == x);
            }
            assert(r[names.len() as int] == name);
        }
    } else {
        let rest = names.drop_last();
        law_name_added(rest, name);
        let grown = with_name(rest, name);
        lemma_before_total(names.last(), name);
        assert forall|i: int, j: int| 0 <= i < j < r.len() implies before(
            #[trigger] r[i],
            #[trigger] r[j],
        ) by {
            if j == grown.len() {
                assert(grown.contains(grown[i]));
                if grown[i] != name {
                    let k = choose|k: int| 0 <= k < rest.len() && rest[k] == grown[i];
                    assert(names[k] == grown[i]);
                    assert(before(names[k], names[names.len() - 1]));
                }
            }
        }
        assert forall|x: Seq<char>| #[trigger] r.contains(x) <==> names.contains(x) || x
            == name by {
            if r.contains(x) {
                let i = choose|i: int| 0 <= i < r.len() && r[i] == x;
                if i < grown.len() {
                    assert(grown.contains(grown[i]));
                    if x != name {
                        let k = choose|k: int| 0 <= k < rest.len() && rest[k] == x;
                        assert(names[k] == x);
                    }
                } else {
                    assert(names[names.len() - 1] == x);
                }
            }
            if names.contains(x) || x == name {
                if x == names.last() && x != name {
                    assert(r[grown.len() as int] == x);
                } else {
                    if x != name {
                        let k = choose|k: int| 0 <= k < names.len() && names[k] == x;
                        assert(rest[k] == x);
                    }
                    assert(grown.contains(x));
                    let k = choose|k: int| 0 <= k < grown.len() && grown[k] == x;
                    assert(r[k] == x);
                }
            }
        }
    }
}

/// A name that was removed is gone, the others are as before, and the order holds.
pub proof fn law_name_removed(names: Seq<Seq<char>>, name: Seq<char>)
    requires
        in_order(names),
    ensures
        in_order(without_name(names, name)),
        forall|x: Seq<char>| #[trigger]
            without_name(names, name).contains(x) <==> names.contains(x) && x != name,
    decreases names.len(),
{
    let r = without_name(names, name);
    if names.len() > 0 {
        let rest = names.drop_last();
        law_name_removed(rest, name);
        let shrunk = without_name(rest, name);
        assert forall|x: Seq<char>| rest.contains(x) implies #[trigger] names.contains(x) by {
            let k = choose|k: int| 0 <= k < rest.len() && rest[k] == x;
            assert(names[k] == x);
        }
        assert forall|x: Seq<char>| #[trigger] names.contains(x) implies rest.contains(x) || x
            == names.last() by {
            let k = choose|k: int| 0 <= k < names.len() && names[k] == x;
            if k < rest.len() {
                assert(rest[k] == x);
            }
        }
        if names.last() != name {
            assert forall|i: int, j: int| 0 <= i < j < r.len() implies before(
                #[trigger] r[i],
                #[trigger] r[j],
            ) by {
                if j == shrunk.len() {
                    assert(shrunk.contains(shrunk[i]));
                    let k = choose|k: int| 0 <= k < rest.len() && rest[k] == shrunk[i];
                    assert(before(names[k], names[names.len() - 1]));
                }
            }
            assert(names[names.len() - 1] == names.last());
            assert forall|x: Seq<char>| #[trigger] r.contains(x) <==> names.contains(x) && x
                != name by {
                if r.contains(x) {
                    let i = choose|i: int| 0 <= i < r.len() && r[i] == x;
                    if i < shrunk.len() {
                        assert(shrunk.contains(x));
                    }
                }
                if names.contains(x) && x != name {
                    if x == names.last() {
                        assert(r[shrunk.len() as int] == x);
                    } else {
                        assert(shrunk.contains(x));
                        let k = choose|k: int| 0 <= k < shrunk.len() && shrunk[k] == x;
                        assert(r[k] == x);
                    }
                }
            }
        }
    }
}

/// Putting the names of an ordered list into an empty set gives that list.
pub proof fn law_set_of_ordered(list: Seq<Seq<char>>)
    requires
        in_order(list),
    ensures
        set_of(list) == list,
    decreases list.len(),
{
    if list.len() > 0 {
        let rest = list.drop_last();
        law_set_of_ordered(rest);
        if rest.len() > 0 {
            assert(before(list[rest.len() - 1], list[list.len() - 1]));
            lemma_before_total(rest.last(), list.last());
        }
        assert(rest.push(list.last()) =~= list);
    }
}

pub proof fn lemma_set_of_in_order(list: Seq<Seq<char>>)
    ensures
        in_order(set_of(list)),
    decreases list.len(),
{
    if list.len() > 0 {
        lemma_set_of_in_order(list.drop_last());
        law_name_added(set_of(list.drop_last()), list.last());
    }
}

impl View for NameSet {
    type V = Seq<Seq<char>>;

    open spec fn view(&self) -> Seq<Seq<char>> {
        views(self.names@)
    }
}

impl NameSet {
    pub open spec fn valid(&self) -> bool {
        in_order(self@)
    }

    pub fn new() -> (r: NameSet)
        ensures
            r@ == Seq::<Seq<char>>::empty(),
            r.valid(),
    {
        let r = NameSet { names: Vec::new() };
        assert(r@ =~= Seq::<Seq<char>>::empty());
        r
    }

    pub fn is_empty(&self) -> (r: bool)
        ensures
            r == (self@.len() == 0),
    {
        self.names.len() == 0
    }

    pub fn contains(&self, name: &str) -> (r: bool)
        ensures
            r == self@.contains(name@),
    {
        let mut i: usize = 0;
        while i < self.names.len()
            invariant
                i <= self.names.len(),
                forall|j: int| 0 <= j < i ==> #[trigger] self@[j] != name@,
            decreases self.names.len() - i,
        {
            if same_text(self.names[i].as_str(), name) {
                assert(self@[i as int] == name@);
                return true;
            }
            i += 1;
        }
        false
    }

    /// Adds a name.
    pub fn insert(&mut self, name: &str)
        requires
            old(self).valid(),
        ensures
            final(self).valid(),
            final(self)@ == with_name(old(self)@, name@),
    {
        let ghost start = self@;
        proof {
            law_name_added(start, name@);
        }
        let mut at: usize = self.names.len();
        proof {
            assert(start.take(at as int) =~= start);
            assert(start.skip(at as int) =~= seq![]);
            assert(with_name(start, name@) =~= with_name(start.take(at as int), name@) + start.skip(
                at as int,
            ));
        }
        while at > 0 && !is_before(self.names[at - 1].as_str(), name)
            invariant
                at <= self.names.len(),
                start == self@,
                in_order(start),
                with_name(start, name@) == with_name(start.take(at as int), name@) + start.skip(
                    at as int,
                ),
            decreases at,
        {
            let ghost part = start.take(at as int);
            if same_text(self.names[at - 1].as_str(), name) {
                proof {
                    assert(part.last() == name@);
                    assert(part + start.skip(at as int) =~= start);
                }
                return ;
            }
            proof {
                assert(part.last() == start[at - 1]);
                assert(part.drop_last() =~= start.take(at - 1));
                assert(with_name(part.drop_last(), name@).push(part.last()) + start.skip(at as int)
                    =~= with_name(start.take(at - 1), name@) + start.skip(at - 1));
            }
            at -= 1;
        }
        proof {
            let part = start.take(at as int);
            if at > 0 {
                assert(part.last() == start[at - 1]);
                lemma_before_total(part.last(), name@);
            }
            assert(with_name(part, name@) =~= part.push(name@));
        }
        self.names.insert(at, name.to_owned());
        proof {
            assert(self@ =~= start.take(at as int).push(name@) + start.skip(at as int));
        }
    }

    /// Removes a name.
    pub fn remove(&mut self, name: &str)
        requires
            old(self).valid(),
        ensures
            final(self).valid(),
            final(self)@ == without_name(old(self)@, name@),
    {
        let ghost start = self@;
        proof {
            law_name_removed(start, name@);
        }
        let mut kept: Vec<String> = Vec::new();
        let mut i: usize = 0;
        proof {
            assert(start.take(0) =~= seq![]);
            assert(views(kept@) =~= seq![]);
        }
        while i < self.names.len()
            invariant
                i <= self.names.len(),
                start == self@,
                views(kept@) == without_name(start.take(i as int), name@),
            decreases self.names.len() - i,
        {
            proof {
                assert(start.take(i + 1).drop_last() =~= start.take(i as int));
                assert(start.take(i + 1).last() == start[i as int]);
            }
            if !same_text(self.names[i].as_str(), name) {
                let copy = self.names[i].clone();
                proof {
                    lemma_views_push(kept@, copy);
                }
                kept.push(copy);
            }
            i += 1;
        }
        proof {
            assert(start.take(start.len() as int) =~= start);
        }
        self.names = kept;
    }

    /// A set with the same names.
    pub fn copied(&self) -> (r: NameSet)
        ensures
            r@ == self@,
    {
        let names = crate::text::copied(&self.names);
        NameSet { names }
    }

    /// The two sets hold the same names.
    pub fn same(&self, other: &NameSet) -> (r: bool)
        ensures
            r == (self@ == other@),
    {
        if self.names.len() != other.names.len() {
            assert(self@.len() != other@.len());
            return false;
        }
        let mut i: usize = 0;
        while i < self.names.len()
            invariant
                i <= self.names.len(),
                self.names.len() == other.names.len(),
                forall|j: int| 0 <= j < i ==> #[trigger] self@[j] == other@[j],
            decreases self.names.len() - i,
        {
            if !same_text(self.names[i].as_str(), other.names[i].as_str()) {
                assert(self@[i as int] != other@[i as int]);
                return false;
            }
            i += 1;
        }
        assert(self@ =~= other@);
        true
    }
}

} // verus!
