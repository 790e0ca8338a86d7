//! A map from names to values, each name held once, in the order the names
//! were first added.
use vstd::prelude::*;
use crate::text::str_eq;

verus! {

/// A map from names to values.
pub struct NameMap<V> {
    entries: Vec<(String, V)>,
}

spec fn name_at<V>(entries: Seq<(String, V)>, i: int) -> Seq<char> {
    entries[i].0@
}

spec fn holds_name<V>(entries: Seq<(String, V)>, i: int, name: Seq<char>) -> bool {
    0 <= i < entries.len() && name_at(entries, i) == name
}

spec fn names_distinct<V>(entries: Seq<(String, V)>) -> bool {
    forall|i: int, j: int|
        0 <= i < j < entries.len() ==> name_at(entries, i) != name_at(entries, j)
}

spec fn map_of<V>(entries: Seq<(String, V)>) -> Map<Seq<char>, V> {
    Map::new(
        |name: Seq<char>| exists|i: int| holds_name(entries, i, name),
        |name: Seq<char>| entries[choose|i: int| holds_name(entries, i, name)].1,
    )
}

proof fn lemma_map_at<V>(entries: Seq<(String, V)>, i: int)
    requires
        names_distinct(entries),
        0 <= i < entries.len(),
    ensures
        map_of(entries).contains_key(name_at(entries, i)),
        map_of(entries)[name_at(entries, i)] == entries[i].1,
{
    let name = name_at(entries, i);
    assert(holds_name(entries, i, name));
    let j = choose|j: int| holds_name(entries, j, name);
    assert(holds_name(entries, j, name));
    if j < i {
        assert(name_at(entries, j) != name_at(entries, i));
    } else if i < j {
        assert(name_at(entries, i) != name_at(entries, j));
    }
}

/// Setting the entry of `name` (in place, or by a new last entry when there
/// is none) sets `name` in the map and keeps the names distinct.
proof fn lemma_set_entry<V>(
    before: Seq<(String, V)>,
    after: Seq<(String, V)>,
    k: int,
    name: Seq<char>,
    value: V,
)
    requires
        names_distinct(before),
        0 <= k <= before.len(),
        k < before.len() ==> name_at(before, k) == name,
        k == before.len() ==> forall|j: int| !holds_name(before, j, name),
        after.len() == if k < before.len() {
            before.len()
        } else {
            before.len() + 1
        },
        name_at(after, k) == name,
        after[k].1 == value,
        forall|j: int| 0 <= j < before.len() && j != k ==> after[j] == before[j],
    ensures
        names_distinct(after),
        map_of(after) == map_of(before).insert(name, value),
{
    assert forall|a: int, b: int| 0 <= a < b < after.len() implies name_at(after, a) != name_at(
        after,
        b,
    ) by {
        if a != k && b != k {
            assert(name_at(before, a) != name_at(before, b));
        } else if k < before.len() {
            assert(name_at(before, a) != name_at(before, b));
        } else {
            assert(!holds_name(before, a, name));
        }
    }
    let want = map_of(before).insert(name, value);
    assert forall|q: Seq<char>| #[trigger] map_of(after).contains_key(q) == want.contains_key(
        q,
    ) by {
        if exists|j: int| holds_name(after, j, q) {
            let j = choose|j: int| holds_name(after, j, q);
            if j != k {
                assert(holds_name(before, j, q));
            }
        }
        if exists|j: int| holds_name(before, j, q) {
            let j = choose|j: int| holds_name(before, j, q);
            if j != k {
                assert(holds_name(after, j, q));
            }
        }
        assert(holds_name(after, k, name));
    }
    assert forall|q: Seq<char>| #[trigger] map_of(after).contains_key(q) implies map_of(after)[q]
        == want[q] by {
        let j = choose|j: int| holds_name(after, j, q);
        assert(holds_name(after, j, q));
        lemma_map_at(after, j);
        if q != name {
            assert(j != k);
            assert(holds_name(before, j, q));
            lemma_map_at(before, j);
        } else {
            lemma_map_at(after, k);
        }
    }
    assert(map_of(after) =~= want);
}

impl<V> NameMap<V> {
    /// No name is held twice.
    pub closed spec fn wf(self) -> bool {
        names_distinct(self.entries@)
    }

    /// The map from names to values.
    pub closed spec fn view(self) -> Map<Seq<char>, V> {
        map_of(self.entries@)
    }

    /// The empty map.
    pub fn new() -> (r: Self)
        ensures
            r.wf(),
            r@ == Map::<Seq<char>, V>::empty(),
    {
        let r = NameMap { entries: Vec::new() };
        assert(r@ =~= Map::<Seq<char>, V>::empty());
        r
    }

    fn position(&self, name: &str) -> (r: Option<usize>)
        ensures
            match r {
                Some(i) => holds_name(self.entries@, i as int, name@),
                None => forall|j: int| !holds_name(self.entries@, j, name@),
            },
    {
        let ghost entries = self.entries@;
        let mut i: usize = 0;
        while i < self.entries.len()
            invariant
                entries == self.entries@,
                0 <= i <= entries.len(),
                forall|j: int| 0 <= j < i ==> name_at(entries, j) != name@,
            decreases entries.len() - i,
        {
            if str_eq(self.entries[i].0.as_str(), name) {
                return Some(i);
            }
            i = i + 1;
        }
        None
    }

    /// The value of `name`, if it has one.
    pub fn get(&self, name: &str) -> (r: Option<&V>)
        requires
            self.wf(),
        ensures
            match r {
                Some(v) => self@.contains_key(name@) && self@[name@] == *v,
                None => !self@.contains_key(name@),
            },
    {
        match self.position(name) {
            Some(i) => {
                proof {
                    lemma_map_at(self.entries@, i as int);
                }
                Some(&self.entries[i].1)
            },
            None => None,
        }
    }

    /// Sets the value of `name`.
    pub fn insert(&mut self, name: String, value: V)
        requires
            old(self).wf(),
        ensures
            final(self).wf(),
            final(self)@ == old(self)@.insert(name@, value),
    {
        let ghost before = self.entries@;
        let ghost key = name@;
        let ghost v = value;
        match self.position(name.as_str()) {
            Some(i) => {
                self.entries.set(i, (name, value));
                proof {
                    lemma_set_entry(before, self.entries@, i as int, key, v);
                }
            },
            None => {
                self.entries.push((name, value));
                proof {
                    lemma_set_entry(before, self.entries@, before.len() as int, key, v);
                }
            },
        }
    }

    /// The entries, each name once.
    pub fn entries(&self) -> (r: &Vec<(String, V)>)
        requires
            self.wf(),
        ensures
            forall|i: int, j: int| 0 <= i < j < r@.len() ==> r@[i].0@ != r@[j].0@,
            forall|i: int|
                0 <= i < r@.len() ==> self@.contains_key(#[trigger] r@[i].0@) && self@[r@[i].0@]
                    == r@[i].1,
            forall|name: Seq<char>|
                #[trigger] self@.contains_key(name) ==> exists|i: int|
                    0 <= i < r@.len() && r@[i].0@ == name,
    {
        proof {
            assert forall|i: int| 0 <= i < self.entries@.len() implies self@.contains_key(
                #[trigger] self.entries@[i].0@,
            ) && self@[self.entries@[i].0@] == self.entries@[i].1 by {
                lemma_map_at(self.entries@, i);
            }
            assert forall|name: Seq<char>| #[trigger] self@.contains_key(name) implies exists|i: int|
                0 <= i < self.entries@.len() && self.entries@[i].0@ == name by {
                let i = choose|i: int| holds_name(self.entries@, i, name);
                assert(holds_name(self.entries@, i, name));
            }
            assert forall|i: int, j: int| 0 <= i < j < self.entries@.len() implies self.entries@[
                i
            ].0@ != self.entries@[j].0@ by {
                assert(name_at(self.entries@, i) != name_at(self.entries@, j));
            }
        }
        &self.entries
    }
}

} // verus!
