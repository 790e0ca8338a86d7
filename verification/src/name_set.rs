//! A set of names (project paths, turn ids, tool group ids) kept in the
//! order they were added, each at most once.
use vstd::prelude::*;
use crate::text::str_eq;
use vstd::string::StringExecFns;

verus! {

/// A set of names, each held once, in the order they were added.
pub struct NameSet {
    names: Vec<String>,
}

/// `p` added to `set` when it is absent, taken out when it is present.
pub open spec fn toggled(set: Set<Seq<char>>, p: Seq<char>) -> Set<Seq<char>> {
    if set.contains(p) {
        set.remove(p)
    } else {
        set.insert(p)
    }
}

impl NameSet {
    /// No name is held twice.
    pub closed spec fn wf(self) -> bool {
        self.names.deep_view().no_duplicates()
    }

    /// The names as a set.
    pub closed spec fn view(self) -> Set<Seq<char>> {
        self.names.deep_view().to_set()
    }

    /// The names in the order they were added.
    pub closed spec fn list(self) -> Seq<Seq<char>> {
        self.names.deep_view()
    }

    /// The empty set.
    pub fn new() -> (r: Self)
        ensures
            r.wf(),
            r@ == Set::<Seq<char>>::empty(),
            r.list() == Seq::<Seq<char>>::empty(),
    {
        let r = NameSet { names: Vec::new() };
        assert(r.list() =~= Seq::<Seq<char>>::empty());
        assert(r@ =~= Set::<Seq<char>>::empty());
        r
    }

    /// The names in the order they were added.
    pub fn names(&self) -> (r: &Vec<String>)
        ensures
            r.deep_view() == self.list(),
    {
        &self.names
    }

    fn position(&self, name: &str) -> (r: Option<usize>)
        ensures
            match r {
                Some(i) => i < self.list().len() && self.list()[i as int] == name@,
                None => !self.list().contains(name@),
            },
    {
        let mut i: usize = 0;
        while i < self.names.len()
            invariant
                0 <= i <= self.list().len(),
                self.list().len() == self.names@.len(),
                forall|j: int| 0 <= j < i ==> self.list()[j] != name@,
            decreases self.names@.len() - i,
        {
            if str_eq(self.names[i].as_str(), name) {
                return Some(i);
            }
            i = i + 1;
        }
        None
    }

    /// Whether `name` is in the set.
    pub fn contains(&self, name: &str) -> (r: bool)
        ensures
            r == self@.contains(name@),
    {
        self.position(name).is_some()
    }

    /// Adds `name`; true when it was not there yet.
    pub fn insert(&mut self, name: &str) -> (added: bool)
        requires
            old(self).wf(),
        ensures
            final(self).wf(),
            final(self)@ == old(self)@.insert(name@),
            added == !old(self)@.contains(name@),
    {
        let ghost before = self.list();
        match self.position(name) {
            Some(_) => {
                assert(self@.insert(name@) =~= self@);
                false
            },
            None => {
                self.names.push(name.to_string());
                proof {
                    assert(self.list() =~= before.push(name@));
                    lemma_push_to_set(before, name@);
                }
                true
            },
        }
    }

    /// Takes `name` out; true when it was there.
    pub fn remove(&mut self, name: &str) -> (removed: bool)
        requires
            old(self).wf(),
        ensures
            final(self).wf(),
            final(self)@ == old(self)@.remove(name@),
            removed == old(self)@.contains(name@),
    {
        let ghost before = self.list();
        match self.position(name) {
            Some(i) => {
                self.names.remove(i);
                proof {
                    lemma_remove_from_set(before, i as int);
                    assert(self.list() =~= before.remove(i as int));
                }
                true
            },
            None => {
                assert(self@.remove(name@) =~= self@);
                false
            },
        }
    }

    /// Takes `name` out when it is there, adds it otherwise.
    pub fn toggle(&mut self, name: &str)
        requires
            old(self).wf(),
        ensures
            final(self).wf(),
            final(self)@ == toggled(old(self)@, name@),
    {
        if !self.remove(name) {
            self.insert(name);
        }
    }
}

proof fn lemma_push_to_set(s: Seq<Seq<char>>, x: Seq<char>)
    requires
        s.no_duplicates(),
        !s.contains(x),
    ensures
        s.push(x).no_duplicates(),
        s.push(x).to_set() == s.to_set().insert(x),
{
    let t = s.push(x);
    assert forall|a: int, b: int| 0 <= a < t.len() && 0 <= b < t.len() && a != b implies t[a]
        != t[b] by {
        if a < s.len() && b < s.len() {
            assert(s[a] != s[b]);
        } else if a < s.len() {
            assert(s.contains(s[a]));
        } else {
            assert(s.contains(s[b]));
        }
    }
    assert forall|y: Seq<char>| #[trigger] t.to_set().contains(y) == s.to_set().insert(
        x,
    ).contains(y) by {
        if t.contains(y) {
            let a = choose|a: int| 0 <= a < t.len() && t[a] == y;
            if a < s.len() {
                assert(s[a] == y);
            }
        }
        if s.contains(y) {
            let a = choose|a: int| 0 <= a < s.len() && s[a] == y;
            assert(t[a] == y);
        }
        assert(t[s.len() as int] == x);
    }
    assert(t.to_set() =~= s.to_set().insert(x));
}

proof fn lemma_remove_from_set(s: Seq<Seq<char>>, i: int)
    requires
        0 <= i < s.len(),
        s.no_duplicates(),
    ensures
        s.remove(i).no_duplicates(),
        s.remove(i).to_set() == s.to_set().remove(s[i]),
{
    let r = s.remove(i);
    s.remove_ensures(i);
    assert forall|a: int, b: int| 0 <= a < r.len() && 0 <= b < r.len() && a != b implies r[a]
        != r[b] by {
        let sa = if a < i {
            a
        } else {
            a + 1
        };
        let sb = if b < i {
            b
        } else {
            b + 1
        };
        assert(r[a] == s[sa]);
        assert(r[b] == s[sb]);
    }
    assert forall|x: Seq<char>| #[trigger] r.to_set().contains(x) == s.to_set().remove(
        s[i],
    ).contains(x) by {
        if r.contains(x) {
            let a = choose|a: int| 0 <= a < r.len() && r[a] == x;
            let sa = if a < i {
                a
            } else {
                a + 1
            };
            assert(s[sa] == x);
            assert(sa != i);
        }
        if s.contains(x) && x != s[i] {
            let b = choose|b: int| 0 <= b < s.len() && s[b] == x;
            assert(b != i);
            let rb = if b < i {
                b
            } else {
                b - 1
            };
            assert(r[rb] == x);
        }
    }
    assert(r.to_set() =~= s.to_set().remove(s[i]));
}

/// Toggling a name twice leaves the set as it was.
pub proof fn law_toggle_twice_restores(set: Set<Seq<char>>, name: Seq<char>)
    ensures
        toggled(toggled(set, name), name) == set,
{
    if set.contains(name) {
        assert(set.remove(name).insert(name) =~= set);
    } else {
        assert(set.insert(name).remove(name) =~= set);
    }
}

} // verus!
