//! The values that code-mode cells store under names: what a cell reads
//! back, and what the session keeps of a cell's writes.
use vstd::prelude::*;
use vstd::string::StringExecFns;
use crate::name_map::NameMap;
use crate::values::json_document;

verus! {

/// What reading `text` with `serde_json::from_str::<serde_json::Value>` and
/// writing the value back with `serde_json::to_string` gives: the value's
/// compact JSON text, or the message of the parse error.
pub uninterp spec fn json_reformatted(text: Seq<char>) -> Result<Seq<char>, Seq<char>>;

/// Reads `text` as JSON with `serde_json::from_str::<serde_json::Value>` and
/// writes the value back with `serde_json::to_string`, or gives the parse
/// error's message. The contract names the result, which depends on the text
/// alone, and says that it is a value exactly when the text is JSON.
#[verifier::external_body]
pub(crate) fn reformat_json(text: &str) -> (r: Result<String, String>)
    ensures
        match r {
            Ok(t) => json_reformatted(text@) == Ok::<Seq<char>, Seq<char>>(t@),
            Err(e) => json_reformatted(text@) == Err::<Seq<char>, Seq<char>>(e@),
        },
        r is Ok <==> json_document(text@) is Some,
{
    match serde_json::from_str::<serde_json::Value>(text) {
        Ok(value) => serde_json::to_string(&value).map_err(|error| error.to_string()),
        Err(error) => Err(error.to_string()),
    }
}

/// The texts of a map of stored values.
pub open spec fn texts(values: Map<Seq<char>, String>) -> Map<Seq<char>, Seq<char>> {
    values.map_values(|v: String| v@)
}

/// The texts after storing the JSON `json` under `key`: its compact text
/// under that name when it is JSON, else the texts as they were.
pub open spec fn stored_after(
    texts: Map<Seq<char>, Seq<char>>,
    key: Seq<char>,
    json: Seq<char>,
) -> Map<Seq<char>, Seq<char>> {
    match json_reformatted(json) {
        Ok(text) => texts.insert(key, text),
        Err(_) => texts,
    }
}

/// The text a load of `key` reads from `texts`, if there is one.
pub open spec fn loaded(texts: Map<Seq<char>, Seq<char>>, key: Seq<char>) -> Option<Seq<char>> {
    if texts.contains_key(key) {
        Some(texts[key])
    } else {
        None
    }
}

/// What a running cell sees of the stored values: those of the session when
/// it started with its own writes over them, and its writes alone.
pub struct CellStore {
    values: NameMap<String>,
    writes: NameMap<String>,
}

impl CellStore {
    /// The maps are well formed.
    pub closed spec fn wf(self) -> bool {
        self.values.wf() && self.writes.wf()
    }

    /// The values the cell reads, by name, as JSON text.
    pub closed spec fn values(self) -> Map<Seq<char>, Seq<char>> {
        texts(self.values@)
    }

    /// The values the cell wrote, by name, as JSON text.
    pub closed spec fn writes(self) -> Map<Seq<char>, Seq<char>> {
        texts(self.writes@)
    }

    /// A cell that starts with the session's `values` and has written
    /// nothing.
    pub fn new(values: NameMap<String>) -> (r: Self)
        requires
            values.wf(),
        ensures
            r.wf(),
            r.values() == texts(values@),
            r.writes() == Map::<Seq<char>, Seq<char>>::empty(),
    {
        let r = CellStore { values, writes: NameMap::new() };
        assert(r.writes() =~= Map::<Seq<char>, Seq<char>>::empty());
        r
    }

    /// Stores the JSON `json` under `key`, as its compact text; an error
    /// when it is not JSON, and then nothing changes.
    pub fn store(&mut self, key: String, json: &str) -> (r: Result<(), String>)
        requires
            old(self).wf(),
        ensures
            final(self).wf(),
            final(self).values() == stored_after(old(self).values(), key@, json@),
            final(self).writes() == stored_after(old(self).writes(), key@, json@),
            match json_reformatted(json@) {
                Ok(text) => r is Ok,
                Err(message) => r matches Err(e) && e@ == "failed to serialize stored value: "@
                    + message,
            },
    {
        match reformat_json(json) {
            Ok(text) => {
                let ghost t = text@;
                let ghost values = self.values@;
                let ghost writes = self.writes@;
                self.values.insert(key.clone(), text.clone());
                self.writes.insert(key, text);
                assert(self.values() =~= texts(values).insert(key@, t));
                assert(self.writes() =~= texts(writes).insert(key@, t));
                Ok(())
            },
            Err(message) => {
                let mut e = String::from_str("failed to serialize stored value: ");
                e.append(message.as_str());
                Err(e)
            },
        }
    }

    /// The JSON text stored under `key`, if any.
    pub fn load(&self, key: &str) -> (r: Option<String>)
        requires
            self.wf(),
        ensures
            match r {
                Some(text) => loaded(self.values(), key@) == Some(text@),
                None => loaded(self.values(), key@) is None,
            },
    {
        match self.values.get(key) {
            Some(text) => Some(text.clone()),
            None => None,
        }
    }

    /// The values the cell wrote.
    pub fn into_writes(self) -> (r: NameMap<String>)
        requires
            self.wf(),
        ensures
            r.wf(),
            texts(r@) == self.writes(),
    {
        self.writes
    }
}

/// Law: after a cell stores JSON under a name, loading that name reads
/// back the JSON's compact text, and loading any other name reads what it
/// read before; a store of text that is not JSON changes no load.
pub proof fn law_load_sees_the_last_store(
    values: Map<Seq<char>, Seq<char>>,
    key: Seq<char>,
    json: Seq<char>,
    other: Seq<char>,
)
    ensures
        match json_reformatted(json) {
            Ok(text) => loaded(stored_after(values, key, json), key) == Some(text),
            Err(_) => loaded(stored_after(values, key, json), key) == loaded(values, key),
        },
        other != key ==> loaded(stored_after(values, key, json), other) == loaded(values, other),
{
}

/// Keeps what a finished cell wrote in the session's `stored` values: its
/// writes replace the values of their names, but only when the cell ended
/// without an error and was not cancelled.
pub fn finish_cell(stored: &mut NameMap<String>, cell: CellStore, failed: bool, cancelled: bool)
    requires
        old(stored).wf(),
        cell.wf(),
    ensures
        final(stored).wf(),
        texts(final(stored)@) == if failed || cancelled {
            texts(old(stored)@)
        } else {
            texts(old(stored)@).union_prefer_right(cell.writes())
        },
{
    if failed || cancelled {
        return;
    }
    let writes = cell.into_writes();
    let entries = writes.entries();
    let ghost start = texts(stored@);
    let ghost w = texts(writes@);
    let mut i: usize = 0;
    while i < entries.len()
        invariant
            stored.wf(),
            writes.wf(),
            w == texts(writes@),
            0 <= i <= entries@.len(),
            forall|a: int, b: int| 0 <= a < b < entries@.len() ==> entries@[a].0@ != entries@[b].0@,
            forall|a: int|
                0 <= a < entries@.len() ==> writes@.contains_key(#[trigger] entries@[a].0@)
                    && writes@[entries@[a].0@] == entries@[a].1,
            forall|name: Seq<char>|
                #[trigger] writes@.contains_key(name) ==> exists|a: int|
                    0 <= a < entries@.len() && entries@[a].0@ == name,
            forall|name: Seq<char>|
                #[trigger] texts(stored@).contains_key(name) <==> (start.contains_key(name)
                    || exists|a: int| 0 <= a < i && entries@[a].0@ == name),
            forall|name: Seq<char>|
                #[trigger] texts(stored@).contains_key(name) ==> texts(stored@)[name] == if exists|
                    a: int,
                | 0 <= a < i && entries@[a].0@ == name {
                    w[name]
                } else {
                    start[name]
                },
        decreases entries@.len() - i,
    {
        let ghost before = texts(stored@);
        let ghost name_i = entries@[i as int].0@;
        let ghost text_i = entries@[i as int].1@;
        stored.insert(entries[i].0.clone(), entries[i].1.clone());
        assert(texts(stored@) =~= before.insert(name_i, text_i));
        assert(w[name_i] == text_i);
        assert forall|name: Seq<char>| #[trigger] texts(stored@).contains_key(name) <==> (
        start.contains_key(name) || exists|a: int| 0 <= a < i + 1 && entries@[a].0@ == name) by {
            if name == name_i {
                assert(entries@[i as int].0@ == name);
            } else if exists|a: int| 0 <= a < i + 1 && entries@[a].0@ == name {
                let a = choose|a: int| 0 <= a < i + 1 && entries@[a].0@ == name;
                assert(a != i);
            }
        }
        assert forall|name: Seq<char>| #[trigger] texts(stored@).contains_key(name) implies texts(
            stored@,
        )[name] == if exists|a: int| 0 <= a < i + 1 && entries@[a].0@ == name {
            w[name]
        } else {
            start[name]
        } by {
            if name == name_i {
                assert(entries@[i as int].0@ == name);
            } else {
                if exists|a: int| 0 <= a < i + 1 && entries@[a].0@ == name {
                    let a = choose|a: int| 0 <= a < i + 1 && entries@[a].0@ == name;
                    assert(a != i);
                    assert(0 <= a < i && entries@[a].0@ == name);
                }
                if exists|a: int| 0 <= a < i && entries@[a].0@ == name {
                    let a = choose|a: int| 0 <= a < i && entries@[a].0@ == name;
                    assert(0 <= a < i + 1 && entries@[a].0@ == name);
                }
            }
        }
        i = i + 1;
    }
    assert forall|name: Seq<char>| #[trigger] texts(stored@).contains_key(name)
        == start.union_prefer_right(w).contains_key(name) by {
        if w.contains_key(name) {
            let a = choose|a: int| 0 <= a < entries@.len() && entries@[a].0@ == name;
            assert(0 <= a < i && entries@[a].0@ == name);
        }
        if exists|a: int| 0 <= a < i && entries@[a].0@ == name {
            let a = choose|a: int| 0 <= a < i && entries@[a].0@ == name;
            assert(writes@.contains_key(entries@[a].0@));
        }
    }
    assert forall|name: Seq<char>| #[trigger] texts(stored@).contains_key(name) implies texts(
        stored@,
    )[name] == start.union_prefer_right(w)[name] by {
        if w.contains_key(name) {
            let a = choose|a: int| 0 <= a < entries@.len() && entries@[a].0@ == name;
            assert(0 <= a < i && entries@[a].0@ == name);
        }
        if exists|a: int| 0 <= a < i && entries@[a].0@ == name {
            let a = choose|a: int| 0 <= a < i && entries@[a].0@ == name;
            assert(writes@.contains_key(entries@[a].0@));
        }
    }
    assert(texts(stored@) =~= start.union_prefer_right(w));
}

} // verus!
