//! Metadata strings keyed by token id, at most one per id.
use vstd::prelude::*;

verus! {

/// The metadata string stored for one id.
struct Entry {
    id: u64,
    text: String,
}

/// A map from token ids to metadata strings.
pub struct MetadataTable {
    entries: Vec<Entry>,
}

impl MetadataTable {
    /// No two entries share an id.
    pub closed spec fn wf(&self) -> bool {
        forall|i: int, j: int|
            0 <= i < self.entries@.len() && 0 <= j < self.entries@.len() && i != j
                ==> #[trigger] self.entries@[i].id != #[trigger] self.entries@[j].id
    }

    /// The string stored for `id`, if any.
    pub closed spec fn lookup(&self, id: u64) -> Option<Seq<char>> {
        if exists|i: int| 0 <= i < self.entries@.len() && self.entries@[i].id == id {
            Some(
                self.entries@[choose|i: int|
                    0 <= i < self.entries@.len() && self.entries@[i].id == id].text@,
            )
        } else {
            None
        }
    }

    pub fn new() -> (t: MetadataTable)
        ensures
            t.wf(),
            forall|id: u64| #[trigger] t.lookup(id) is None,
    {
        MetadataTable { entries: Vec::new() }
    }

    fn find(&self, id: u64) -> (r: Option<usize>)
        ensures
            match r {
                Some(i) => i < self.entries@.len() && self.entries@[i as int].id == id,
                None => forall|i: int| 0 <= i < self.entries@.len() ==> self.entries@[i].id != id,
            },
    {
        let mut i: usize = 0;
        while i < self.entries.len()
            invariant
                i <= self.entries@.len(),
                forall|k: int| 0 <= k < i ==> self.entries@[k].id != id,
            decreases self.entries@.len() - i,
        {
            if self.entries[i].id == id {
                return Some(i);
            }
            i = i + 1;
        }
        None
    }

    /// A copy of the string stored for `id`.
    pub fn get(&self, id: u64) -> (r: Option<String>)
        requires
            self.wf(),
        ensures
            match r {
                Some(s) => self.lookup(id) == Some(s@),
                None => self.lookup(id) is None,
            },
    {
        match self.find(id) {
            Some(i) => {
                proof {
                    let j = choose|j: int|
                        0 <= j < self.entries@.len() && self.entries@[j].id == id;
                    assert(j == i);
                }
                Some(self.entries[i].text.clone())
            },
            None => None,
        }
    }

    /// Stores `text` for `id`, replacing any earlier string.
    pub fn set(&mut self, id: u64, text: String)
        requires
            old(self).wf(),
        ensures
            final(self).wf(),
            forall|t: u64|
                #[trigger] final(self).lookup(t) == if t == id {
                    Some(text@)
                } else {
                    old(self).lookup(t)
                },
    {
        let ghost before = self.entries@;
        let ghost w: int;
        match self.find(id) {
            Some(i) => {
                self.entries.set(i, Entry { id, text });
                proof {
                    w = i as int;
                }
            },
            None => {
                self.entries.push(Entry { id, text });
                proof {
                    w = before.len() as int;
                }
            },
        }
        proof {
            let after = self.entries@;
            assert(after[w].id == id && after[w].text@ == text@);
            assert(forall|j: int| 0 <= j < after.len() && j != w ==> after[j] == before[j]);
            assert(forall|j: int| 0 <= j < before.len() && before[j].id == id ==> j == w);
            assert forall|i: int, j: int|
                0 <= i < after.len() && 0 <= j < after.len() && i != j implies #[trigger] after[i].id
                    != #[trigger] after[j].id by {
                if i != w && j != w {
                    assert(after[i] == before[i] && after[j] == before[j]);
                }
            }
            assert forall|t: u64| #[trigger]
                self.lookup(t) == if t == id {
                    Some(text@)
                } else {
                    old(self).lookup(t)
                } by {
                if t == id {
                    let j = choose|j: int| 0 <= j < after.len() && after[j].id == id;
                    assert(j == w);
                } else if exists|j: int| 0 <= j < before.len() && before[j].id == t {
                    let j = choose|j: int| 0 <= j < before.len() && before[j].id == t;
                    assert(after[j] == before[j]);
                    let j2 = choose|j2: int| 0 <= j2 < after.len() && after[j2].id == t;
                    assert(j2 != w);
                    assert(after[j2] == before[j2]);
                } else if exists|j: int| 0 <= j < after.len() && after[j].id == t {
                    let j2 = choose|j2: int| 0 <= j2 < after.len() && after[j2].id == t;
                    assert(j2 != w);
                    assert(after[j2] == before[j2]);
                }
            }
        }
    }
}

} // verus!
