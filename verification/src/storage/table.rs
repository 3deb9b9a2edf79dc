//! The table that a load builds: string keys, each with a list of strings.

use crate::storage::text::same_text;
use vstd::prelude::*;

verus! {

/// What a table is in contracts: a finite map from a key's characters to the
/// strings listed under it, in their order.
pub type Table = Map<Seq<char>, Seq<Seq<char>>>;

/// One key with the strings listed under it.
#[derive(Debug, Clone, PartialEq, Eq)]
pub struct Entry {
    pub key: String,
    pub values: Vec<String>,
}

impl Entry {
    /// The key's characters.
    pub open spec fn spec_key(&self) -> Seq<char> {
        self.key@
    }

    /// The listed strings, each as its characters.
    pub open spec fn spec_values(&self) -> Seq<Seq<char>> {
        self.values.deep_view()
    }
}

/// The map that a list of entries stands for. Where a key occurs twice, the
/// later entry counts.
pub open spec fn entries_map(entries: Seq<Entry>) -> Table
    decreases entries.len(),
{
    if entries.len() == 0 {
        Map::empty()
    } else {
        entries_map(entries.drop_last()).insert(
            entries.last().spec_key(),
            entries.last().spec_values(),
        )
    }
}

/// No key occurs in two entries.
pub open spec fn distinct_keys(entries: Seq<Entry>) -> bool {
    forall|i: int, j: int|
        0 <= i < j < entries.len() ==> entries[i].spec_key() != entries[j].spec_key()
}

/// Whether some entry has the key.
pub open spec fn has_key(entries: Seq<Entry>, key: Seq<char>) -> bool {
    exists|i: int| 0 <= i < entries.len() && #[trigger] entries[i].spec_key() == key
}

/// The keys of the map are the keys of the entries, and the map is finite.
pub proof fn lemma_entries_map_keys(entries: Seq<Entry>)
    ensures
        entries_map(entries).dom().finite(),
        forall|key: Seq<char>| #[trigger]
            entries_map(entries).contains_key(key) <==> has_key(entries, key),
    decreases entries.len(),
{
    if entries.len() > 0 {
        let front = entries.drop_last();
        lemma_entries_map_keys(front);
        assert forall|key: Seq<char>| #[trigger]
            entries_map(entries).contains_key(key) <==> has_key(entries, key) by {
            if has_key(entries, key) {
                let i = choose|i: int|
                    0 <= i < entries.len() && #[trigger] entries[i].spec_key() == key;
                if i < front.len() {
                    assert(front[i].spec_key() == key);
                }
            }
            if has_key(front, key) {
                let i = choose|i: int|
                    0 <= i < front.len() && #[trigger] front[i].spec_key() == key;
                assert(entries[i].spec_key() == key);
            }
            if key == entries.last().spec_key() {
                assert(entries[entries.len() - 1].spec_key() == key);
            }
        }
    }
}

/// Where no key occurs twice, each entry's key leads to that entry's strings,
/// and the map has as many keys as there are entries.
pub proof fn lemma_entries_map_values(entries: Seq<Entry>)
    requires
        distinct_keys(entries),
    ensures
        entries_map(entries).len() == entries.len(),
        forall|i: int|
            0 <= i < entries.len() ==> entries_map(entries)[#[trigger] entries[i].spec_key()]
                == entries[i].spec_values(),
    decreases entries.len(),
{
    if entries.len() > 0 {
        let front = entries.drop_last();
        lemma_entries_map_values(front);
        lemma_entries_map_keys(front);
        assert forall|i: int| 0 <= i < entries.len() implies entries_map(
            entries,
        )[#[trigger] entries[i].spec_key()] == entries[i].spec_values() by {
            if i < front.len() {
                assert(front[i].spec_key() == entries[i].spec_key());
            }
        }
    }
}

/// The table of a load. No key occurs twice in it.
#[derive(Debug)]
pub struct Data {
    entries: Vec<Entry>,
}

impl View for Data {
    type V = Table;

    closed spec fn view(&self) -> Table {
        entries_map(self.entries@)
    }
}

impl Default for Data {
    /// The empty table.
    fn default() -> (table: Data)
        ensures
            table@ == Table::empty(),
    {
        Data::new()
    }
}

impl Data {
    #[verifier::type_invariant]
    spec fn keys_are_distinct(&self) -> bool {
        distinct_keys(self.entries@)
    }

    /// The empty table.
    pub fn new() -> (table: Data)
        ensures
            table@ == Table::empty(),
    {
        Data { entries: Vec::new() }
    }

    /// The table's entries, in no stated order.
    pub fn entries(&self) -> (entries: &Vec<Entry>)
        ensures
            distinct_keys(entries@),
            entries_map(entries@) == self@,
    {
        proof {
            use_type_invariant(self);
        }
        &self.entries
    }

    /// How many keys the table has.
    pub fn len(&self) -> (count: usize)
        ensures
            count == self@.len(),
            self@.dom().finite(),
    {
        proof {
            use_type_invariant(self);
            lemma_entries_map_values(self.entries@);
            lemma_entries_map_keys(self.entries@);
        }
        self.entries.len()
    }

    /// Whether the table has no key.
    pub fn is_empty(&self) -> (empty: bool)
        ensures
            empty == (self@ == Table::empty()),
    {
        proof {
            if self.entries@.len() > 0 {
                assert(entries_map(self.entries@).contains_key(self.entries@.last().spec_key()));
            }
        }
        self.entries.len() == 0
    }

    /// Where the key stands among the entries.
    fn position(&self, key: &str) -> (at: Option<usize>)
        ensures
            match at {
                Some(i) => i < self.entries.len() && self.entries[i as int].spec_key() == key@,
                None => !has_key(self.entries@, key@),
            },
    {
        let mut i: usize = 0;
        while i < self.entries.len()
            invariant
                i <= self.entries.len(),
                forall|j: int| 0 <= j < i ==> self.entries[j].spec_key() != key@,
            decreases self.entries.len() - i,
        {
            if same_text(self.entries[i].key.as_str(), key) {
                return Some(i);
            }
            i += 1;
        }
        None
    }

    /// Whether the table has the key.
    pub fn contains_key(&self, key: &str) -> (found: bool)
        ensures
            found == self@.contains_key(key@),
    {
        proof {
            lemma_entries_map_keys(self.entries@);
        }
        self.position(key).is_some()
    }

    /// The strings listed under the key, if the table has it.
    pub fn get(&self, key: &str) -> (values: Option<&Vec<String>>)
        ensures
            match values {
                Some(found) => self@.contains_key(key@) && found.deep_view() == self@[key@],
                None => !self@.contains_key(key@),
            },
    {
        proof {
            use_type_invariant(self);
            lemma_entries_map_keys(self.entries@);
            lemma_entries_map_values(self.entries@);
        }
        match self.position(key) {
            Some(i) => Some(&self.entries[i].values),
            None => None,
        }
    }

    /// Lists `values` under `key`. What the key had before is dropped.
    pub fn insert(&mut self, key: String, values: Vec<String>)
        ensures
            final(self)@ == old(self)@.insert(key@, values.deep_view()),
    {
        proof {
            use_type_invariant(&*self);
        }
        let ghost before = self.entries@;
        let entry = Entry { key, values };
        let found = self.position(entry.key.as_str());
        let mut entries: Vec<Entry> = Vec::new();
        core::mem::swap(&mut self.entries, &mut entries);
        match found {
            Some(i) => {
                entries[i] = entry;
                proof {
                    lemma_update_entry(before, i as int, entry);
                }
            },
            None => {
                entries.push(entry);
                proof {
                    assert(entries@.drop_last() == before);
                }
            },
        }
        self.entries = entries;
    }

    /// Inserts the entries one after the other, so that of two entries with
    /// one key the later stays.
    pub fn extend(&mut self, entries: Vec<Entry>)
        ensures
            final(self)@ == old(self)@.union_prefer_right(entries_map(entries@)),
    {
        let ghost start = self@;
        for entry in iter: entries
            invariant
                iter.seq() == entries@,
                self@ == start.union_prefer_right(
                    entries_map(entries@.take(iter.index() as int)),
                ),
        {
            proof {
                let done = entries@.take(iter.index() as int);
                let next = entries@.take(iter.index() + 1);
                assert(next.drop_last() == done);
            }
            self.insert(entry.key, entry.values);
        }
        proof {
            assert(entries@.take(entries@.len() as int) == entries@);
        }
    }

    /// Takes over every key of `other`. Where both tables have a key,
    /// `other`'s strings replace this table's.
    pub fn merge(&mut self, other: Data)
        ensures
            final(self)@ == old(self)@.union_prefer_right(other@),
    {
        self.extend(other.entries);
    }
}

/// Replacing the strings of an entry changes the map at that entry's key and
/// nowhere else, and leaves the keys distinct.
proof fn lemma_update_entry(entries: Seq<Entry>, at: int, entry: Entry)
    requires
        distinct_keys(entries),
        0 <= at < entries.len(),
        entries[at].spec_key() == entry.spec_key(),
    ensures
        distinct_keys(entries.update(at, entry)),
        entries_map(entries.update(at, entry)) == entries_map(entries).insert(
            entry.spec_key(),
            entry.spec_values(),
        ),
{
    let after = entries.update(at, entry);
    lemma_entries_map_keys(entries);
    lemma_entries_map_keys(after);
    lemma_entries_map_values(entries);
    lemma_entries_map_values(after);
    let want = entries_map(entries).insert(entry.spec_key(), entry.spec_values());
    assert forall|key: Seq<char>| entries_map(after).contains_key(key) <==> want.contains_key(
        key,
    ) by {
        if has_key(after, key) {
            let i = choose|i: int| 0 <= i < after.len() && #[trigger] after[i].spec_key() == key;
            assert(entries[i].spec_key() == key);
        }
        if has_key(entries, key) {
            let i = choose|i: int|
                0 <= i < entries.len() && #[trigger] entries[i].spec_key() == key;
            assert(after[i].spec_key() == key);
        }
    }
    assert(entries_map(after) =~= want);
}

} // verus!
