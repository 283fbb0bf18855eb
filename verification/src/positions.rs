//! The named heights a desk can be sent to: a map from a position's name to
//! its height, kept in the order in which the names were first stored.

use crate::text::str_eq;
use vstd::prelude::*;

verus! {

/// A name with its height, as a specification value.
pub type Entry = (Seq<char>, u16);

/// No two entries share a name.
pub open spec fn distinct_names(entries: Seq<Entry>) -> bool {
    forall|i: int, j: int| 0 <= i < j < entries.len() ==> entries[i].0 != entries[j].0
}

/// Whether some entry carries `name`.
pub open spec fn has_name(entries: Seq<Entry>, name: Seq<char>) -> bool {
    exists|i: int| 0 <= i < entries.len() && (#[trigger] entries[i]).0 == name
}

/// The index of an entry that carries `name`, where there is one.
pub open spec fn index_of(entries: Seq<Entry>, name: Seq<char>) -> int {
    choose|i: int| 0 <= i < entries.len() && (#[trigger] entries[i]).0 == name
}

/// The map that a sequence of entries stands for.
pub open spec fn entries_map(entries: Seq<Entry>) -> Map<Seq<char>, u16> {
    Map::new(
        |name: Seq<char>| has_name(entries, name),
        |name: Seq<char>| entries[index_of(entries, name)].1,
    )
}

/// The entries after `height` is stored under `name`: in place of the entry
/// of that name where there is one, at the end where there is none.
pub open spec fn entries_with(entries: Seq<Entry>, name: Seq<char>, height: u16) -> Seq<Entry> {
    if has_name(entries, name) {
        entries.update(index_of(entries, name), (name, height))
    } else {
        entries.push((name, height))
    }
}

/// The entries after the entry named `name` is dropped, if there is one.
pub open spec fn entries_without(entries: Seq<Entry>, name: Seq<char>) -> Seq<Entry> {
    if has_name(entries, name) {
        entries.remove(index_of(entries, name))
    } else {
        entries
    }
}

/// With distinct names, the entry at index `i` is the one its name maps to.
pub proof fn lemma_entry_is_mapped(entries: Seq<Entry>, i: int)
    requires
        distinct_names(entries),
        0 <= i < entries.len(),
    ensures
        has_name(entries, entries[i].0),
        index_of(entries, entries[i].0) == i,
        entries_map(entries).contains_key(entries[i].0),
        entries_map(entries)[entries[i].0] == entries[i].1,
{
    let name = entries[i].0;
    let j = index_of(entries, name);
    assert(0 <= j < entries.len() && entries[j].0 == name);
    if j < i {
        assert(entries[j].0 != entries[i].0);
    } else if i < j {
        assert(entries[i].0 != entries[j].0);
    }
}

/// Appending an entry under a new name inserts it into the map.
pub proof fn lemma_push_inserts(entries: Seq<Entry>, name: Seq<char>, height: u16)
    requires
        distinct_names(entries),
        !has_name(entries, name),
    ensures
        distinct_names(entries.push((name, height))),
        entries_map(entries.push((name, height))) == entries_map(entries).insert(name, height),
{
    let after = entries.push((name, height));
    let last = entries.len() as int;
    assert forall|i: int, j: int| 0 <= i < j < after.len() implies after[i].0 != after[j].0 by {
        if j == last {
            assert(entries[i].0 != name);
        }
    }
    assert(after[last] == (name, height));
    assert forall|key: Seq<char>| has_name(after, key) <==> (key == name || has_name(
        entries,
        key,
    )) by {
        if has_name(after, key) {
            let i = index_of(after, key);
            if i < last {
                assert(entries[i].0 == key);
            }
        }
        if has_name(entries, key) {
            let i = index_of(entries, key);
            assert(after[i].0 == key);
        }
        if key == name {
            assert(after[last].0 == key);
        }
    }
    assert forall|key: Seq<char>| has_name(after, key) implies #[trigger] entries_map(after)[key]
        == entries_map(entries).insert(name, height)[key] by {
        let i = index_of(after, key);
        lemma_entry_is_mapped(after, i);
        if i < last {
            assert(after[i] == entries[i]);
            lemma_entry_is_mapped(entries, i);
        }
    }
    assert(entries_map(after) =~= entries_map(entries).insert(name, height));
}

/// Replacing the height of the entry at index `i` overwrites its name in the map.
pub proof fn lemma_update_overwrites(entries: Seq<Entry>, i: int, height: u16)
    requires
        distinct_names(entries),
        0 <= i < entries.len(),
    ensures
        distinct_names(entries.update(i, (entries[i].0, height))),
        entries_map(entries.update(i, (entries[i].0, height))) == entries_map(entries).insert(
            entries[i].0,
            height,
        ),
{
    let name = entries[i].0;
    let after = entries.update(i, (name, height));
    assert forall|a: int, b: int| 0 <= a < b < after.len() implies after[a].0 != after[b].0 by {
        assert(after[a].0 == entries[a].0);
        assert(after[b].0 == entries[b].0);
    }
    assert forall|key: Seq<char>| has_name(after, key) <==> (key == name || has_name(
        entries,
        key,
    )) by {
        if has_name(after, key) {
            let k = index_of(after, key);
            assert(entries[k].0 == key);
        }
        if has_name(entries, key) {
            let k = index_of(entries, key);
            assert(after[k].0 == key);
        }
        if key == name {
            assert(after[i].0 == key);
        }
    }
    assert forall|key: Seq<char>| has_name(after, key) implies #[trigger] entries_map(after)[key]
        == entries_map(entries).insert(name, height)[key] by {
        let k = index_of(after, key);
        lemma_entry_is_mapped(after, k);
        if k != i {
            assert(after[k] == entries[k]);
            lemma_entry_is_mapped(entries, k);
            if k < i {
                assert(entries[k].0 != entries[i].0);
            } else {
                assert(entries[i].0 != entries[k].0);
            }
        }
    }
    assert(entries_map(after) =~= entries_map(entries).insert(name, height));
}

/// Dropping the entry at index `i` removes its name from the map.
pub proof fn lemma_remove_removes(entries: Seq<Entry>, i: int)
    requires
        distinct_names(entries),
        0 <= i < entries.len(),
    ensures
        distinct_names(entries.remove(i)),
        entries_map(entries.remove(i)) == entries_map(entries).remove(entries[i].0),
{
    let name = entries[i].0;
    let after = entries.remove(i);
    assert forall|a: int| 0 <= a < after.len() implies #[trigger] after[a] == entries[if a < i {
        a
    } else {
        a + 1
    }] by {}
    assert forall|a: int, b: int| 0 <= a < b < after.len() implies after[a].0 != after[b].0 by {
        let x = if a < i { a } else { a + 1 };
        let y = if b < i { b } else { b + 1 };
        assert(after[a] == entries[x]);
        assert(after[b] == entries[y]);
        assert(entries[x].0 != entries[y].0);
    }
    assert forall|key: Seq<char>| has_name(after, key) <==> (key != name && has_name(
        entries,
        key,
    )) by {
        if has_name(after, key) {
            let a = index_of(after, key);
            let x = if a < i { a } else { a + 1 };
            assert(after[a] == entries[x]);
            assert(entries[x].0 == key);
            if x < i {
                assert(entries[x].0 != entries[i].0);
            } else {
                assert(entries[i].0 != entries[x].0);
            }
        }
        if key != name && has_name(entries, key) {
            let x = index_of(entries, key);
            let a = if x < i { x } else { x - 1 };
            assert(after[a] == entries[x]);
            assert(after[a].0 == key);
        }
    }
    assert forall|key: Seq<char>| has_name(after, key) implies #[trigger] entries_map(after)[key]
        == entries_map(entries).remove(name)[key] by {
        let a = index_of(after, key);
        let x = if a < i { a } else { a + 1 };
        lemma_entry_is_mapped(after, a);
        assert(after[a] == entries[x]);
        lemma_entry_is_mapped(entries, x);
    }
    assert(entries_map(after) =~= entries_map(entries).remove(name));
}

/// With distinct names, the entries before the last have distinct names, and
/// none of them has the name of the last.
pub proof fn lemma_last_name_is_new(entries: Seq<Entry>)
    requires
        distinct_names(entries),
        entries.len() > 0,
    ensures
        distinct_names(entries.drop_last()),
        !has_name(entries.drop_last(), entries.last().0),
{
    let front = entries.drop_last();
    assert forall|i: int, j: int| 0 <= i < j < front.len() implies front[i].0 != front[j].0 by {
        assert(entries[i].0 != entries[j].0);
    }
    if has_name(front, entries.last().0) {
        let i = index_of(front, entries.last().0);
        assert(entries[i].0 != entries[entries.len() - 1].0);
    }
}

/// With distinct names, the map has as many names as there are entries.
pub proof fn lemma_one_name_per_entry(entries: Seq<Entry>)
    requires
        distinct_names(entries),
    ensures
        entries_map(entries).dom().finite(),
        entries_map(entries).dom().len() == entries.len(),
    decreases entries.len(),
{
    if entries.len() == 0 {
        assert(entries_map(entries).dom() =~= Set::<Seq<char>>::empty());
    } else {
        let front = entries.drop_last();
        let last = entries.last();
        lemma_last_name_is_new(entries);
        lemma_one_name_per_entry(front);
        lemma_push_inserts(front, last.0, last.1);
        assert(front.push(last) =~= entries);
        assert(entries_map(entries).dom() =~= entries_map(front).dom().insert(last.0));
        assert(!entries_map(front).dom().contains(last.0));
    }
}

/// One stored position.
#[derive(Debug)]
pub struct PositionRecord {
    pub name: String,
    pub height: u16,
}

impl PositionRecord {
    /// The record as a specification value.
    pub open spec fn entry(&self) -> Entry {
        (self.name@, self.height)
    }
}

/// The entries that a sequence of records stands for, in the same order.
pub open spec fn record_entries(records: Seq<PositionRecord>) -> Seq<Entry> {
    records.map_values(|r: PositionRecord| r.entry())
}

/// The stored positions. No two of them share a name.
#[derive(Debug)]
pub struct Positions {
    records: Vec<PositionRecord>,
}

impl View for Positions {
    type V = Map<Seq<char>, u16>;

    /// The height stored under each name.
    open spec fn view(&self) -> Map<Seq<char>, u16> {
        entries_map(self.entries())
    }
}

impl Positions {
    /// The stored entries, in the order in which their names were first stored.
    pub closed spec fn entries(&self) -> Seq<Entry> {
        record_entries(self.records@)
    }

    /// What holds of every store: its names are pairwise distinct.
    #[verifier::type_invariant]
    pub open spec fn wf(&self) -> bool {
        distinct_names(self.entries())
    }

    /// A store without positions.
    pub fn new() -> (store: Positions)
        ensures
            store.wf(),
            store.entries() == Seq::<Entry>::empty(),
            store@ == Map::<Seq<char>, u16>::empty(),
    {
        let store = Positions { records: Vec::new() };
        assert(store.entries() =~= Seq::<Entry>::empty());
        assert(store@ =~= Map::<Seq<char>, u16>::empty());
        store
    }

    /// The number of stored positions.
    pub fn len(&self) -> (n: usize)
        ensures
            n == self.entries().len(),
            self@.dom().finite(),
            n == self@.dom().len(),
    {
        proof {
            use_type_invariant(self);
            lemma_one_name_per_entry(self.entries());
        }
        self.records.len()
    }

    /// Hands out the records and leaves the store empty.
    fn take_records(&mut self) -> (records: Vec<PositionRecord>)
        ensures
            records == old(self).records,
            final(self).records@.len() == 0,
    {
        let mut taken = Positions { records: Vec::new() };
        assert(taken.entries() =~= Seq::<Entry>::empty());
        core::mem::swap(self, &mut taken);
        let Positions { records } = taken;
        records
    }

    /// The index of the record named `name`.
    fn find(&self, name: &str) -> (found: Option<usize>)
        ensures
            match found {
                Some(i) => i < self.entries().len() && self.entries()[i as int].0 == name@,
                None => !has_name(self.entries(), name@),
            },
    {
        let mut i: usize = 0;
        while i < self.records.len()
            invariant
                i <= self.records.len(),
                forall|k: int| 0 <= k < i ==> (#[trigger] self.entries()[k]).0 != name@,
            decreases self.records.len() - i,
        {
            if str_eq(self.records[i].name.as_str(), name) {
                return Some(i);
            }
            i += 1;
        }
        None
    }

    /// Whether a position is stored under `name`.
    pub fn contains(&self, name: &str) -> (present: bool)
        ensures
            present == self@.contains_key(name@),
    {
        proof {
            use_type_invariant(self);
        }
        match self.find(name) {
            Some(i) => {
                proof {
                    lemma_entry_is_mapped(self.entries(), i as int);
                }
                true
            },
            None => false,
        }
    }

    /// The height stored under `name`.
    pub fn get(&self, name: &str) -> (height: Option<u16>)
        ensures
            height == (if self@.contains_key(name@) {
                Some(self@[name@])
            } else {
                None
            }),
    {
        proof {
            use_type_invariant(self);
        }
        match self.find(name) {
            Some(i) => {
                proof {
                    lemma_entry_is_mapped(self.entries(), i as int);
                }
                Some(self.records[i].height)
            },
            None => None,
        }
    }

    /// Stores `height` under `name`, in place of a height already stored under
    /// that name, and returns the height that was there before.
    pub fn insert(&mut self, name: String, height: u16) -> (previous: Option<u16>)
        ensures
            final(self).wf(),
            final(self)@ == old(self)@.insert(name@, height),
            previous == (if old(self)@.contains_key(name@) {
                Some(old(self)@[name@])
            } else {
                None
            }),
            final(self).entries() == entries_with(old(self).entries(), name@, height),
    {
        proof {
            use_type_invariant(&*self);
        }
        let ghost before = self.entries();
        match self.find(name.as_str()) {
            Some(i) => {
                let previous = self.records[i].height;
                proof {
                    lemma_entry_is_mapped(before, i as int);
                    lemma_update_overwrites(before, i as int, height);
                    assert(record_entries(self.records@.update(i as int, PositionRecord { name, height }))
                        =~= before.update(i as int, (name@, height)));
                }
                let mut records = self.take_records();
                records.set(i, PositionRecord { name, height });
                *self = Positions { records };
                Some(previous)
            },
            None => {
                proof {
                    lemma_push_inserts(before, name@, height);
                    assert(record_entries(self.records@.push(PositionRecord { name, height }))
                        =~= before.push((name@, height)));
                }
                let mut records = self.take_records();
                records.push(PositionRecord { name, height });
                *self = Positions { records };
                None
            },
        }
    }

    /// Drops the position stored under `name` and returns its height.
    pub fn remove(&mut self, name: &str) -> (removed: Option<u16>)
        ensures
            final(self).wf(),
            final(self)@ == old(self)@.remove(name@),
            removed == (if old(self)@.contains_key(name@) {
                Some(old(self)@[name@])
            } else {
                None
            }),
            final(self).entries() == entries_without(old(self).entries(), name@),
            !old(self)@.contains_key(name@) ==> *final(self) == *old(self),
    {
        proof {
            use_type_invariant(&*self);
        }
        let ghost before = self.entries();
        match self.find(name) {
            Some(i) => {
                proof {
                    lemma_entry_is_mapped(before, i as int);
                    lemma_remove_removes(before, i as int);
                    assert(record_entries(self.records@.remove(i as int)) =~= before.remove(
                        i as int,
                    ));
                }
                let mut records = self.take_records();
                let record = records.remove(i);
                *self = Positions { records };
                Some(record.height)
            },
            None => {
                assert(self@ =~= self@.remove(name@));
                None
            },
        }
    }

    /// The stored records, in the order in which their names were first stored.
    pub fn records(&self) -> (records: &Vec<PositionRecord>)
        ensures
            record_entries(records@) == self.entries(),
            distinct_names(record_entries(records@)),
    {
        proof {
            use_type_invariant(self);
        }
        &self.records
    }

    /// The store that holds the given records. Where two of them share a
    /// name, the later one counts.
    pub fn from_records(records: Vec<PositionRecord>) -> (store: Positions)
        ensures
            store.wf(),
            store@ == rebuilt(record_entries(records@)),
    {
        let mut store = Positions::new();
        let ghost all = record_entries(records@);
        assert(all.take(0) =~= Seq::<Entry>::empty());
        let mut i: usize = 0;
        while i < records.len()
            invariant
                i <= records.len(),
                all == record_entries(records@),
                store@ == rebuilt(all.take(i as int)),
            decreases records.len() - i,
        {
            proof {
                assert(all.take(i + 1).drop_last() =~= all.take(i as int));
                assert(all.take(i + 1).last() == records[i as int].entry());
            }
            store.insert(records[i].name.clone(), records[i].height);
            i += 1;
        }
        proof {
            use_type_invariant(&store);
            assert(all.take(i as int) =~= all);
        }
        store
    }
}

/// The map that comes of storing the entries one after the other, a later
/// entry in place of an earlier one of the same name.
pub open spec fn rebuilt(entries: Seq<Entry>) -> Map<Seq<char>, u16>
    decreases entries.len(),
{
    if entries.len() == 0 {
        Map::empty()
    } else {
        rebuilt(entries.drop_last()).insert(entries.last().0, entries.last().1)
    }
}

/// A store rebuilt from its own records holds the same positions: where no
/// two entries share a name, storing them one after the other gives the map
/// that they stand for.
pub proof fn law_rebuilt_from_records(entries: Seq<Entry>)
    requires
        distinct_names(entries),
    ensures
        rebuilt(entries) == entries_map(entries),
    decreases entries.len(),
{
    if entries.len() == 0 {
        assert(entries_map(entries) =~= Map::<Seq<char>, u16>::empty());
    } else {
        let front = entries.drop_last();
        let last = entries.last();
        lemma_last_name_is_new(entries);
        law_rebuilt_from_records(front);
        lemma_push_inserts(front, last.0, last.1);
        assert(front.push(last) =~= entries);
    }
}

} // verus!
