//! Values under text keys.

use vstd::prelude::*;

use crate::text;

verus! {

/// Values under text keys, each key once.
#[derive(Debug, Clone)]
pub struct Table<V: View> {
    entries: Vec<(String, V)>,
}

/// The map that entries make, a later one in place of an earlier one.
pub open spec fn map_of<V: View>(entries: Seq<(String, V)>) -> Map<Seq<char>, V::V>
    decreases entries.len(),
{
    if entries.len() == 0 {
        Map::empty()
    } else {
        map_of(entries.drop_last()).insert(entries.last().0@, entries.last().1@)
    }
}

/// Whether no key stands twice.
pub open spec fn keys_differ<V>(entries: Seq<(String, V)>) -> bool {
    forall|i: int, j: int|
        0 <= i < j < entries.len() ==> (#[trigger] entries[i]).0@ != (#[trigger] entries[j]).0@
}

proof fn map_of_update<V: View>(entries: Seq<(String, V)>, at: int, entry: (String, V))
    requires
        0 <= at < entries.len(),
        keys_differ(entries),
        entries[at].0@ == entry.0@,
    ensures
        map_of(entries.update(at, entry)) == map_of(entries).insert(entry.0@, entry.1@),
        keys_differ(entries.update(at, entry)),
    decreases entries.len(),
{
    let changed = entries.update(at, entry);
    let before = entries.drop_last();
    assert(keys_differ(before)) by {
        assert forall|i: int, j: int| 0 <= i < j < before.len() implies (#[trigger] before[i]).0@ != (
        #[trigger] before[j]).0@ by {
            assert(before[i] == entries[i] && before[j] == entries[j]);
        }
    }
    if at == entries.len() - 1 {
        assert(changed.drop_last() =~= before);
        assert(map_of(changed) =~= map_of(entries).insert(entry.0@, entry.1@));
    } else {
        map_of_update(before, at, entry);
        assert(changed.drop_last() =~= before.update(at, entry));
        assert(changed.last() == entries.last());
        assert(entries[at].0@ != entries[entries.len() - 1].0@);
        assert(map_of(changed) =~= map_of(entries).insert(entry.0@, entry.1@));
    }
}

/// Each key has a value, its own where no key stands twice.
pub proof fn keys_are_mapped<V: View>(entries: Seq<(String, V)>, i: int)
    requires
        0 <= i < entries.len(),
    ensures
        map_of(entries).dom().contains(entries[i].0@),
        keys_differ(entries) ==> map_of(entries)[entries[i].0@] == entries[i].1@,
    decreases entries.len(),
{
    let before = entries.drop_last();
    if i < entries.len() - 1 {
        assert(before[i] == entries[i]);
        keys_are_mapped(before, i);
        if keys_differ(entries) {
            assert forall|a: int, b: int| 0 <= a < b < before.len() implies (#[trigger] before[a]).0@
                != (#[trigger] before[b]).0@ by {
                assert(before[a] == entries[a] && before[b] == entries[b]);
            }
            assert(entries[i].0@ != entries[entries.len() - 1].0@);
        }
    }
}

/// A text that is no key has no value.
pub proof fn other_keys_are_not_mapped<V: View>(entries: Seq<(String, V)>, key: Seq<char>)
    requires
        forall|k: int| 0 <= k < entries.len() ==> (#[trigger] entries[k]).0@ != key,
    ensures
        !map_of(entries).dom().contains(key),
    decreases entries.len(),
{
    if entries.len() > 0 {
        let before = entries.drop_last();
        assert forall|k: int| 0 <= k < before.len() implies (#[trigger] before[k]).0@ != key by {
            assert(before[k] == entries[k]);
        }
        other_keys_are_not_mapped(before, key);
        assert(entries[entries.len() - 1].0@ != key);
    }
}

impl<V: View> Table<V> {
    /// The entries in the order in which their keys were first used.
    pub closed spec fn list(&self) -> Seq<(String, V)> {
        self.entries@
    }

    /// The values by their keys.
    pub open spec fn map(&self) -> Map<Seq<char>, V::V> {
        map_of(self.list())
    }

    /// Whether no key stands twice.
    pub open spec fn wf(&self) -> bool {
        keys_differ(self.list())
    }

    /// The table without entries.
    pub fn new() -> (out: Self)
        ensures
            out.wf(),
            out.map() == Map::<Seq<char>, V::V>::empty(),
    {
        let out = Table { entries: Vec::new() };
        assert(out.map() =~= Map::empty());
        out
    }

    /// How many entries there are.
    pub fn len(&self) -> (count: usize)
        ensures
            count == self.list().len(),
    {
        self.entries.len()
    }

    /// The entry at `index`.
    pub fn entry(&self, index: usize) -> (out: (&String, &V))
        requires
            index < self.list().len(),
        ensures
            *out.0 == self.list()[index as int].0,
            *out.1 == self.list()[index as int].1,
    {
        let entry = &self.entries[index];
        (&entry.0, &entry.1)
    }

    /// The place of the entry with the given key.
    pub fn find(&self, key: &str) -> (at: Option<usize>)
        ensures
            match at {
                Some(i) => i < self.list().len() && self.list()[i as int].0@ == key@
                    && self.map().dom().contains(key@) && (self.wf() ==> self.map()[key@]
                    == self.list()[i as int].1@),
                None => !self.map().dom().contains(key@) && forall|k: int|
                    0 <= k < self.list().len() ==> (#[trigger] self.list()[k]).0@ != key@,
            },
    {
        let mut i: usize = 0;
        while i < self.entries.len()
            invariant
                i <= self.entries@.len(),
                forall|k: int| 0 <= k < i ==> (#[trigger] self.entries@[k]).0@ != key@,
            decreases self.entries.len() - i,
        {
            if text::text_eq(self.entries[i].0.as_str(), key) {
                proof {
                    keys_are_mapped(self.entries@, i as int);
                }
                return Some(i);
            }
            i += 1;
        }
        proof {
            other_keys_are_not_mapped(self.entries@, key@);
        }
        None
    }

    /// Puts `value` under `key`, in place of what was there.
    pub fn insert(&mut self, key: String, value: V)
        requires
            old(self).wf(),
        ensures
            final(self).wf(),
            final(self).map() == old(self).map().insert(key@, value@),
    {
        let ghost before = self.entries@;
        let mut i: usize = 0;
        while i < self.entries.len()
            invariant
                i <= self.entries@.len(),
                self.entries@ == before,
                before == old(self).list(),
                keys_differ(before),
                forall|k: int| 0 <= k < i ==> (#[trigger] before[k]).0@ != key@,
            decreases self.entries.len() - i,
        {
            if text::text_eq(self.entries[i].0.as_str(), key.as_str()) {
                proof {
                    map_of_update(before, i as int, (key, value));
                }
                self.entries.set(i, (key, value));
                assert(self.entries@ =~= before.update(i as int, (key, value)));
                return ;
            }
            i += 1;
        }
        self.entries.push((key, value));
        assert(self.entries@.drop_last() =~= before);
    }
}

} // verus!
