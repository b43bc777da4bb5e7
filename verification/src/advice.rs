//! The advice map: non-deterministic inputs the machine can access by
//! digest-valued keys.

use crate::felt::Felt;
use crate::word::Word;
use vstd::prelude::*;

verus! {

/// The values bound to a key, scanning entries first to last.
pub open spec fn map_lookup(entries: Seq<(Word, Vec<Felt>)>, key: Word) -> Option<Vec<Felt>>
    decreases entries.len(),
{
    if entries.len() == 0 {
        None
    } else if entries[0].0 == key {
        Some(entries[0].1)
    } else {
        map_lookup(entries.subrange(1, entries.len() as int), key)
    }
}

/// No two entries share a key.
pub open spec fn unique_keys(entries: Seq<(Word, Vec<Felt>)>) -> bool {
    forall|i: int, j: int| 0 <= i < j < entries.len() ==> (#[trigger] entries[i]).0 != (
    #[trigger] entries[j]).0
}

/// Replacing the entry that holds a key rebinds exactly that key.
proof fn lemma_lookup_update(entries: Seq<(Word, Vec<Felt>)>, i: int, value: Vec<Felt>)
    requires
        unique_keys(entries),
        0 <= i < entries.len(),
    ensures
        map_lookup(entries.update(i, (entries[i].0, value)), entries[i].0) == Some(value),
        forall|k: Word|
            k != entries[i].0 ==> #[trigger] map_lookup(
                entries.update(i, (entries[i].0, value)),
                k,
            ) == map_lookup(entries, k),
        unique_keys(entries.update(i, (entries[i].0, value))),
    decreases entries.len(),
{
    let upd = entries.update(i, (entries[i].0, value));
    if i == 0 {
        assert(upd.subrange(1, upd.len() as int) =~= entries.subrange(1, entries.len() as int));
    } else {
        assert(upd[0] == entries[0]);
        assert(upd.subrange(1, upd.len() as int) =~= entries.subrange(
            1,
            entries.len() as int,
        ).update(i - 1, (entries[i].0, value)));
        assert(entries.subrange(1, entries.len() as int)[i - 1] == entries[i]);
        lemma_lookup_update(entries.subrange(1, entries.len() as int), i - 1, value);
        assert forall|k: Word| k != entries[i].0 implies #[trigger] map_lookup(upd, k)
            == map_lookup(entries, k) by {
            if entries[0].0 != k {
                assert(map_lookup(upd.subrange(1, upd.len() as int), k) == map_lookup(
                    entries.subrange(1, entries.len() as int),
                    k,
                ));
            }
        }
    }
}

/// Removing the entry that holds a key unbinds exactly that key.
proof fn lemma_lookup_remove(entries: Seq<(Word, Vec<Felt>)>, i: int)
    requires
        unique_keys(entries),
        0 <= i < entries.len(),
    ensures
        map_lookup(entries.remove(i), entries[i].0) is None,
        forall|k: Word|
            k != entries[i].0 ==> #[trigger] map_lookup(entries.remove(i), k) == map_lookup(
                entries,
                k,
            ),
        unique_keys(entries.remove(i)),
    decreases entries.len(),
{
    let rem = entries.remove(i);
    if i == 0 {
        assert(rem =~= entries.subrange(1, entries.len() as int));
        lemma_lookup_absent(rem, entries[0].0);
    } else {
        assert(rem[0] == entries[0]);
        assert(rem.subrange(1, rem.len() as int) =~= entries.subrange(
            1,
            entries.len() as int,
        ).remove(i - 1));
        assert(entries.subrange(1, entries.len() as int)[i - 1] == entries[i]);
        lemma_lookup_remove(entries.subrange(1, entries.len() as int), i - 1);
        assert forall|k: Word| k != entries[i].0 implies #[trigger] map_lookup(rem, k)
            == map_lookup(entries, k) by {
            if entries[0].0 != k {
                assert(map_lookup(rem.subrange(1, rem.len() as int), k) == map_lookup(
                    entries.subrange(1, entries.len() as int),
                    k,
                ));
            }
        }
    }
}

/// A key held by no entry looks up to nothing.
proof fn lemma_lookup_absent(entries: Seq<(Word, Vec<Felt>)>, key: Word)
    requires
        forall|i: int| 0 <= i < entries.len() ==> (#[trigger] entries[i]).0 != key,
    ensures
        map_lookup(entries, key) is None,
    decreases entries.len(),
{
    if entries.len() > 0 {
        assert(entries.subrange(1, entries.len() as int) =~= entries.drop_first());
        assert(forall|i: int|
            0 <= i < entries.drop_first().len() ==> (#[trigger] entries.drop_first()[i])
                == entries[i + 1]);
        lemma_lookup_absent(entries.drop_first(), key);
    }
}

/// Appending a fresh key binds exactly that key.
proof fn lemma_lookup_push(entries: Seq<(Word, Vec<Felt>)>, key: Word, value: Vec<Felt>)
    requires
        unique_keys(entries),
        forall|i: int| 0 <= i < entries.len() ==> (#[trigger] entries[i]).0 != key,
    ensures
        map_lookup(entries.push((key, value)), key) == Some(value),
        forall|k: Word|
            k != key ==> #[trigger] map_lookup(entries.push((key, value)), k) == map_lookup(
                entries,
                k,
            ),
        unique_keys(entries.push((key, value))),
    decreases entries.len(),
{
    let ext = entries.push((key, value));
    if entries.len() == 0 {
        assert(ext[0] == (key, value));
        assert forall|k: Word| k != key implies #[trigger] map_lookup(ext, k) == map_lookup(
            entries,
            k,
        ) by {
            assert(ext.subrange(1, ext.len() as int) =~= entries);
        }
    } else {
        assert(ext[0] == entries[0]);
        assert(ext.subrange(1, ext.len() as int) =~= entries.subrange(
            1,
            entries.len() as int,
        ).push((key, value)));
        lemma_lookup_push(entries.subrange(1, entries.len() as int), key, value);
        assert forall|k: Word| k != key implies #[trigger] map_lookup(ext, k) == map_lookup(
            entries,
            k,
        ) by {
            if entries[0].0 != k {
                assert(map_lookup(ext.subrange(1, ext.len() as int), k) == map_lookup(
                    entries.subrange(1, entries.len() as int),
                    k,
                ));
            }
        }
    }
}

/// A set of non-deterministic (advice) inputs addressable by key.
///
/// Each key binds a list of field elements; the machine moves the
/// bound values onto the advice stack, and may bind new values during
/// execution.
pub struct AdviceMap {
    pub entries: Vec<(Word, Vec<Felt>)>,
}

impl AdviceMap {
    /// No two entries share a key.
    pub open spec fn wf(self) -> bool {
        unique_keys(self.entries@)
    }

    /// Creates a new advice map.
    pub fn new() -> (r: AdviceMap)
        ensures
            r.wf(),
            r.entries@.len() == 0,
    {
        AdviceMap { entries: Vec::new() }
    }

    /// Looks for the entry of a key; an internal helper for the map
    /// operations.
    fn position(&self, key: &Word) -> (r: Option<usize>)
        ensures
            match r {
                Some(i) => i < self.entries@.len() && self.entries@[i as int].0 == *key,
                None => forall|i: int|
                    0 <= i < self.entries@.len() ==> (#[trigger] self.entries@[i]).0 != *key,
            },
    {
        let n = self.entries.len();
        let mut i: usize = 0;
        while i < n
            invariant
                n == self.entries@.len(),
                i <= n,
                forall|j: int| 0 <= j < i ==> (#[trigger] self.entries@[j]).0 != *key,
            decreases n - i,
        {
            if self.entries[i].0 == *key {
                return Some(i);
            }
            i = i + 1;
        }
        None
    }

    /// Returns the values associated with the given key.
    pub fn get(&self, key: &Word) -> (r: Option<&Vec<Felt>>)
        requires
            self.wf(),
        ensures
            match r {
                Some(v) => map_lookup(self.entries@, *key) == Some(*v),
                None => map_lookup(self.entries@, *key) is None,
            },
    {
        match self.position(key) {
            Some(i) => {
                proof {
                    lemma_lookup_at(self.entries@, i as int, *key);
                }
                Some(&self.entries[i].1)
            },
            None => {
                proof {
                    lemma_lookup_absent(self.entries@, *key);
                }
                None
            },
        }
    }

    /// Inserts a key-value pair and returns the value the key was
    /// bound to before, if any.
    pub fn insert(&mut self, key: Word, value: Vec<Felt>) -> (r: Option<Vec<Felt>>)
        requires
            old(self).wf(),
            old(self).entries@.len() < usize::MAX,
        ensures
            final(self).wf(),
            map_lookup(final(self).entries@, key) == Some(value),
            forall|k: Word|
                k != key ==> #[trigger] map_lookup(final(self).entries@, k) == map_lookup(
                    old(self).entries@,
                    k,
                ),
            match r {
                Some(v) => map_lookup(old(self).entries@, key) == Some(v),
                None => map_lookup(old(self).entries@, key) is None,
            },
    {
        match self.position(&key) {
            Some(i) => {
                proof {
                    lemma_lookup_at(self.entries@, i as int, key);
                    lemma_lookup_update(self.entries@, i as int, value);
                }
                let prev = self.entries.remove(i);
                self.entries.insert(i, (key, value));
                proof {
                    assert(self.entries@ =~= old(self).entries@.update(i as int, (key, value)));
                }
                Some(prev.1)
            },
            None => {
                proof {
                    lemma_lookup_absent(self.entries@, key);
                    lemma_lookup_push(self.entries@, key, value);
                }
                self.entries.push((key, value));
                None
            },
        }
    }

    /// Removes the value associated with the key and returns it, if
    /// any.
    pub fn remove(&mut self, key: Word) -> (r: Option<Vec<Felt>>)
        requires
            old(self).wf(),
        ensures
            final(self).wf(),
            map_lookup(final(self).entries@, key) is None,
            forall|k: Word|
                k != key ==> #[trigger] map_lookup(final(self).entries@, k) == map_lookup(
                    old(self).entries@,
                    k,
                ),
            match r {
                Some(v) => map_lookup(old(self).entries@, key) == Some(v),
                None => map_lookup(old(self).entries@, key) is None && *final(self) == *old(self),
            },
    {
        match self.position(&key) {
            Some(i) => {
                proof {
                    lemma_lookup_at(self.entries@, i as int, key);
                    lemma_lookup_remove(self.entries@, i as int);
                }
                let prev = self.entries.remove(i);
                Some(prev.1)
            },
            None => {
                proof {
                    lemma_lookup_absent(self.entries@, key);
                }
                None
            },
        }
    }
}

/// With unique keys, the lookup of a held key returns its entry.
proof fn lemma_lookup_at(entries: Seq<(Word, Vec<Felt>)>, i: int, key: Word)
    requires
        unique_keys(entries),
        0 <= i < entries.len(),
        entries[i].0 == key,
    ensures
        map_lookup(entries, key) == Some(entries[i].1),
    decreases entries.len(),
{
    if i > 0 {
        assert(entries.subrange(1, entries.len() as int)[i - 1] == entries[i]);
        lemma_lookup_at(entries.subrange(1, entries.len() as int), i - 1, key);
    }
}

} // verus!
