//! The unspent-output set: a finite map from digests to outputs.

use vstd::prelude::*;
use crate::sha256;
use crate::types::{OutputModel, TransactionOutput};

verus! {

/// A map from digests to outputs, kept as a list of entries in which no
/// digest occurs twice.
#[derive(Debug)]
pub struct UtxoSet {
    entries: Vec<(sha256::Hash, TransactionOutput)>,
}

/// The digests of the entries, in order.
pub open spec fn entry_keys(entries: Seq<(sha256::Hash, TransactionOutput)>) -> Seq<sha256::Hash> {
    entries.map_values(|e: (sha256::Hash, TransactionOutput)| e.0)
}

/// The map that a list of entries stands for.
pub open spec fn entries_map(entries: Seq<(sha256::Hash, TransactionOutput)>) -> Map<
    sha256::Hash,
    OutputModel,
> {
    Map::new(
        |k: sha256::Hash| entry_keys(entries).contains(k),
        |k: sha256::Hash| entries[entry_keys(entries).index_of(k)].1@,
    )
}

impl View for UtxoSet {
    type V = Map<sha256::Hash, OutputModel>;

    closed spec fn view(&self) -> Map<sha256::Hash, OutputModel> {
        entries_map(self.entries@)
    }
}

impl Clone for UtxoSet {
    fn clone(&self) -> (r: Self)
        ensures
            r@ == self@,
    {
        proof {
            use_type_invariant(self);
        }
        let mut entries: Vec<(sha256::Hash, TransactionOutput)> = Vec::new();
        let mut i: usize = 0;
        while i < self.entries.len()
            invariant
                i <= self.entries.len(),
                entries@.len() == i,
                forall|k: int|
                    0 <= k < i ==> (#[trigger] entries@[k]).0 == self.entries@[k].0 && entries@[k].1@
                        == self.entries@[k].1@,
            decreases self.entries.len() - i,
        {
            let value = self.entries[i].1.clone();
            entries.push((self.entries[i].0, value));
            i += 1;
        }
        proof {
            assert(entry_keys(entries@) =~= entry_keys(self.entries@));
            assert forall|k: sha256::Hash| entry_keys(entries@).contains(k) implies #[trigger] entries_map(
                entries@,
            )[k] == entries_map(self.entries@)[k] by {
                let j = entry_keys(entries@).index_of(k);
                assert(entry_keys(entries@)[j] == k);
                assert(entries@[j].1@ == self.entries@[j].1@);
            }
            assert(entries_map(entries@) =~= entries_map(self.entries@));
        }
        UtxoSet { entries }
    }
}

impl UtxoSet {
    #[verifier::type_invariant]
    spec fn distinct_keys(self) -> bool {
        entry_keys(self.entries@).no_duplicates()
    }

    /// The empty set.
    pub fn new() -> (r: UtxoSet)
        ensures
            r@ == Map::<sha256::Hash, OutputModel>::empty(),
    {
        let r = UtxoSet { entries: Vec::new() };
        assert(r@ =~= Map::<sha256::Hash, OutputModel>::empty());
        r
    }

    /// The number of outputs in the set.
    pub fn len(&self) -> (n: usize)
        ensures
            n == self@.dom().len(),
            self@.dom().finite(),
    {
        proof {
            use_type_invariant(self);
            lemma_entries_count(self.entries@);
        }
        self.entries.len()
    }

    /// Where the entry for `key` stands, if there is one.
    fn position(&self, key: &sha256::Hash) -> (r: Option<usize>)
        ensures
            match r {
                Some(i) => i < self.entries@.len() && self.entries@[i as int].0 == *key,
                None => !entry_keys(self.entries@).contains(*key),
            },
    {
        let mut i: usize = 0;
        while i < self.entries.len()
            invariant
                i <= self.entries.len(),
                forall|k: int| 0 <= k < i ==> self.entries@[k].0 != *key,
            decreases self.entries.len() - i,
        {
            if self.entries[i].0 == *key {
                return Some(i);
            }
            i += 1;
        }
        None
    }

    pub fn contains_key(&self, key: &sha256::Hash) -> (r: bool)
        ensures
            r == self@.contains_key(*key),
    {
        match self.position(key) {
            Some(i) => {
                proof {
                    assert(entry_keys(self.entries@)[i as int] == *key);
                }
                true
            },
            None => false,
        }
    }

    /// The output that `key` maps to, if there is one.
    pub fn get(&self, key: &sha256::Hash) -> (r: Option<&TransactionOutput>)
        ensures
            r is Some <==> self@.contains_key(*key),
            r is Some ==> r.unwrap()@ == self@[*key],
    {
        match self.position(key) {
            Some(i) => {
                proof {
                    use_type_invariant(self);
                    assert(entry_keys(self.entries@)[i as int] == *key);
                }
                Some(&self.entries[i].1)
            },
            None => None,
        }
    }

    /// Maps `key` to `value`, in place of what it mapped to before.
    pub fn insert(&mut self, key: sha256::Hash, value: TransactionOutput)
        ensures
            final(self)@ == old(self)@.insert(key, value@),
    {
        proof {
            use_type_invariant(&*self);
        }
        let found = self.position(&key);
        let mut entries: Vec<(sha256::Hash, TransactionOutput)> = Vec::new();
        core::mem::swap(&mut self.entries, &mut entries);
        let ghost before = entries@;
        match found {
            Some(i) => {
                entries.set(i, (key, value));
                proof {
                    assert(entry_keys(entries@) =~= entry_keys(before));
                    lemma_map_after_set(before, i as int, key, value);
                }
            },
            None => {
                entries.push((key, value));
                proof {
                    lemma_map_after_push(before, key, value);
                }
            },
        }
        core::mem::swap(&mut self.entries, &mut entries);
    }

    /// Removes `key` and what it maps to, if it is there.
    pub fn remove(&mut self, key: &sha256::Hash)
        ensures
            final(self)@ == old(self)@.remove(*key),
    {
        proof {
            use_type_invariant(&*self);
        }
        let found = self.position(key);
        let mut entries: Vec<(sha256::Hash, TransactionOutput)> = Vec::new();
        core::mem::swap(&mut self.entries, &mut entries);
        let ghost before = entries@;
        match found {
            Some(i) => {
                let _ = entries.remove(i);
                proof {
                    lemma_map_after_remove(before, i as int);
                }
            },
            None => {
                assert(entries_map(before) =~= entries_map(before).remove(*key));
            },
        }
        core::mem::swap(&mut self.entries, &mut entries);
    }

    /// The digests in the set, in no particular order.
    pub fn keys(&self) -> (r: Vec<sha256::Hash>)
        ensures
            r@.no_duplicates(),
            forall|k: sha256::Hash| r@.contains(k) <==> self@.contains_key(k),
    {
        proof {
            use_type_invariant(self);
        }
        let mut r: Vec<sha256::Hash> = Vec::new();
        let mut i: usize = 0;
        while i < self.entries.len()
            invariant
                i <= self.entries.len(),
                r@ == entry_keys(self.entries@).subrange(0, i as int),
            decreases self.entries.len() - i,
        {
            r.push(self.entries[i].0);
            i += 1;
            assert(r@ =~= entry_keys(self.entries@).subrange(0, i as int));
        }
        assert(r@ =~= entry_keys(self.entries@));
        r
    }
}

/// A list without repeated digests has as many entries as its map has keys.
proof fn lemma_entries_count(entries: Seq<(sha256::Hash, TransactionOutput)>)
    requires
        entry_keys(entries).no_duplicates(),
    ensures
        entries_map(entries).dom().finite(),
        entries_map(entries).dom().len() == entries.len(),
{
    let keys = entry_keys(entries);
    keys.unique_seq_to_set();
    assert(entries_map(entries).dom() =~= keys.to_set());
}

proof fn lemma_map_after_set(
    before: Seq<(sha256::Hash, TransactionOutput)>,
    i: int,
    key: sha256::Hash,
    value: TransactionOutput,
)
    requires
        entry_keys(before).no_duplicates(),
        0 <= i < before.len(),
        before[i].0 == key,
    ensures
        entries_map(before.update(i, (key, value))) == entries_map(before).insert(key, value@),
{
    let after = before.update(i, (key, value));
    assert(entry_keys(after) =~= entry_keys(before));
    assert(entry_keys(before)[i] == key);
    assert forall|k: sha256::Hash| entry_keys(after).contains(k) implies #[trigger] entries_map(
        after,
    )[k] == entries_map(before).insert(key, value@)[k] by {
        let j = entry_keys(after).index_of(k);
        assert(entry_keys(after)[j] == k);
        if k == key {
            assert(j == i);
        } else {
            assert(j != i);
        }
    }
    assert(entries_map(after) =~= entries_map(before).insert(key, value@));
}

proof fn lemma_map_after_push(
    before: Seq<(sha256::Hash, TransactionOutput)>,
    key: sha256::Hash,
    value: TransactionOutput,
)
    requires
        entry_keys(before).no_duplicates(),
        !entry_keys(before).contains(key),
    ensures
        entry_keys(before.push((key, value))).no_duplicates(),
        entries_map(before.push((key, value))) == entries_map(before).insert(key, value@),
{
    let after = before.push((key, value));
    assert(entry_keys(after) =~= entry_keys(before).push(key));
    assert(entry_keys(after)[before.len() as int] == key);
    assert forall|k: sha256::Hash| entry_keys(after).contains(k) implies #[trigger] entries_map(
        after,
    )[k] == entries_map(before).insert(key, value@)[k] by {
        let j = entry_keys(after).index_of(k);
        assert(entry_keys(after)[j] == k);
        if k == key {
            assert(j == before.len());
        } else {
            assert(j < before.len());
            assert(entry_keys(before)[j] == k);
            let j2 = entry_keys(before).index_of(k);
            assert(entry_keys(before)[j2] == k);
            assert(j2 == j);
        }
    }
    assert forall|k: sha256::Hash| entry_keys(before).contains(k) implies entry_keys(
        after,
    ).contains(k) by {
        let j = entry_keys(before).index_of(k);
        assert(entry_keys(after)[j] == k);
    }
    assert(entries_map(after) =~= entries_map(before).insert(key, value@));
}

proof fn lemma_map_after_remove(before: Seq<(sha256::Hash, TransactionOutput)>, i: int)
    requires
        entry_keys(before).no_duplicates(),
        0 <= i < before.len(),
    ensures
        entry_keys(before.remove(i)).no_duplicates(),
        entries_map(before.remove(i)) == entries_map(before).remove(before[i].0),
{
    let after = before.remove(i);
    let key = before[i].0;
    assert(entry_keys(after) =~= entry_keys(before).remove(i));
    assert(entry_keys(before)[i] == key);
    assert forall|a: int, b: int| 0 <= a < after.len() && 0 <= b < after.len() && a != b implies entry_keys(
        after,
    )[a] != entry_keys(after)[b] by {
        let a2 = if a < i { a } else { a + 1 };
        let b2 = if b < i { b } else { b + 1 };
        assert(entry_keys(after)[a] == entry_keys(before)[a2]);
        assert(entry_keys(after)[b] == entry_keys(before)[b2]);
    }
    assert forall|k: sha256::Hash| entry_keys(after).contains(k) implies k != key && entry_keys(
        before,
    ).contains(k) && #[trigger] entries_map(after)[k] == entries_map(before)[k] by {
        let j = entry_keys(after).index_of(k);
        assert(entry_keys(after)[j] == k);
        let j2 = if j < i { j } else { j + 1 };
        assert(entry_keys(before)[j2] == k);
        let j3 = entry_keys(before).index_of(k);
        assert(entry_keys(before)[j3] == k);
        assert(j3 == j2);
    }
    assert forall|k: sha256::Hash| k != key && entry_keys(before).contains(k) implies entry_keys(
        after,
    ).contains(k) by {
        let j = entry_keys(before).index_of(k);
        assert(entry_keys(before)[j] == k);
        let j2 = if j < i { j } else { j - 1 };
        assert(entry_keys(after)[j2] == k);
    }
    assert(entries_map(after) =~= entries_map(before).remove(key));
}

} // verus!
