//! The hash table that finds the slot of a value that was seen before.
use datafusion_execution::memory_pool::proxy::HashTableAllocExt;
use hashbrown::hash_table::HashTable;
use vstd::prelude::*;

verus! {

/// A hash table of entries `(hash, slot)`, each found under its own `hash`, and the
/// number of bytes that it has accounted for.
#[verifier::external_body]
pub struct DedupTable {
    table: HashTable<(u64, usize)>,
    allocated: usize,
}

/// The entries of a table.
pub uninterp spec fn dedup_entries(table: DedupTable) -> Set<(u64, usize)>;

impl DedupTable {
    /// `HashTable::new`: a table without entries.
    #[verifier::external_body]
    pub(crate) fn new() -> (table: DedupTable)
        ensures
            dedup_entries(table) == Set::<(u64, usize)>::empty(),
    {
        DedupTable { table: HashTable::new(), allocated: 0 }
    }

    /// `HashTable::find`: the slot of an entry that `is_match` accepts. It looks at
    /// every entry whose hash is `hash`, and may look at others.
    #[verifier::external_body]
    pub(crate) fn find<F: Fn(u64, usize) -> bool>(&self, hash: u64, is_match: F) -> (slot: Option<usize>)
        requires
            forall|entry: (u64, usize)| #[trigger]
                dedup_entries(*self).contains(entry) ==> call_requires(is_match, (entry.0, entry.1)),
        ensures
            slot matches Some(found) ==> exists|entry_hash: u64| #[trigger]
                dedup_entries(*self).contains((entry_hash, found)) && call_ensures(
                    is_match,
                    (entry_hash, found),
                    true,
                ),
            slot is None ==> forall|entry: (u64, usize)| #[trigger]
                dedup_entries(*self).contains(entry) && entry.0 == hash ==> call_ensures(
                    is_match,
                    (entry.0, entry.1),
                    false,
                ),
    {
        self.table.find(hash, |&(entry_hash, slot)| is_match(entry_hash, slot)).map(|&(_, slot)| slot)
    }

    /// `HashTableAllocExt::insert_accounted`: adds an entry that is not in the table.
    #[verifier::external_body]
    pub(crate) fn insert(&mut self, hash: u64, slot: usize)
        requires
            !dedup_entries(*old(self)).contains((hash, slot)),
        ensures
            dedup_entries(*final(self)) == dedup_entries(*old(self)).insert((hash, slot)),
    {
        self.table.insert_accounted((hash, slot), |&(entry_hash, _)| entry_hash, &mut self.allocated);
    }

    /// The bytes that `HashTableAllocExt::insert_accounted` has accounted for. How many, is
    /// not stated.
    #[verifier::external_body]
    pub(crate) fn allocated_size(&self) -> (size: usize) {
        self.allocated
    }
}

} // verus!
