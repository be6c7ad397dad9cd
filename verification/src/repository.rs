//! A repository: the records of one kind, by identifier.

use vstd::prelude::*;
use core::marker::PhantomData;
use crate::backend::{table_entries, table_get, table_insert, table_items, table_remove, Table};
use crate::codec::same_bytes;
use crate::record::{storable, Record, MAX_RECORD_SIZE};

verus! {

/// The records of kind `V`, each stored as bytes under its identifier.
pub struct Repository<V: Record> {
    table: Table,
    kind: PhantomData<V>,
}

/// Whether a byte string is the encoding of a record of kind `V` and no
/// longer than a table takes.
pub open spec fn is_record<V: Record>(bytes: Seq<u8>) -> bool {
    &&& bytes.len() <= MAX_RECORD_SIZE
    &&& V::decoding(bytes) is Some
    &&& V::encoding(V::decoding(bytes)->0) == bytes
}

/// Whether every entry of a table is a record of kind `V`.
pub open spec fn holds_records<V: Record>(entries: Map<u64, Seq<u8>>) -> bool {
    forall|id: u64| #[trigger] entries.contains_key(id) ==> is_record::<V>(entries[id])
}

/// The records that the entries of a table hold.
pub open spec fn records<V: Record>(entries: Map<u64, Seq<u8>>) -> Map<u64, V::V> {
    Map::new(|id: u64| entries.contains_key(id), |id: u64| V::decoding(entries[id])->0)
}

impl<V: Record> View for Repository<V> {
    type V = Map<u64, V::V>;

    /// The records by identifier.
    closed spec fn view(&self) -> Map<u64, V::V> {
        records::<V>(table_entries(self.table))
    }
}

impl<V: Record> Repository<V> {
    /// Every stored byte string is the encoding of a record, and none is
    /// longer than a table takes.
    pub closed spec fn wf(&self) -> bool {
        holds_records::<V>(table_entries(self.table))
    }

    /// What a repository holds can be stored again.
    pub proof fn lemma_stored_is_storable(&self, id: u64)
        requires
            self.wf(),
            self@.contains_key(id),
        ensures
            storable::<V>(self@[id]),
    {
    }

    /// A repository on an empty table.
    pub(crate) fn new(table: Table) -> (r: Self)
        requires
            table_entries(table) == (Map::<u64, Seq<u8>>::empty()),
        ensures
            r.wf(),
            r@ == (Map::<u64, V::V>::empty()),
    {
        let r = Repository { table, kind: PhantomData };
        proof {
            assert(r@ =~= Map::<u64, V::V>::empty());
        }
        r
    }

    /// A repository on a table that may hold anything: `None` where an
    /// entry of the table is not a record.
    pub(crate) fn adopt(table: Table) -> (r: Option<Self>)
        ensures
            r is Some <==> holds_records::<V>(table_entries(table)),
            r matches Some(repository) ==> repository.wf() && repository@ == records::<V>(
                table_entries(table),
            ),
    {
        let items = table_items(&table);
        let mut n: usize = 0;
        while n < items.len()
            invariant
                n <= items@.len(),
                forall|i: int|
                    0 <= i < items@.len() ==> table_entries(table).contains_key(
                        #[trigger] items@[i].0,
                    ) && table_entries(table)[items@[i].0] == items@[i].1@,
                forall|i: int| 0 <= i < n ==> is_record::<V>((#[trigger] items@[i]).1@),
            decreases items@.len() - n,
        {
            let bytes = &items[n].1;
            let sound = bytes.len() <= MAX_RECORD_SIZE && match V::from_bytes(bytes.as_slice()) {
                Some(value) => same_bytes(value.to_bytes().as_slice(), bytes.as_slice()),
                None => false,
            };
            if !sound {
                proof {
                    assert(table_entries(table).contains_key(items@[n as int].0));
                }
                return None;
            }
            n += 1;
        }
        proof {
            assert forall|id: u64| #[trigger] table_entries(table).contains_key(id) implies
                is_record::<V>(table_entries(table)[id]) by {
                let i = choose|i: int| 0 <= i < items@.len() && #[trigger] items@[i].0 == id;
                assert(is_record::<V>(items@[i].1@));
            }
        }
        Some(Repository { table, kind: PhantomData })
    }

    /// Looks a record up. Nothing changes.
    pub fn get(&self, id: u64) -> (found: Option<V>)
        requires
            self.wf(),
        ensures
            match found {
                Some(value) => self@.contains_key(id) && value@ == self@[id],
                None => !self@.contains_key(id),
            },
    {
        match table_get(&self.table, id) {
            Some(bytes) => {
                match V::from_bytes(bytes.as_slice()) {
                    Some(value) => Some(value),
                    None => vstd::pervasive::unreached(),
                }
            },
            None => None,
        }
    }

    /// Stores `value` under `id`, in place of what was there.
    pub fn put(&mut self, id: u64, value: &V)
        requires
            old(self).wf(),
            storable::<V>(value@),
        ensures
            final(self).wf(),
            final(self)@ == old(self)@.insert(id, value@),
    {
        let bytes = value.to_bytes();
        proof {
            V::lemma_decoding_of_encoding(value@);
        }
        let _ = table_insert(&mut self.table, id, bytes);
        proof {
            assert(self@ =~= old(self)@.insert(id, value@));
        }
    }

    /// Takes out the record stored under `id` and returns it; nothing
    /// happens where there is none.
    pub fn delete(&mut self, id: u64) -> (removed: Option<V>)
        requires
            old(self).wf(),
        ensures
            final(self).wf(),
            final(self)@ == old(self)@.remove(id),
            match removed {
                Some(value) => old(self)@.contains_key(id) && value@ == old(self)@[id],
                None => !old(self)@.contains_key(id),
            },
    {
        let previous = table_remove(&mut self.table, id);
        proof {
            assert(self@ =~= old(self)@.remove(id));
        }
        match previous {
            Some(bytes) => {
                match V::from_bytes(bytes.as_slice()) {
                    Some(value) => Some(value),
                    None => vstd::pervasive::unreached(),
                }
            },
            None => None,
        }
    }

    /// All records with their identifiers, by ascending identifier.
    pub fn iterate(&self) -> (all: Vec<(u64, V)>)
        requires
            self.wf(),
        ensures
            forall|i: int, j: int| 0 <= i < j < all@.len() ==> all@[i].0 < all@[j].0,
            forall|i: int|
                0 <= i < all@.len() ==> self@.contains_key(#[trigger] all@[i].0) && self@[all@[i].0]
                    == all@[i].1@,
            forall|id: u64|
                self@.contains_key(id) ==> exists|i: int|
                    0 <= i < all@.len() && #[trigger] all@[i].0 == id,
    {
        let items = table_items(&self.table);
        let mut all: Vec<(u64, V)> = Vec::new();
        let mut n: usize = 0;
        while n < items.len()
            invariant
                self.wf(),
                n <= items@.len(),
                all@.len() == n,
                forall|i: int|
                    0 <= i < items@.len() ==> table_entries(self.table).contains_key(
                        #[trigger] items@[i].0,
                    ) && table_entries(self.table)[items@[i].0] == items@[i].1@,
                forall|i: int| 0 <= i < n ==> (#[trigger] all@[i]).0 == items@[i].0,
                forall|i: int|
                    0 <= i < n ==> self@.contains_key(#[trigger] all@[i].0) && self@[all@[i].0]
                        == all@[i].1@,
            decreases items@.len() - n,
        {
            let id = items[n].0;
            match V::from_bytes(items[n].1.as_slice()) {
                Some(value) => {
                    all.push((id, value));
                },
                None => {
                    assert(table_entries(self.table).contains_key(items@[n as int].0));
                    vstd::pervasive::unreached::<()>();
                },
            }
            n += 1;
        }
        proof {
            assert forall|id: u64| self@.contains_key(id) implies exists|i: int|
                0 <= i < all@.len() && #[trigger] all@[i].0 == id by {
                let i = choose|i: int| 0 <= i < items@.len() && #[trigger] items@[i].0 == id;
                assert(all@[i].0 == id);
            }
        }
        all
    }
}

} // verus!
