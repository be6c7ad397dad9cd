//! The stable-memory structures that hold the tables and the identifier
//! counter.
//!
//! Tables are `ic_stable_structures::StableBTreeMap`s from identifiers to
//! bytes, the counter is an `ic_stable_structures::Cell`, and each lives in
//! a `VirtualMemory` of one `MemoryManager`. These types are bound by that
//! crate's `Memory` and `Storable` traits, which Verus cannot take in a
//! declaration, so each is held in a struct that Verus does not look into. What a table holds and what the counter holds have a name each, and
//! the functions of this module say over those names what the calls do. None
//! of these contracts is proved: they restate what the crate's source shows.
//!
//! Every call that writes stops the program when the memory behind it cannot
//! grow any further.

use vstd::prelude::*;
use ic_stable_structures::memory_manager::{MemoryId, MemoryManager, VirtualMemory};
use ic_stable_structures::{Cell, DefaultMemoryImpl, StableBTreeMap};

verus! {

/// A `StableBTreeMap` from identifiers to bytes, in a virtual memory of its
/// own.
#[verifier::external_body]
pub struct Table {
    map: StableBTreeMap<u64, Vec<u8>, VirtualMemory<DefaultMemoryImpl>>,
}

/// A `Cell` that holds one integer, in a virtual memory of its own.
#[verifier::external_body]
pub struct Counter {
    cell: Cell<u64, VirtualMemory<DefaultMemoryImpl>>,
}

/// The entries of a table.
pub uninterp spec fn table_entries(t: Table) -> Map<u64, Seq<u8>>;

/// The integer that a counter holds.
pub uninterp spec fn counter_value(c: Counter) -> u64;

/// Five virtual memories of one `MemoryManager`, each with a number of its
/// own.
#[verifier::external_body]
pub struct Memories {
    counter: VirtualMemory<DefaultMemoryImpl>,
    courses: VirtualMemory<DefaultMemoryImpl>,
    lessons: VirtualMemory<DefaultMemoryImpl>,
    certificates: VirtualMemory<DefaultMemoryImpl>,
    users: VirtualMemory<DefaultMemoryImpl>,
}

/// A counter and four tables.
pub struct Backing {
    pub counter: Counter,
    pub courses: Table,
    pub lessons: Table,
    pub certificates: Table,
    pub users: Table,
}

/// `MemoryManager::init` on `DefaultMemoryImpl::default()`, then
/// `MemoryManager::get` for the virtual memories with the given numbers
/// (`MemoryId::new`, which refuses 255). Virtual memories with different
/// numbers do not overlap. Nothing is stated of what they hold. Where the
/// memory holds a manager of a layout version that `MemoryManager::init`
/// does not know, the call stops the program.
#[verifier::external_body]
pub(crate) fn memories(counter: u8, courses: u8, lessons: u8, certificates: u8, users: u8) -> (m:
    Memories)
    requires
        counter < 255 && courses < 255 && lessons < 255 && certificates < 255 && users < 255,
        counter != courses && counter != lessons && counter != certificates && counter != users,
        courses != lessons && courses != certificates && courses != users,
        lessons != certificates && lessons != users && certificates != users,
{
    let manager = MemoryManager::init(DefaultMemoryImpl::default());
    Memories {
        counter: manager.get(MemoryId::new(counter)),
        courses: manager.get(MemoryId::new(courses)),
        lessons: manager.get(MemoryId::new(lessons)),
        certificates: manager.get(MemoryId::new(certificates)),
        users: manager.get(MemoryId::new(users)),
    }
}

/// `Cell::new` and `StableBTreeMap::new`: a counter at zero and four empty
/// tables, written over whatever the memories held.
#[verifier::external_body]
pub(crate) fn fresh(m: Memories) -> (b: Backing)
    ensures
        counter_value(b.counter) == 0,
        table_entries(b.courses) == (Map::<u64, Seq<u8>>::empty()),
        table_entries(b.lessons) == (Map::<u64, Seq<u8>>::empty()),
        table_entries(b.certificates) == (Map::<u64, Seq<u8>>::empty()),
        table_entries(b.users) == (Map::<u64, Seq<u8>>::empty()),
{
    Backing {
        counter: Counter { cell: Cell::new(m.counter, 0) },
        courses: Table { map: StableBTreeMap::new(m.courses) },
        lessons: Table { map: StableBTreeMap::new(m.lessons) },
        certificates: Table { map: StableBTreeMap::new(m.certificates) },
        users: Table { map: StableBTreeMap::new(m.users) },
    }
}

/// `Cell::init` and `StableBTreeMap::init`: the counter and the tables that
/// the memories hold, and a counter at zero or an empty table for a memory
/// that holds none. Nothing is stated of what they hold: the caller finds
/// out by reading. A memory that holds a structure is taken to hold it as
/// `Cell` and `StableBTreeMap` wrote it; the calls stop the program on a
/// layout version that they do not know.
#[verifier::external_body]
pub(crate) fn load(m: Memories) -> (b: Backing)
{
    Backing {
        counter: Counter { cell: Cell::init(m.counter, 0) },
        courses: Table { map: StableBTreeMap::init(m.courses) },
        lessons: Table { map: StableBTreeMap::init(m.lessons) },
        certificates: Table { map: StableBTreeMap::init(m.certificates) },
        users: Table { map: StableBTreeMap::init(m.users) },
    }
}

/// `StableBTreeMap::get`: the bytes stored under `key`, if there are any.
#[verifier::external_body]
pub(crate) fn table_get(t: &Table, key: u64) -> (found: Option<Vec<u8>>)
    ensures
        found is Some <==> table_entries(*t).contains_key(key),
        found matches Some(bytes) ==> bytes@ == table_entries(*t)[key],
{
    t.map.get(&key)
}

/// `StableBTreeMap::insert`: stores `value` under `key`, in place of what was
/// there, and returns what was there. The map writes a value's length as a
/// `u32`.
#[verifier::external_body]
pub(crate) fn table_insert(t: &mut Table, key: u64, value: Vec<u8>) -> (previous: Option<Vec<u8>>)
    requires
        value@.len() <= u32::MAX,
    ensures
        table_entries(*final(t)) == table_entries(*old(t)).insert(key, value@),
        previous is Some <==> table_entries(*old(t)).contains_key(key),
        previous matches Some(bytes) ==> bytes@ == table_entries(*old(t))[key],
{
    t.map.insert(key, value)
}

/// `StableBTreeMap::remove`: takes out what is stored under `key` and
/// returns it.
#[verifier::external_body]
pub(crate) fn table_remove(t: &mut Table, key: u64) -> (previous: Option<Vec<u8>>)
    ensures
        table_entries(*final(t)) == table_entries(*old(t)).remove(key),
        previous is Some <==> table_entries(*old(t)).contains_key(key),
        previous matches Some(bytes) ==> bytes@ == table_entries(*old(t))[key],
{
    t.map.remove(&key)
}

/// `StableBTreeMap::iter`, each entry as a pair (`LazyEntry::into_pair`): all
/// entries of the table, by ascending key.
#[verifier::external_body]
pub(crate) fn table_items(t: &Table) -> (items: Vec<(u64, Vec<u8>)>)
    ensures
        forall|i: int, j: int| 0 <= i < j < items@.len() ==> items@[i].0 < items@[j].0,
        forall|i: int|
            0 <= i < items@.len() ==> table_entries(*t).contains_key(#[trigger] items@[i].0)
                && table_entries(*t)[items@[i].0] == items@[i].1@,
        forall|k: u64|
            table_entries(*t).contains_key(k) ==> exists|i: int|
                0 <= i < items@.len() && #[trigger] items@[i].0 == k,
{
    t.map.iter().map(|entry| entry.into_pair()).collect()
}

/// `Cell::get`: the integer that the counter holds.
#[verifier::external_body]
pub(crate) fn counter_get(c: &Counter) -> (value: u64)
    ensures
        value == counter_value(*c),
{
    *c.cell.get()
}

/// `Cell::set`: writes `value` and returns the integer that was held.
#[verifier::external_body]
pub(crate) fn counter_set(c: &mut Counter, value: u64) -> (previous: u64)
    ensures
        counter_value(*final(c)) == value,
        previous == counter_value(*old(c)),
{
    c.cell.set(value)
}

} // verus!
