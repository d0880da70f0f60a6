//! Persistent storage for the state, backed by the `im` and `im-rc`
//! structurally-shared collections.
//!
//! Branching search needs cheap state snapshots: cloning any of these
//! stores shares structure with the original, and updates copy only the
//! touched path.  Verus does not read the collection implementations;
//! each operation used by the engine is a thin trusted wrapper whose
//! contract states standard map or queue semantics over an abstract
//! contents function.

use crate::goal::{Fork, WatchEntry};
use crate::value::Val;
use vstd::prelude::*;

verus! {

/// The substitution: a persistent map from variable id to bound value.
pub type Subst = im::HashMap<u64, Val>;

/// The watch index: variable id to the ids of the watches filed under it.
pub type WatchIndex = im_rc::HashMap<u64, Vec<u64>>;

/// The watch table: watch id to the stored watch record.
pub type WatchTable = im_rc::HashMap<u64, WatchEntry>;

/// The fork queue, drained oldest first.
pub type ForkQueue = im_rc::Vector<Fork>;

#[verifier::external_type_specification]
#[verifier::external_body]
#[verifier::reject_recursive_types(K)]
#[verifier::reject_recursive_types(V)]
#[verifier::reject_recursive_types(S)]
pub struct ExImHashMap<K, V, S>(im::HashMap<K, V, S>);

#[verifier::external_type_specification]
#[verifier::external_body]
#[verifier::reject_recursive_types(K)]
#[verifier::reject_recursive_types(V)]
#[verifier::reject_recursive_types(S)]
pub struct ExImRcHashMap<K, V, S>(im_rc::HashMap<K, V, S>);

#[verifier::external_type_specification]
#[verifier::external_body]
#[verifier::reject_recursive_types(A)]
pub struct ExImRcVector<A>(im_rc::Vector<A>);

/// The bindings that a substitution store holds, as a map from variable
/// id to bound value.
pub uninterp spec fn binding_entries(m: Subst) -> Map<u64, Val>;

/// The contents of a substitution with no bindings.
pub open spec fn no_bindings() -> Map<u64, Val> {
    Map::empty()
}

/// Relies on im::HashMap::new: the new map is empty.
#[verifier::external_body]
pub fn bindings_new() -> (r: Subst)
    ensures
        binding_entries(r) == no_bindings(),
{
    im::HashMap::new()
}

/// Relies on im::HashMap::insert: the entry is added, replacing any
/// previous binding of the same key.
#[verifier::external_body]
pub fn bindings_insert(m: &mut Subst, k: u64, v: Val)
    ensures
        binding_entries(*final(m)) == binding_entries(*old(m)).insert(k, v),
{
    m.insert(k, v);
}

/// Relies on im::HashMap::get: the value bound to the key, if any.
#[verifier::external_body]
pub fn bindings_get(m: &Subst, k: u64) -> (r: Option<&Val>)
    ensures
        match r {
            Some(v) => binding_entries(*m).dom().contains(k) && *v == binding_entries(*m)[k],
            None => !binding_entries(*m).dom().contains(k),
        },
{
    m.get(&k)
}

/// Relies on im::HashMap::len: the number of entries.
#[verifier::external_body]
pub fn bindings_len(m: &Subst) -> (r: usize)
    ensures
        r as nat == binding_entries(*m).dom().len(),
{
    m.len()
}

/// Relies on im::HashMap::clone: a structurally shared copy with the
/// same entries.
#[verifier::external_body]
pub fn bindings_clone(m: &Subst) -> (r: Subst)
    ensures
        binding_entries(r) == binding_entries(*m),
{
    m.clone()
}

/// The contents of the watch index, as a map from variable id to the
/// ids of the watches filed under it, in filing order.
pub uninterp spec fn index_entries(m: WatchIndex) -> Map<u64, Seq<u64>>;

/// The contents of an empty watch index.
pub open spec fn no_index_entries() -> Map<u64, Seq<u64>> {
    Map::empty()
}

/// Relies on im_rc::HashMap::new: the new map is empty.
#[verifier::external_body]
pub fn index_new() -> (r: WatchIndex)
    ensures
        index_entries(r) == no_index_entries(),
{
    im_rc::HashMap::new()
}

/// Relies on im_rc::HashMap::insert: the entry is added, replacing any
/// previous list under the same key.
#[verifier::external_body]
pub fn index_insert(m: &mut WatchIndex, k: u64, v: Vec<u64>)
    ensures
        index_entries(*final(m)) == index_entries(*old(m)).insert(k, v@),
{
    m.insert(k, v);
}

/// Relies on im_rc::HashMap::get: the list stored under the key, if any.
#[verifier::external_body]
pub fn index_get(m: &WatchIndex, k: u64) -> (r: Option<&Vec<u64>>)
    ensures
        match r {
            Some(v) => index_entries(*m).dom().contains(k) && v@ == index_entries(*m)[k],
            None => !index_entries(*m).dom().contains(k),
        },
{
    m.get(&k)
}

/// Relies on im_rc::HashMap::remove: the entry leaves the map and its
/// list is returned.
#[verifier::external_body]
pub fn index_remove(m: &mut WatchIndex, k: u64) -> (r: Option<Vec<u64>>)
    ensures
        index_entries(*final(m)) == index_entries(*old(m)).remove(k),
        match r {
            Some(v) => index_entries(*old(m)).dom().contains(k) && v@ == index_entries(
                *old(m),
            )[k],
            None => !index_entries(*old(m)).dom().contains(k),
        },
{
    m.remove(&k)
}

/// Relies on im_rc::HashMap::clone: a structurally shared copy with the
/// same entries.
#[verifier::external_body]
pub fn index_clone(m: &WatchIndex) -> (r: WatchIndex)
    ensures
        index_entries(r) == index_entries(*m),
{
    m.clone()
}

/// The contents of the watch table, as a map from watch id to the
/// stored watch record.
pub uninterp spec fn table_entries(m: WatchTable) -> Map<u64, WatchEntry>;

/// The contents of an empty watch table.
pub open spec fn no_table_entries() -> Map<u64, WatchEntry> {
    Map::empty()
}

/// Relies on im_rc::HashMap::new: the new map is empty.
#[verifier::external_body]
pub fn table_new() -> (r: WatchTable)
    ensures
        table_entries(r) == no_table_entries(),
{
    im_rc::HashMap::new()
}

/// Relies on im_rc::HashMap::insert: the entry is added, replacing any
/// previous record under the same key.
#[verifier::external_body]
pub fn table_insert(m: &mut WatchTable, k: u64, v: WatchEntry)
    ensures
        table_entries(*final(m)) == table_entries(*old(m)).insert(k, v),
{
    m.insert(k, v);
}

/// Relies on im_rc::HashMap::remove: the entry leaves the map and its
/// record is returned.
#[verifier::external_body]
pub fn table_remove(m: &mut WatchTable, k: u64) -> (r: Option<WatchEntry>)
    ensures
        table_entries(*final(m)) == table_entries(*old(m)).remove(k),
        match r {
            Some(v) => table_entries(*old(m)).dom().contains(k) && v == table_entries(
                *old(m),
            )[k],
            None => !table_entries(*old(m)).dom().contains(k),
        },
{
    m.remove(&k)
}

/// Relies on im_rc::HashMap::clone: a structurally shared copy with the
/// same entries.
#[verifier::external_body]
pub fn table_clone(m: &WatchTable) -> (r: WatchTable)
    ensures
        table_entries(r) == table_entries(*m),
{
    m.clone()
}

/// The forks a queue holds, oldest first.
pub uninterp spec fn queue_entries(q: ForkQueue) -> Seq<Fork>;

/// Relies on im_rc::Vector::new: the new queue is empty.
#[verifier::external_body]
pub fn queue_new() -> (r: ForkQueue)
    ensures
        queue_entries(r) == Seq::<Fork>::empty(),
{
    im_rc::Vector::new()
}

/// Relies on im_rc::Vector::push_back: the fork is appended at the end.
#[verifier::external_body]
pub fn queue_push_back(q: &mut ForkQueue, f: Fork)
    ensures
        queue_entries(*final(q)) == queue_entries(*old(q)).push(f),
{
    q.push_back(f);
}

/// Relies on im_rc::Vector::pop_front: the oldest fork leaves the queue
/// and is returned.
#[verifier::external_body]
pub fn queue_pop_front(q: &mut ForkQueue) -> (r: Option<Fork>)
    ensures
        match r {
            Some(f) => queue_entries(*old(q)).len() > 0 && f == queue_entries(*old(q))[0]
                && queue_entries(*final(q)) == queue_entries(*old(q)).drop_first(),
            None => queue_entries(*old(q)).len() == 0 && queue_entries(*final(q))
                == queue_entries(*old(q)),
        },
{
    q.pop_front()
}

/// Relies on im_rc::Vector::clone: a structurally shared copy with the
/// same forks.
#[verifier::external_body]
pub fn queue_clone(q: &ForkQueue) -> (r: ForkQueue)
    ensures
        queue_entries(r) == queue_entries(*q),
{
    q.clone()
}

} // verus!
