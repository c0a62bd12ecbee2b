//! The memoization layer: concurrent tables from keys to shared flattened
//! field lists, backed by `dashmap`.
//!
//! The tables are the only mutable state of a validation run. Each wrapper
//! states what one `DashMap` call does to the table's entries, named by
//! `table_entries`; everything built on top of the tables is verified
//! against these contracts.

use vstd::prelude::*;

use dashmap::DashMap;

use crate::flat::clone_flat_fields;
use crate::flat::flat_views;
use crate::flat::FlatField;
use crate::flat::FlatView;

verus! {

#[verifier::external_type_specification]
#[verifier::external_body]
#[verifier::reject_recursive_types(K)]
#[verifier::reject_recursive_types(V)]
#[verifier::reject_recursive_types(S)]
pub struct ExDashMap<K, V, S>(DashMap<K, V, S>);

/// A memo table: fragment names or node identities to flattened lists.
pub type MemoTable = DashMap<u64, Vec<FlatField>>;

/// The entries a memo table currently holds, each value abstracted to its
/// ghost list of flattened fields.
pub uninterp spec fn table_entries(m: DashMap<u64, Vec<FlatField>>) -> Map<u64, Seq<FlatView>>;

/// Whether a memo table holds no entries at all.
pub open spec fn no_entries(m: DashMap<u64, Vec<FlatField>>) -> bool {
    table_entries(m) == Map::<u64, Seq<FlatView>>::empty()
}

/// Relies on dashmap's `DashMap::new`: a freshly created map holds no
/// entries.
#[verifier::external_body]
pub fn table_new() -> (created: MemoTable)
    ensures
        no_entries(created),
{
    DashMap::new()
}

/// Relies on dashmap's `DashMap::get`: it returns a guard for the value
/// stored at the key exactly when the key is present. The wrapper copies the
/// guarded list out, so the table's own entry is never handed to a caller.
#[verifier::external_body]
pub fn table_get(m: &DashMap<u64, Vec<FlatField>>, k: u64) -> (r: Option<Vec<FlatField>>)
    ensures
        match r {
            Some(v) => table_entries(*m).dom().contains(k) && flat_views(v@) == table_entries(
                *m,
            )[k],
            None => !table_entries(*m).dom().contains(k),
        },
{
    match m.get(&k) {
        Some(entry) => Some(clone_flat_fields(entry.value())),
        None => None,
    }
}

/// Relies on dashmap's `DashMap::insert`: it stores the value at the key,
/// replacing any entry the key had before, and touches no other key.
#[verifier::external_body]
pub fn table_insert(m: &mut DashMap<u64, Vec<FlatField>>, k: u64, v: Vec<FlatField>)
    ensures
        table_entries(*final(m)) == table_entries(*old(m)).insert(k, flat_views(v@)),
{
    m.insert(k, v);
}

} // verus!
