//! The outside collections, and how their contents are spoken of.
use dashmap::DashMap;
use indexmap::IndexMap;
use vstd::prelude::*;

verus! {

#[verifier::external_type_specification]
#[verifier::external_body]
#[verifier::reject_recursive_types(K)]
#[verifier::reject_recursive_types(V)]
#[verifier::reject_recursive_types(S)]
pub struct ExDashMap<K, V, S>(DashMap<K, V, S>);

#[verifier::external_type_specification]
#[verifier::external_body]
#[verifier::reject_recursive_types(K)]
#[verifier::reject_recursive_types(V)]
#[verifier::reject_recursive_types(S)]
pub struct ExIndexMap<K, V, S>(IndexMap<K, V, S>);

/// The map has no entry.
pub open spec fn no_entries<K, V>(entries: Map<K, V>) -> bool {
    entries == Map::<K, V>::empty()
}

/// The map has finitely many entries, `count` of them.
pub open spec fn entry_count<K, V>(entries: Map<K, V>, count: nat) -> bool {
    entries.dom().finite() && entries.dom().len() == count
}

/// `order` names each key of `entries` once.
pub open spec fn is_walk<K, V>(order: Seq<K>, entries: Map<K, V>) -> bool {
    order.no_duplicates() && order.to_set() == entries.dom()
}

/// Strings by their views.
pub open spec fn texts(strings: Seq<String>) -> Seq<Seq<char>> {
    strings.map_values(|s: String| s@)
}

} // verus!
