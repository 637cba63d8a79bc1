//! The mathematical model of a reconciliation: how each key is classified,
//! and which edits follow from that.

use crate::canonical::Canonical;
use vstd::prelude::*;

verus! {

/// A key is stale when the current state holds it and the desired state does
/// not.
pub open spec fn is_stale<K, V>(desired: Map<K, V>, current: Map<K, V>, key: K) -> bool {
    !desired.contains_key(key) && current.contains_key(key)
}

/// A key is new when the desired state holds it and the current state does
/// not.
pub open spec fn is_new<K, V>(desired: Map<K, V>, current: Map<K, V>, key: K) -> bool {
    desired.contains_key(key) && !current.contains_key(key)
}

/// A key is changed when both states hold it, with values whose canonical
/// texts differ.
pub open spec fn is_changed<K, V: Canonical>(
    desired: Map<K, V>,
    current: Map<K, V>,
    key: K,
) -> bool {
    &&& desired.contains_key(key)
    &&& current.contains_key(key)
    &&& !crate::canonical::same_text(desired[key], current[key])
}

/// A key is unchanged when both states hold it, with values of the same
/// canonical text.
pub open spec fn is_unchanged<K, V: Canonical>(
    desired: Map<K, V>,
    current: Map<K, V>,
    key: K,
) -> bool {
    &&& desired.contains_key(key)
    &&& current.contains_key(key)
    &&& crate::canonical::same_text(desired[key], current[key])
}

/// Whether `key` has to be deleted from the current state: it is stale, or it
/// is changed and changed entries are evicted before they are written again.
pub open spec fn removes<K, V: Canonical>(
    desired: Map<K, V>,
    current: Map<K, V>,
    remove_stale: bool,
    key: K,
) -> bool {
    is_stale(desired, current, key) || (remove_stale && is_changed(desired, current, key))
}

/// Whether `key` has to be written to the current state: it is new or
/// changed.
pub open spec fn adds<K, V: Canonical>(desired: Map<K, V>, current: Map<K, V>, key: K) -> bool {
    is_new(desired, current, key) || is_changed(desired, current, key)
}

/// The keys to delete from the current state.
pub open spec fn removal_set<K, V: Canonical>(
    desired: Map<K, V>,
    current: Map<K, V>,
    remove_stale: bool,
) -> Set<K> {
    Set::new(|key: K| removes(desired, current, remove_stale, key))
}

/// The entries to write to the current state, each with its desired value.
pub open spec fn addition_map<K, V: Canonical>(desired: Map<K, V>, current: Map<K, V>) -> Map<
    K,
    V,
> {
    Map::new(|key: K| adds(desired, current, key), |key: K| desired[key])
}

/// The current state after the edits: first every key of `removals` is
/// deleted, then every entry of `additions` is written.
pub open spec fn apply_edits<K, V>(
    current: Map<K, V>,
    removals: Set<K>,
    additions: Map<K, V>,
) -> Map<K, V> {
    current.remove_keys(removals).union_prefer_right(additions)
}

/// Whether `to_remove` and `to_add` are the edits between `scraped` and
/// `on_chain` when the values are compared by the texts in `desired` and
/// `current`: the texts cover the keys of the two states, the deletions are
/// those of a reconciliation of the texts, and the entries to write are the
/// scraped entries of the keys that such a reconciliation writes.
pub open spec fn is_diff_by_texts<K, V>(
    scraped: Map<K, V>,
    on_chain: Map<K, V>,
    remove_stale: bool,
    desired: Map<K, String>,
    current: Map<K, String>,
    to_remove: Set<K>,
    to_add: Map<K, V>,
) -> bool {
    &&& desired.dom() == scraped.dom()
    &&& current.dom() == on_chain.dom()
    &&& to_remove == removal_set(desired, current, remove_stale)
    &&& to_add == scraped.restrict(addition_map(desired, current).dom())
}

} // verus!
