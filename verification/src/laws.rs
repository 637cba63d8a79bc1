//! What holds of every reconciliation, proved over the model that the
//! contract of `diff` is stated in.

use crate::canonical::Canonical;
use vstd::prelude::*;

verus! {

/// Reconciling a state against itself asks for no edit: nothing is deleted
/// and nothing is written, whatever the staleness policy.
pub proof fn lemma_identity<K, V: Canonical>(entries: Map<K, V>, remove_stale: bool)
    ensures
        crate::model::removal_set(entries, entries, remove_stale) == Set::<K>::empty(),
        crate::model::addition_map(entries, entries) == Map::<K, V>::empty(),
{
}

/// Once the edits have been applied, deletions first, a second
/// reconciliation against the same desired state asks for no edit.
pub proof fn lemma_idempotent<K, V: Canonical>(
    desired: Map<K, V>,
    current: Map<K, V>,
    remove_stale: bool,
)
    ensures
        ({
            let settled = crate::model::apply_edits(
                current,
                crate::model::removal_set(desired, current, remove_stale),
                crate::model::addition_map(desired, current),
            );
            &&& crate::model::removal_set(desired, settled, remove_stale) == Set::<K>::empty()
            &&& crate::model::addition_map(desired, settled) == Map::<K, V>::empty()
        }),
{
    let removals = crate::model::removal_set(desired, current, remove_stale);
    let additions = crate::model::addition_map(desired, current);
    let settled = crate::model::apply_edits(current, removals, additions);
    assert forall|key: K|
        !crate::model::removes(desired, settled, remove_stale, key) && !crate::model::adds(
            desired,
            settled,
            key,
        ) by {
        lemma_settled_entry(desired, current, remove_stale, key);
    }
}

/// After the edits a key is held exactly when the desired state holds it,
/// with the desired value where it was written and with the value it had
/// where it was left alone.
pub proof fn lemma_settled_entry<K, V: Canonical>(
    desired: Map<K, V>,
    current: Map<K, V>,
    remove_stale: bool,
    key: K,
)
    ensures
        ({
            let settled = crate::model::apply_edits(
                current,
                crate::model::removal_set(desired, current, remove_stale),
                crate::model::addition_map(desired, current),
            );
            &&& settled.contains_key(key) <==> desired.contains_key(key)
            &&& crate::model::adds(desired, current, key) ==> settled[key] == desired[key]
            &&& crate::model::is_unchanged(desired, current, key) ==> settled[key] == current[key]
        }),
{
}

/// Every key falls in exactly one class, and the class decides where the key
/// appears in the edits:
/// a stale key is deleted and not written; a new key is written and not
/// deleted; a changed key is written, and deleted exactly when the staleness
/// policy is on; an unchanged key, and a key that neither state holds,
/// appears nowhere. So no key on which the two states disagree is passed
/// over.
pub proof fn lemma_every_difference_is_edited<K, V: Canonical>(
    desired: Map<K, V>,
    current: Map<K, V>,
    remove_stale: bool,
    key: K,
)
    ensures
        ({
            let removals = crate::model::removal_set(desired, current, remove_stale);
            let additions = crate::model::addition_map(desired, current);
            &&& crate::model::is_stale(desired, current, key) ==> removals.contains(key)
                && !additions.contains_key(key)
            &&& crate::model::is_new(desired, current, key) ==> !removals.contains(key)
                && additions.contains_key(key) && additions[key] == desired[key]
            &&& crate::model::is_changed(desired, current, key) ==> (removals.contains(key)
                <==> remove_stale) && additions.contains_key(key) && additions[key]
                == desired[key]
            &&& crate::model::is_unchanged(desired, current, key) ==> !removals.contains(key)
                && !additions.contains_key(key)
            &&& !desired.contains_key(key) && !current.contains_key(key) ==> !removals.contains(
                key,
            ) && !additions.contains_key(key)
            &&& (desired.contains_key(key) || current.contains_key(key))
                && !crate::model::is_unchanged(desired, current, key) ==> removals.contains(key)
                || additions.contains_key(key)
        }),
{
}

/// A key is both deleted and written only under the staleness policy:
/// without it the deletions and the written keys are disjoint.
pub proof fn lemma_overlap_needs_policy<K, V: Canonical>(desired: Map<K, V>, current: Map<K, V>)
    ensures
        crate::model::removal_set(desired, current, false).disjoint(
            crate::model::addition_map(desired, current).dom(),
        ),
{
}

/// The edits name keys of the two states only.
pub proof fn lemma_edits_within_union<K, V: Canonical>(
    desired: Map<K, V>,
    current: Map<K, V>,
    remove_stale: bool,
)
    ensures
        crate::model::removal_set(desired, current, remove_stale).subset_of(current.dom()),
        crate::model::addition_map(desired, current).dom().subset_of(desired.dom()),
{
}

/// The keys that the edits write and that the current state lacks.
pub open spec fn new_keys<K, V>(additions: Map<K, V>, current: Map<K, V>) -> Set<K> {
    additions.dom().difference(current.dom())
}

/// The deleted keys and the newly written keys together are no more than the
/// keys of the two states.
pub proof fn lemma_edit_count<K, V: Canonical>(
    desired: Map<K, V>,
    current: Map<K, V>,
    remove_stale: bool,
)
    requires
        desired.dom().finite(),
        current.dom().finite(),
    ensures
        crate::model::removal_set(desired, current, remove_stale).len() + new_keys(
            crate::model::addition_map(desired, current),
            current,
        ).len() <= desired.dom().union(current.dom()).len(),
{
    let removals = crate::model::removal_set(desired, current, remove_stale);
    let fresh = new_keys(crate::model::addition_map(desired, current), current);
    let all = desired.dom().union(current.dom());
    vstd::set_lib::lemma_set_subset_finite(current.dom(), removals);
    vstd::set_lib::lemma_set_subset_finite(desired.dom(), fresh);
    vstd::set_lib::lemma_set_disjoint_lens(removals, fresh);
    vstd::set_lib::lemma_len_subset(removals.union(fresh), all);
}

/// Whatever the texts by which the values were compared, the edits treat
/// the keys by where they occur:
/// a key that only the deployed state holds is deleted and not written; a key
/// that only the scraped state holds is written, with its scraped value, and
/// not deleted; a key that both hold is left alone or written with its
/// scraped value, and it is deleted exactly when it is written and the
/// staleness policy is on; a key that neither holds appears nowhere.
pub proof fn lemma_edits_by_any_texts<K, V>(
    scraped: Map<K, V>,
    on_chain: Map<K, V>,
    remove_stale: bool,
    desired: Map<K, String>,
    current: Map<K, String>,
    to_remove: Set<K>,
    to_add: Map<K, V>,
    key: K,
)
    requires
        crate::model::is_diff_by_texts(
            scraped,
            on_chain,
            remove_stale,
            desired,
            current,
            to_remove,
            to_add,
        ),
    ensures
        crate::model::is_stale(scraped, on_chain, key) ==> to_remove.contains(key)
            && !to_add.contains_key(key),
        crate::model::is_new(scraped, on_chain, key) ==> !to_remove.contains(key)
            && to_add.contains_key(key),
        to_add.contains_key(key) ==> scraped.contains_key(key) && to_add[key] == scraped[key],
        scraped.contains_key(key) && on_chain.contains_key(key) ==> (to_remove.contains(key) <==> (
        remove_stale && to_add.contains_key(key))),
        !scraped.contains_key(key) && !on_chain.contains_key(key) ==> !to_remove.contains(key)
            && !to_add.contains_key(key),
{
    lemma_every_difference_is_edited(desired, current, remove_stale, key);
}

/// Whatever the texts by which the values were compared, the deleted keys
/// and the newly written keys together are no more than the keys of the two
/// states.
pub proof fn lemma_edit_count_by_any_texts<K, V>(
    scraped: Map<K, V>,
    on_chain: Map<K, V>,
    remove_stale: bool,
    desired: Map<K, String>,
    current: Map<K, String>,
    to_remove: Set<K>,
    to_add: Map<K, V>,
)
    requires
        scraped.dom().finite(),
        on_chain.dom().finite(),
        crate::model::is_diff_by_texts(
            scraped,
            on_chain,
            remove_stale,
            desired,
            current,
            to_remove,
            to_add,
        ),
    ensures
        to_remove.len() + new_keys(to_add, on_chain).len() <= scraped.dom().union(
            on_chain.dom(),
        ).len(),
{
    lemma_edit_count(desired, current, remove_stale);
    assert(new_keys(to_add, on_chain) =~= new_keys(
        crate::model::addition_map(desired, current),
        current,
    ));
}

} // verus!
