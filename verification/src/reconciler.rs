//! The reconciler: from a desired and a current map to the edits between
//! them.

use crate::canonical::Canonical;
use std::convert::Infallible;
use std::fmt::Debug;
use std::collections::HashMap;
use std::collections::HashSet;
use std::hash::Hash;
use vstd::prelude::*;

verus! {

/// Calls `Clone::clone` on a map key.
///
/// Claims that the copy is the key itself, for a key type that meets the hash
/// table key model of vstd. That model holds of a type whose hash is
/// deterministic, whose `==` tells identical keys from different ones and
/// whose `clone` returns its input; the third of these is what is claimed
/// here.
#[verifier::external_body]
fn clone_key<K: Clone>(key: &K) -> (copy: K)
    requires
        vstd::std_specs::hash::obeys_key_model::<K>(),
    ensures
        copy == *key,
{
    key.clone()
}

/// What iterating over the keys of a map yields: every key of the map, each
/// once.
proof fn lemma_keys_cover_domain<K, V>(keys: Seq<&K>, entries: Map<K, V>)
    requires
        keys.no_duplicates(),
        keys.unref().to_set() == entries.dom(),
    ensures
        forall|k: K| keys.contains(&k) <==> entries.contains_key(k),
{
    assert forall|k: K| keys.contains(&k) <==> entries.contains_key(k) by {
        if keys.contains(&k) {
            let j = choose|j: int| 0 <= j < keys.len() && keys[j] == &k;
            assert(keys.unref()[j] == k);
        }
    }
}

/// A sequence without repeats stays so when an element that it lacks is
/// appended.
proof fn lemma_push_absent_keeps_distinct<A>(s: Seq<A>, x: A)
    requires
        s.no_duplicates(),
        !s.contains(x),
    ensures
        s.push(x).no_duplicates(),
{
}

/// The keys of both maps, each once.
fn get_union_keys<'a, K, V>(
    scraped_entries: &'a HashMap<K, V>,
    on_chain_entries: &'a HashMap<K, V>,
) -> (union_keys: Vec<&'a K>) where K: Eq + Hash
    requires
        vstd::std_specs::hash::obeys_key_model::<K>(),
    ensures
        union_keys@.no_duplicates(),
        forall|k: K|
            union_keys@.contains(&k) <==> (scraped_entries@.contains_key(k)
                || on_chain_entries@.contains_key(k)),
{
    let mut union_keys: Vec<&'a K> = Vec::new();
    let ghost chain_keys = vstd::std_specs::iter::IteratorSpec::remaining(
        &on_chain_entries.keys(),
    );
    let ghost scraped_keys = vstd::std_specs::iter::IteratorSpec::remaining(
        &scraped_entries.keys(),
    );
    proof {
        lemma_keys_cover_domain(chain_keys, on_chain_entries@);
        lemma_keys_cover_domain(scraped_keys, scraped_entries@);
    }
    for key in it: on_chain_entries.keys()
        invariant
            it.seq() == chain_keys,
            union_keys@ == chain_keys.take(it.index()),
    {
        union_keys.push(key);
    }
    assert(union_keys@ == chain_keys);
    for key in it: scraped_entries.keys()
        invariant
            vstd::std_specs::hash::obeys_key_model::<K>(),
            it.seq() == scraped_keys,
            scraped_keys.no_duplicates(),
            forall|k: K| scraped_keys.contains(&k) <==> scraped_entries@.contains_key(k),
            union_keys@.no_duplicates(),
            forall|k: K|
                union_keys@.contains(&k) <==> (on_chain_entries@.contains_key(k)
                    || scraped_keys.take(it.index()).contains(&k)),
    {
        let ghost seen = scraped_keys.take(it.index());
        let ghost before = union_keys@;
        assert(scraped_keys.take(it.index() + 1) == seen.push(key));
        if !on_chain_entries.contains_key(key) {
            union_keys.push(key);
            proof {
                lemma_push_absent_keeps_distinct(before, key);
            }
        }
        assert forall|k: K|
            union_keys@.contains(&k) <==> (on_chain_entries@.contains_key(k) || seen.push(
                key,
            ).contains(&k)) by {
            vstd::seq_lib::lemma_seq_contains_after_push(seen, key, &k);
            vstd::seq_lib::lemma_seq_contains_after_push(before, key, &k);
        }
    }
    assert(scraped_keys.take(scraped_keys.len() as int) == scraped_keys);
    union_keys
}

/// Classifies every key of `union_keys` and returns the keys to delete and the
/// keys to write.
///
/// A key that neither map holds is passed over.
fn get_changes<K, V>(
    union_keys: &Vec<&K>,
    scraped_entries: &HashMap<K, V>,
    on_chain_entries: &HashMap<K, V>,
    remove_stale: bool,
) -> (changes: (HashSet<K>, Vec<K>)) where K: Eq + Hash + Clone, V: Canonical
    requires
        vstd::std_specs::hash::obeys_key_model::<K>(),
    ensures
        forall|k: K|
            changes.0@.contains(k) <==> (union_keys@.contains(&k) && crate::model::removes(
                scraped_entries@,
                on_chain_entries@,
                remove_stale,
                k,
            )),
        forall|k: K|
            changes.1@.contains(k) <==> (union_keys@.contains(&k) && crate::model::adds(
                scraped_entries@,
                on_chain_entries@,
                k,
            )),
{
    let mut to_remove: HashSet<K> = HashSet::new();
    let mut to_add: Vec<K> = Vec::new();
    for i in 0..union_keys.len()
        invariant
            vstd::std_specs::hash::obeys_key_model::<K>(),
            forall|k: K|
                to_remove@.contains(k) <==> (union_keys@.take(i as int).contains(&k)
                    && crate::model::removes(
                    scraped_entries@,
                    on_chain_entries@,
                    remove_stale,
                    k,
                )),
            forall|k: K|
                to_add@.contains(k) <==> (union_keys@.take(i as int).contains(&k)
                    && crate::model::adds(scraped_entries@, on_chain_entries@, k)),
    {
        let entry: &K = union_keys[i];
        let ghost seen = union_keys@.take(i as int);
        let ghost added_before = to_add@;
        assert(union_keys@.take(i + 1) == seen.push(entry));
        match (scraped_entries.get(entry), on_chain_entries.get(entry)) {
            (None, Some(_)) => {
                to_remove.insert(clone_key(entry));
            },
            (Some(_), None) => {
                to_add.push(clone_key(entry));
            },
            (Some(val_scraped), Some(val_on_chain)) => {
                if !(val_scraped.canonical() == val_on_chain.canonical()) {
                    to_add.push(clone_key(entry));
                    if remove_stale {
                        to_remove.insert(clone_key(entry));
                    }
                }
            },
            (None, None) => {},
        }
        proof {
            assert forall|k: K|
                to_remove@.contains(k) <==> (seen.push(entry).contains(&k)
                    && crate::model::removes(
                    scraped_entries@,
                    on_chain_entries@,
                    remove_stale,
                    k,
                )) by {
                vstd::seq_lib::lemma_seq_contains_after_push(seen, entry, &k);
            }
            assert forall|k: K|
                to_add@.contains(k) <==> (seen.push(entry).contains(&k) && crate::model::adds(
                    scraped_entries@,
                    on_chain_entries@,
                    k,
                )) by {
                vstd::seq_lib::lemma_seq_contains_after_push(seen, entry, &k);
                vstd::seq_lib::lemma_seq_contains_after_push(added_before, *entry, k);
            }
        }
    }
    assert(union_keys@.take(union_keys.len() as int) == union_keys@);
    (to_remove, to_add)
}

/// Moves the entries of `entries` that `keys` names into a map of their own.
fn take_entries<K, V>(entries: HashMap<K, V>, keys: Vec<K>) -> (taken: HashMap<K, V>) where
    K: Eq + Hash,

    requires
        vstd::std_specs::hash::obeys_key_model::<K>(),
    ensures
        taken@ == entries@.restrict(keys@.to_set()),
{
    let ghost all = entries@;
    let ghost wanted = keys@;
    let mut entries = entries;
    let mut keys = keys;
    let mut taken: HashMap<K, V> = HashMap::new();
    loop
        invariant
            vstd::std_specs::hash::obeys_key_model::<K>(),
            keys@ == wanted.take(keys.len() as int),
            keys.len() <= wanted.len(),
            entries@ == all.remove_keys(taken@.dom()),
            forall|k: K|
                taken@.contains_key(k) <==> (all.contains_key(k) && wanted.skip(
                    keys.len() as int,
                ).contains(k)),
            forall|k: K| taken@.contains_key(k) ==> taken@[k] == all[k],
        ensures
            keys.len() == 0,
        decreases keys.len(),
    {
        let ghost done = wanted.skip(keys.len() as int);
        match keys.pop() {
            Some(key) => {
                proof {
                    assert(wanted.skip(keys.len() as int) == seq![key] + done);
                }
                match entries.remove(&key) {
                    Some(value) => {
                        taken.insert(key, value);
                    },
                    None => {},
                }
                proof {
                    assert forall|k: K|
                        taken@.contains_key(k) <==> (all.contains_key(k) && (seq![key]
                            + done).contains(k)) by {
                        assert((seq![key] + done).contains(k) <==> (k == key || done.contains(k)))
                            by {
                            if k == key {
                                assert((seq![key] + done)[0] == k);
                            }
                            if done.contains(k) {
                                let j = choose|j: int| 0 <= j < done.len() && done[j] == k;
                                assert((seq![key] + done)[j + 1] == k);
                            }
                        }
                    }
                }
            },
            None => {
                break ;
            },
        }
    }
    taken
}

/// The keys to delete and the keys to write, for the two states as they
/// stand.
fn classify<K, V>(desired: &HashMap<K, V>, current: &HashMap<K, V>, remove_stale: bool) -> (changes: (
    HashSet<K>,
    Vec<K>,
)) where K: Eq + Hash + Clone, V: Canonical
    requires
        vstd::std_specs::hash::obeys_key_model::<K>(),
    ensures
        changes.0@ == crate::model::removal_set(desired@, current@, remove_stale),
        changes.1@.to_set() == crate::model::addition_map(desired@, current@).dom(),
{
    let union_keys = get_union_keys(desired, current);
    let changes = get_changes(&union_keys, desired, current, remove_stale);
    proof {
        assert forall|k: K|
            changes.0@.contains(k) <==> crate::model::removes(desired@, current@, remove_stale, k) by {
            assert(union_keys@.contains(&k) <==> (desired@.contains_key(k)
                || current@.contains_key(k)));
        }
        assert forall|k: K|
            changes.1@.contains(k) <==> crate::model::adds(desired@, current@, k) by {
            assert(union_keys@.contains(&k) <==> (desired@.contains_key(k)
                || current@.contains_key(k)));
        }
        assert(changes.0@ =~= crate::model::removal_set(desired@, current@, remove_stale));
        assert(changes.1@.to_set() =~= crate::model::addition_map(desired@, current@).dom());
    }
    changes
}

/// Computes the edits that bring `current` in line with `desired`: the keys
/// to delete and the entries to write.
///
/// A key that only `current` holds is stale and is deleted. A key that only
/// `desired` holds is new and is written with its desired value. A key that
/// both hold is left alone when the two values have the same canonical text;
/// otherwise it is written with its desired value, and with `remove_stale` it
/// is deleted first as well.
///
/// The key type has to meet the hash table key model: a deterministic hash,
/// an `==` that tells identical keys from different ones, and a `clone` that
/// returns its input.
pub fn reconcile<K, V>(desired: HashMap<K, V>, current: HashMap<K, V>, remove_stale: bool) -> (edits:
    (HashSet<K>, HashMap<K, V>)) where K: Eq + Hash + Clone, V: Canonical
    requires
        vstd::std_specs::hash::obeys_key_model::<K>(),
    ensures
        edits.0@ == crate::model::removal_set(desired@, current@, remove_stale),
        edits.1@ == crate::model::addition_map(desired@, current@),
{
    let (to_remove, keys_to_add) = classify(&desired, &current, remove_stale);
    let to_add = take_entries(desired, keys_to_add);
    assert(to_add@ =~= crate::model::addition_map(desired@, current@));
    (to_remove, to_add)
}

/// The `Debug` text of every value, under the key of the value.
fn debug_texts<K, V>(entries: &HashMap<K, V>) -> (texts: HashMap<K, String>) where
    K: Eq + Hash + Clone,
    V: Debug,

    requires
        vstd::std_specs::hash::obeys_key_model::<K>(),
    ensures
        texts@.dom() == entries@.dom(),
{
    let mut texts: HashMap<K, String> = HashMap::new();
    let ghost keys = vstd::std_specs::iter::IteratorSpec::remaining(&entries.keys());
    proof {
        lemma_keys_cover_domain(keys, entries@);
    }
    for key in it: entries.keys()
        invariant
            vstd::std_specs::hash::obeys_key_model::<K>(),
            it.seq() == keys,
            forall|k: K| keys.contains(&k) <==> entries@.contains_key(k),
            forall|k: K| texts@.contains_key(k) <==> keys.take(it.index()).contains(&k),
    {
        let ghost seen = keys.take(it.index());
        assert(keys.take(it.index() + 1) == seen.push(key));
        match entries.get(key) {
            Some(value) => {
                texts.insert(clone_key(key), crate::canonical::debug_text(value));
            },
            None => {},
        }
        assert forall|k: K| texts@.contains_key(k) <==> seen.push(key).contains(&k) by {
            vstd::seq_lib::lemma_seq_contains_after_push(seen, key, &k);
        }
    }
    assert(keys.take(keys.len() as int) == keys);
    texts
}

/// Computes the edits that bring `on_chain_entries` in line with
/// `scraped_entries`, comparing values by their `Debug` text: the keys to
/// delete and the entries to write.
///
/// This is [`reconcile`] for values that have no canonical text of their own.
/// Each value is printed once, and the keys are classified by what was
/// printed. What a `Debug` impl prints is not known here, so the result is
/// stated for whatever it printed: the edits are those of a reconciliation of
/// the two key sets under some texts, and every entry to write carries the
/// scraped value itself.
///
/// The result is always `Ok`: the error type has no values, and stands in the
/// signature only so that the call reads like the fallible calls around it.
pub fn diff<K, V>(
    scraped_entries: HashMap<K, V>,
    on_chain_entries: HashMap<K, V>,
    remove_outdated: bool,
) -> (edits: Result<(HashSet<K>, HashMap<K, V>), Infallible>) where
    K: Eq + Hash + Clone,
    V: Debug,

    requires
        vstd::std_specs::hash::obeys_key_model::<K>(),
    ensures
        edits is Ok,
        exists|desired: Map<K, String>, current: Map<K, String>|
            crate::model::is_diff_by_texts(
                scraped_entries@,
                on_chain_entries@,
                remove_outdated,
                desired,
                current,
                edits->Ok_0.0@,
                edits->Ok_0.1@,
            ),
{
    let desired = debug_texts(&scraped_entries);
    let current = debug_texts(&on_chain_entries);
    let (to_remove, keys_to_add) = classify(&desired, &current, remove_outdated);
    let to_add = take_entries(scraped_entries, keys_to_add);
    let edits = Ok((to_remove, to_add));
    assert(crate::model::is_diff_by_texts(
        scraped_entries@,
        on_chain_entries@,
        remove_outdated,
        desired@,
        current@,
        edits->Ok_0.0@,
        edits->Ok_0.1@,
    ));
    edits
}

} // verus!
