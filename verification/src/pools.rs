//! Planning a change of exchange name: which pools to delete under the old
//! name, and which liquidity references to list again under the new one.

use vstd::prelude::*;

verus! {

/// What a renaming reads of a registered pool: its id and the name of the
/// exchange it is listed on.
#[derive(Debug, Clone, PartialEq, Eq)]
pub struct PoolEntry {
    /// The id of the pool in the registry.
    pub id: u64,
    /// The name of the exchange.
    pub dex: String,
}

/// The id of `pool` when it is listed on `dex`.
pub open spec fn id_on_dex(pool: PoolEntry, dex: Seq<char>) -> Option<u64> {
    if pool.dex@ == dex {
        Some(pool.id)
    } else {
        None
    }
}

/// The ids of the pools listed on `dex`, in the order of `pools`.
pub open spec fn ids_on_dex(pools: Seq<PoolEntry>, dex: Seq<char>) -> Seq<u64> {
    pools.filter_map(|pool: PoolEntry| id_on_dex(pool, dex))
}

/// Whether `at` is the first position in `ids` that holds `id`.
pub open spec fn is_first_position(ids: Seq<u64>, id: u64, at: int) -> bool {
    &&& 0 <= at < ids.len()
    &&& ids[at] == id
    &&& forall|j: int| 0 <= j < at ==> ids[j] != id
}

/// Whether `found` answers the search for `id` in `ids`: the first position
/// that holds it, or nothing when no position does.
pub open spec fn locates(ids: Seq<u64>, id: u64, found: Option<usize>) -> bool {
    match found {
        Some(at) => is_first_position(ids, id, at as int),
        None => forall|j: int| 0 <= j < ids.len() ==> ids[j] != id,
    }
}

/// Selects the pools that are listed on `dex` and returns their ids, in the
/// order of `pools`.
pub fn pools_on_dex(pools: &Vec<PoolEntry>, dex: &String) -> (ids: Vec<u64>)
    ensures
        ids@ == ids_on_dex(pools@, dex@),
{
    let mut ids: Vec<u64> = Vec::new();
    let ghost pick = |pool: PoolEntry| id_on_dex(pool, dex@);
    for i in 0..pools.len()
        invariant
            pick == (|pool: PoolEntry| id_on_dex(pool, dex@)),
            ids@ == pools@.take(i as int).filter_map(pick),
    {
        proof {
            pools@.lemma_filter_map_take_succ(pick, i as int);
        }
        if pools[i].dex == *dex {
            ids.push(pools[i].id);
        }
    }
    assert(pools@.take(pools.len() as int) == pools@);
    ids
}

/// Finds the first reference that carries `id`.
pub fn find_reference(reference_ids: &Vec<u64>, id: u64) -> (found: Option<usize>)
    ensures
        locates(reference_ids@, id, found),
{
    for at in 0..reference_ids.len()
        invariant
            forall|j: int| 0 <= j < at ==> reference_ids@[j] != id,
    {
        if reference_ids[at] == id {
            return Some(at);
        }
    }
    None
}

/// Pairs every pool with the first reference that carries its id, if there
/// is one. The result has one answer for each pool, in the order of `pools`.
pub fn pair_references(pools: &Vec<PoolEntry>, reference_ids: &Vec<u64>) -> (pairs: Vec<
    Option<usize>,
>)
    ensures
        pairs@.len() == pools@.len(),
        forall|i: int|
            0 <= i < pools@.len() ==> locates(reference_ids@, pools@[i].id, #[trigger] pairs@[i]),
{
    let mut pairs: Vec<Option<usize>> = Vec::new();
    for i in 0..pools.len()
        invariant
            pairs@.len() == i,
            forall|k: int|
                0 <= k < i ==> locates(reference_ids@, pools@[k].id, #[trigger] pairs@[k]),
    {
        let found = find_reference(reference_ids, pools[i].id);
        pairs.push(found);
    }
    pairs
}

} // verus!
