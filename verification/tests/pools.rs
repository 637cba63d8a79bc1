use hashmap_diff::pools::find_reference;
use hashmap_diff::pools::pair_references;
use hashmap_diff::pools::pools_on_dex;
use hashmap_diff::pools::PoolEntry;

fn pool(id: u64, dex: &str) -> PoolEntry {
    PoolEntry { id, dex: dex.to_string() }
}

#[test]
fn selects_pools_of_one_exchange_in_order() {
    let pools = vec![
        pool(4, "wynd"),
        pool(1, "junoswap"),
        pool(9, "wynd"),
        pool(2, "wyndex"),
        pool(3, "wynd"),
    ];
    assert_eq!(pools_on_dex(&pools, &"wynd".to_string()), vec![4, 9, 3]);
    assert_eq!(pools_on_dex(&pools, &"wyndex".to_string()), vec![2]);
}

#[test]
fn selects_nothing_for_an_unknown_exchange() {
    let pools = vec![pool(4, "wynd"), pool(1, "junoswap")];
    assert_eq!(pools_on_dex(&pools, &"osmosis".to_string()), Vec::<u64>::new());
    assert_eq!(pools_on_dex(&Vec::new(), &"wynd".to_string()), Vec::<u64>::new());
}

#[test]
fn exchange_names_are_compared_exactly() {
    let pools = vec![pool(1, "Wynd"), pool(2, "wynd "), pool(3, "wynd")];
    assert_eq!(pools_on_dex(&pools, &"wynd".to_string()), vec![3]);
}

#[test]
fn finds_the_first_of_several_references() {
    let references = vec![5, 7, 5, 7];
    assert_eq!(find_reference(&references, 5), Some(0));
    assert_eq!(find_reference(&references, 7), Some(1));
    assert_eq!(find_reference(&references, 6), None);
    assert_eq!(find_reference(&Vec::new(), 6), None);
}

#[test]
fn pairs_every_pool_with_its_first_reference() {
    let pools = vec![pool(7, "wynd"), pool(1, "junoswap"), pool(5, "wynd"), pool(7, "wynd")];
    let references = vec![5, 7, 5, 8];
    assert_eq!(
        pair_references(&pools, &references),
        vec![Some(1), None, Some(0), Some(1)]
    );
}

#[test]
fn pairs_nothing_without_references() {
    let pools = vec![pool(7, "wynd"), pool(1, "junoswap")];
    assert_eq!(pair_references(&pools, &Vec::new()), vec![None, None]);
    assert_eq!(pair_references(&Vec::new(), &vec![1, 2]), Vec::<Option<usize>>::new());
}
