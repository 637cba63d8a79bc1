use hashmap_diff::listing::absorb_page;

#[test]
fn empty_page_ends_the_listing() {
    let mut collected = vec![1, 2, 3];
    assert_eq!(absorb_page(&mut collected, Vec::new()), None);
    assert_eq!(collected, vec![1, 2, 3]);
}

#[test]
fn empty_first_page_ends_the_listing() {
    let mut collected: Vec<u8> = Vec::new();
    assert_eq!(absorb_page(&mut collected, Vec::new()), None);
    assert_eq!(collected, Vec::<u8>::new());
}

#[test]
fn first_page_resumes_after_its_last_item() {
    let mut collected = Vec::new();
    assert_eq!(absorb_page(&mut collected, vec!["a", "b"]), Some(1));
    assert_eq!(collected, vec!["a", "b"]);
}

#[test]
fn later_page_is_appended_in_order() {
    let mut collected = vec!["a", "b"];
    assert_eq!(absorb_page(&mut collected, vec!["c", "d", "e"]), Some(4));
    assert_eq!(collected, vec!["a", "b", "c", "d", "e"]);
}

#[test]
fn walks_a_listing_to_its_end() {
    let served: Vec<u32> = (1..=7).collect();
    let mut collected: Vec<u32> = Vec::new();
    let mut after: Option<u32> = None;
    let mut requests = 0;
    loop {
        let page: Vec<u32> = served
            .iter()
            .copied()
            .filter(|item| after.map_or(true, |last| *item > last))
            .take(3)
            .collect();
        requests += 1;
        match absorb_page(&mut collected, page) {
            Some(at) => after = Some(collected[at]),
            None => break,
        }
    }
    assert_eq!(collected, served);
    assert_eq!(requests, 4);
}
