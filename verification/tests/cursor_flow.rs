use mediastore::content_type::unknown;
use mediastore::cursor::{
    EndIdCondition, ItemCondition, ItemTun, PullQuery, StartIdCondition,
};
use mediastore::item::{Item, ItemExtend};

fn item(id: i64) -> Item {
    Item {
        id,
        name: format!("item-{}", id),
        ext: unknown(),
        size: 0,
        created_at: 0,
        is_deleted: false,
        repo_id: 1,
        path: String::new(),
        extend: ItemExtend::Empty,
    }
}

fn page(ids: &[i64]) -> Vec<Item> {
    ids.iter().map(|&id| item(id)).collect()
}

fn ids_of(items: &[Item]) -> Vec<i64> {
    items.iter().map(|it| it.id).collect()
}

#[test]
fn range_cursor_pages_without_repeats() {
    // Items 1..10 in one repository; StartId=3, EndId=8, ascending,
    // limit 3: pages [3,4,5], [6,7], then end of stream.
    let mut tun = ItemTun::new(false, 1);
    let conds = vec![
        ItemCondition::StartId(StartIdCondition { id: 3 }),
        ItemCondition::EndId(EndIdCondition { id: 8 }),
    ];
    tun.init(1, 10, &conds);

    match tun.pull_request(3) {
        PullQuery::Range { repo_id, start_id, end_id, from_big, limit } => {
            assert_eq!(repo_id, 1);
            assert_eq!(start_id, 3);
            assert_eq!(end_id, 8);
            assert!(!from_big);
            assert_eq!(limit, 3);
        },
        _ => panic!("expected a range query"),
    }
    let got = tun.pull_complete(page(&[3, 4, 5]));
    assert_eq!(ids_of(&got), vec![3, 4, 5]);

    match tun.pull_request(3) {
        PullQuery::Range { start_id, end_id, limit, .. } => {
            assert_eq!(start_id, 6);
            assert_eq!(end_id, 8);
            assert_eq!(limit, 3);
        },
        _ => panic!("expected a range query"),
    }
    let got = tun.pull_complete(page(&[6, 7]));
    assert_eq!(ids_of(&got), vec![6, 7]);

    match tun.pull_request(3) {
        PullQuery::Range { start_id, end_id, .. } => {
            assert_eq!(start_id, 8);
            assert_eq!(end_id, 8);
        },
        _ => panic!("expected a range query"),
    }
    let got = tun.pull_complete(page(&[]));
    assert!(got.is_empty());
}

#[test]
fn tag_list_ignores_scalar_bounds() {
    // A tag condition resolving to {2,4,6,8}, then StartId=5, ascending:
    // the pull serves the whole list, unaffected by the scalar bound.
    let mut tun = ItemTun::new(false, 1);
    let conds = vec![
        ItemCondition::Tag(vec![8, 2, 6, 4]),
        ItemCondition::StartId(StartIdCondition { id: 5 }),
    ];
    tun.init(1, 10, &conds);

    match tun.pull_request(10) {
        PullQuery::ByIds(ids) => assert_eq!(ids, vec![2, 4, 6, 8]),
        _ => panic!("expected an id-list query"),
    }
    let got = tun.pull_complete(page(&[8, 2, 6, 4]));
    assert_eq!(ids_of(&got), vec![2, 4, 6, 8]);

    match tun.pull_request(10) {
        PullQuery::ByIds(ids) => assert!(ids.is_empty()),
        _ => panic!("expected an id-list query"),
    }
}

#[test]
fn tag_lists_intersect_in_first_list_order() {
    let mut tun = ItemTun::new(false, 1);
    let conds = vec![
        ItemCondition::Tag(vec![1, 2, 3, 4]),
        ItemCondition::Tag(vec![4, 2, 9]),
    ];
    tun.init(1, 10, &conds);
    match tun.pull_request(10) {
        PullQuery::ByIds(ids) => assert_eq!(ids, vec![2, 4]),
        _ => panic!("expected an id-list query"),
    }
}

#[test]
fn id_list_leaves_in_limited_chunks() {
    let mut tun = ItemTun::new(false, 1);
    let conds = vec![ItemCondition::Tag(vec![5, 1, 3])];
    tun.init(1, 10, &conds);
    match tun.pull_request(2) {
        PullQuery::ByIds(ids) => assert_eq!(ids, vec![1, 3]),
        _ => panic!("expected an id-list query"),
    }
    match tun.pull_request(2) {
        PullQuery::ByIds(ids) => assert_eq!(ids, vec![5]),
        _ => panic!("expected an id-list query"),
    }
}

#[test]
fn descending_cursor_sorts_and_advances_the_upper_bound() {
    let mut tun = ItemTun::new(true, 7);
    tun.init(1, 10, &Vec::new());
    match tun.pull_request(4) {
        PullQuery::Range { repo_id, start_id, end_id, from_big, limit } => {
            assert_eq!(repo_id, 7);
            assert_eq!(start_id, 1);
            assert_eq!(end_id, 11);
            assert!(from_big);
            assert_eq!(limit, 4);
        },
        _ => panic!("expected a range query"),
    }
    // The storage's descending page, deliberately shuffled: the cursor
    // re-sorts defensively.
    let got = tun.pull_complete(page(&[8, 10, 7, 9]));
    assert_eq!(ids_of(&got), vec![10, 9, 8, 7]);
    match tun.pull_request(4) {
        PullQuery::Range { start_id, end_id, .. } => {
            assert_eq!(start_id, 1);
            assert_eq!(end_id, 7);
        },
        _ => panic!("expected a range query"),
    }
}

#[test]
fn descending_id_list_sorts_descending() {
    let mut tun = ItemTun::new(true, 1);
    let conds = vec![ItemCondition::Tag(vec![2, 8, 4, 6])];
    tun.init(1, 10, &conds);
    match tun.pull_request(10) {
        PullQuery::ByIds(ids) => assert_eq!(ids, vec![8, 6, 4, 2]),
        _ => panic!("expected an id-list query"),
    }
}

#[test]
fn empty_page_leaves_the_cursor_unchanged() {
    let mut tun = ItemTun::new(false, 1);
    tun.init(3, 9, &Vec::new());
    let got = tun.pull_complete(Vec::new());
    assert!(got.is_empty());
    match tun.pull_request(5) {
        PullQuery::Range { start_id, end_id, .. } => {
            assert_eq!(start_id, 3);
            assert_eq!(end_id, 10);
        },
        _ => panic!("expected a range query"),
    }
}
