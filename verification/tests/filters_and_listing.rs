use mediastore::content_type::unknown;
use mediastore::filter::{
    CompareType, ConditionContext, ItemFilter, Rectangle, RectangleFilter, SizeFilter,
    UrlFilter,
};
use mediastore::item::{ImageExtend, Item, ItemExtend, PhotoExtend, PictureExtend};
use mediastore::service::{ItemService, PageStep};

fn photo_item(id: i64, w: u32, h: u32) -> Item {
    Item {
        id,
        name: format!("item-{}", id),
        ext: unknown(),
        size: 0,
        created_at: 0,
        is_deleted: false,
        repo_id: 1,
        path: String::new(),
        extend: ItemExtend::Photo(PhotoExtend { image_extend: ImageExtend { w, h } }),
    }
}

fn picture_item_with_url(id: i64, url: &str) -> Item {
    Item {
        id,
        name: format!("item-{}", id),
        ext: unknown(),
        size: 0,
        created_at: 0,
        is_deleted: false,
        repo_id: 1,
        path: String::new(),
        extend: ItemExtend::Picture(PictureExtend {
            image_extend: ImageExtend { w: 100, h: 100 },
            author: None,
            url: Some(String::from(url)),
        }),
    }
}

fn empty_item(id: i64) -> Item {
    Item {
        id,
        name: String::new(),
        ext: unknown(),
        size: 0,
        created_at: 0,
        is_deleted: false,
        repo_id: 1,
        path: String::new(),
        extend: ItemExtend::Empty,
    }
}

#[test]
fn size_filter_bounds_and_missing_payload() {
    let f = SizeFilter { min_w: Some(100), max_w: Some(200), min_h: None, max_h: Some(150) };
    let ctx = ConditionContext {};
    assert!(f.check(&photo_item(1, 150, 150), &ctx));
    assert!(!f.check(&photo_item(2, 99, 150), &ctx));
    assert!(!f.check(&photo_item(3, 201, 150), &ctx));
    assert!(!f.check(&photo_item(4, 150, 151), &ctx));
    assert!(!f.check(&empty_item(5), &ctx));
}

#[test]
fn rectangle_filter_classes() {
    let ctx = ConditionContext {};
    let horizontal = RectangleFilter { rectangle: Rectangle::Horizontal };
    assert!(horizontal.check(&photo_item(1, 200, 100), &ctx));
    assert!(!horizontal.check(&photo_item(2, 100, 200), &ctx));

    let square = RectangleFilter { rectangle: Rectangle::Square };
    assert!(square.check(&photo_item(3, 128, 128), &ctx));

    let near = RectangleFilter { rectangle: Rectangle::NearlySquare };
    // 91/100 is over nine tenths; 90/100 is not.
    assert!(near.check(&photo_item(4, 91, 100), &ctx));
    assert!(!near.check(&photo_item(5, 90, 100), &ctx));

    let p1080 = RectangleFilter { rectangle: Rectangle::P1080 };
    assert!(p1080.check(&photo_item(6, 1920, 1080), &ctx));
    assert!(p1080.check(&photo_item(7, 1080, 1920), &ctx));
    assert!(!p1080.check(&photo_item(8, 1919, 1080), &ctx));

    let p2160 = RectangleFilter { rectangle: Rectangle::P2160 };
    assert!(p2160.check(&photo_item(9, 4096, 2160), &ctx));
    assert!(!p2160.check(&photo_item(10, 4095, 2160), &ctx));
}

#[test]
fn url_filter_compare_modes() {
    let ctx = ConditionContext {};
    let item = picture_item_with_url(1, "https://example.net/a/b.png");

    let exact = UrlFilter {
        url: String::from("https://example.net/a/b.png"),
        compare: CompareType::Exactly,
    };
    assert!(exact.check(&item, &ctx));

    let prefix = UrlFilter { url: String::from("https://"), compare: CompareType::Prefix };
    assert!(prefix.check(&item, &ctx));

    let suffix = UrlFilter { url: String::from(".png"), compare: CompareType::Suffix };
    assert!(suffix.check(&item, &ctx));

    let includes = UrlFilter { url: String::from("/a/"), compare: CompareType::Includes };
    assert!(includes.check(&item, &ctx));

    let excludes = UrlFilter { url: String::from("/z/"), compare: CompareType::Excludes };
    assert!(excludes.check(&item, &ctx));

    let missing = UrlFilter { url: String::from("x"), compare: CompareType::Includes };
    assert!(!missing.check(&photo_item(2, 10, 10), &ctx));
    assert!(!missing.check(&empty_item(3), &ctx));
}

#[test]
fn filter_page_keeps_passers_in_order() {
    let ctx = ConditionContext {};
    let filters = vec![ItemFilter::Rectangle(RectangleFilter {
        rectangle: Rectangle::Horizontal,
    })];
    let page = vec![
        photo_item(1, 200, 100),
        photo_item(2, 100, 200),
        photo_item(3, 300, 100),
    ];
    let out = ItemService::filter_page(page, &filters, &ctx);
    let ids: Vec<i64> = out.iter().map(|it| it.id).collect();
    assert_eq!(ids, vec![1, 3]);
}

#[test]
fn filters_compose_by_logical_and() {
    let ctx = ConditionContext {};
    let filters = vec![
        ItemFilter::Rectangle(RectangleFilter { rectangle: Rectangle::Horizontal }),
        ItemFilter::Size(SizeFilter {
            min_w: Some(250),
            max_w: None,
            min_h: None,
            max_h: None,
        }),
    ];
    let page = vec![photo_item(1, 200, 100), photo_item(2, 300, 100)];
    let out = ItemService::filter_page(page, &filters, &ctx);
    let ids: Vec<i64> = out.iter().map(|it| it.id).collect();
    assert_eq!(ids, vec![2]);
}

#[test]
fn listing_loop_skips_fully_filtered_pages() {
    // A post-filter rejects everything in the first non-empty page but
    // accepts an item of a later page: the consumer keeps pulling and
    // answers the later page's survivors, never an empty result.
    let ctx = ConditionContext {};
    let filters = Some(vec![ItemFilter::Rectangle(RectangleFilter {
        rectangle: Rectangle::Horizontal,
    })]);

    let first = vec![photo_item(1, 100, 200), photo_item(2, 100, 300)];
    match ItemService::loop_step(first, &filters, &ctx) {
        PageStep::Continue => {},
        PageStep::Done(_) => panic!("a fully filtered page must not end the listing"),
    }

    let second = vec![photo_item(3, 100, 200), photo_item(4, 400, 100)];
    match ItemService::loop_step(second, &filters, &ctx) {
        PageStep::Done(v) => {
            let ids: Vec<i64> = v.iter().map(|it| it.id).collect();
            assert_eq!(ids, vec![4]);
        },
        PageStep::Continue => panic!("a page with survivors answers the listing"),
    }

    match ItemService::loop_step(Vec::new(), &filters, &ctx) {
        PageStep::Done(v) => assert!(v.is_empty()),
        PageStep::Continue => panic!("an empty page is the end of the stream"),
    }
}

#[test]
fn listing_without_filters_returns_pages_whole() {
    let ctx = ConditionContext {};
    let page = vec![photo_item(1, 1, 2), photo_item(2, 2, 1)];
    match ItemService::loop_step(page, &None, &ctx) {
        PageStep::Done(v) => assert_eq!(v.len(), 2),
        PageStep::Continue => panic!("pages pass through whole without filters"),
    }
}

#[test]
fn listing_limit_is_clamped_to_one_hundred() {
    assert_eq!(ItemService::clamp_limit(7), 7);
    assert_eq!(ItemService::clamp_limit(100), 100);
    assert_eq!(ItemService::clamp_limit(100000), 100);
}
