use fitnab::moment::Moment;
use fitnab::provider::{
    apply_metadata, merge_catalog_row, merge_feed_row, needs_fetch, CatalogRow, FeedRow, GameEntry,
    Metadata, PROVIDER_NAME,
};

fn entry(published_at: Option<&str>) -> GameEntry {
    GameEntry {
        id: "id".to_string(),
        provider: "p".to_string(),
        title: "Title".to_string(),
        post_url: "url".to_string(),
        magnet_link: Some("m".to_string()),
        torrent_blob: Some(vec![1, 2]),
        is_indexed: true,
        size_bytes: Some(5),
        published_at: published_at.map(|s| s.to_string()),
        info_hash: Some("h".to_string()),
    }
}

fn feed_row(date: Option<&str>) -> FeedRow {
    FeedRow {
        id: "id".to_string(),
        title: "New title".to_string(),
        post_url: "new url".to_string(),
        published: date.map(|s| Moment::from_rfc3339(s).unwrap()),
    }
}

const EARLY: &str = "2024-05-15T10:00:00+00:00";
const NOON: &str = "2024-05-15T12:00:00+00:00";

fn catalog_row() -> CatalogRow {
    CatalogRow {
        id: "id".to_string(),
        title: "New title".to_string(),
        post_url: "new url".to_string(),
    }
}

#[test]
fn a_new_game_from_the_feed() {
    let game = merge_feed_row(None, feed_row(Some("2024-05-15T15:00:00+03:00")));
    let expected = GameEntry {
        id: "id".to_string(),
        provider: PROVIDER_NAME.to_string(),
        title: "New title".to_string(),
        post_url: "new url".to_string(),
        magnet_link: None,
        torrent_blob: None,
        is_indexed: false,
        size_bytes: None,
        published_at: Some(NOON.to_string()),
        info_hash: None,
    };
    assert_eq!(game, expected);
    assert_eq!(PROVIDER_NAME, "FitGirl Repacks");
}

#[test]
fn a_later_date_resets_the_index() {
    // The second one is earlier than noon in UTC, though its text stands behind.
    for stored in [EARLY, "2024-05-15T13:00:00+03:00", "2024-05-15T11:59:59.999Z"] {
        let game = merge_feed_row(Some(entry(Some(stored))), feed_row(Some(NOON)));
        let expected = GameEntry { is_indexed: false, ..entry(Some(NOON)) };
        assert_eq!(game, expected);
        assert!(needs_fetch(&game, "title"));
    }
}

#[test]
fn any_date_is_newer_than_none() {
    for stored in [None, Some("")] {
        let game = merge_feed_row(Some(entry(stored)), feed_row(Some(EARLY)));
        assert_eq!(game, GameEntry { is_indexed: false, ..entry(Some(EARLY)) });
    }
}

#[test]
fn dates_that_cannot_be_read_are_compared_as_texts() {
    let game = merge_feed_row(Some(entry(Some("2024-05-15"))), feed_row(Some(EARLY)));
    assert_eq!(game, GameEntry { is_indexed: false, ..entry(Some(EARLY)) });
    let game = merge_feed_row(Some(entry(Some("some day"))), feed_row(Some(EARLY)));
    assert_eq!(game, entry(Some(EARLY)));
}

#[test]
fn no_later_date_keeps_the_index() {
    // The last one is later than noon in UTC, though its text stands in front.
    for stored in [NOON, "2024-05-15T15:00:00+03:00", "2024-05-15T08:00:00-05:00"] {
        let game = merge_feed_row(Some(entry(Some(stored))), feed_row(Some(NOON)));
        assert_eq!(game, entry(Some(NOON)));
    }
    let game = merge_feed_row(Some(entry(Some(NOON))), feed_row(Some(EARLY)));
    assert_eq!(game, entry(Some(EARLY)));
    let game = merge_feed_row(Some(entry(Some(NOON))), feed_row(None));
    assert_eq!(game, entry(None));
}

#[test]
fn years_beyond_four_digits_are_later_too() {
    let far = Moment::new(253402300800, 0).unwrap();
    let row = FeedRow { published: Some(far), ..feed_row(None) };
    let game = merge_feed_row(Some(entry(Some(NOON))), row);
    assert!(!game.is_indexed);
    assert_eq!(game.published_at.as_deref(), Some("+10000-01-01T00:00:00+00:00"));
}

#[test]
fn a_feed_row_once_more_changes_nothing() {
    for stored in [EARLY, "2024-05-15T08:00:00-05:00"] {
        let once = merge_feed_row(Some(entry(Some(stored))), feed_row(Some(NOON)));
        let twice = merge_feed_row(
            Some(merge_feed_row(Some(entry(Some(stored))), feed_row(Some(NOON)))),
            feed_row(Some(NOON)),
        );
        assert_eq!(once, twice);
    }
}

#[test]
fn a_far_feed_row_once_more_changes_nothing() {
    let far = || FeedRow { published: Moment::new(253402300800, 0), ..feed_row(None) };
    let stored = entry(Some("9999-12-31T23:59:59-23:59"));
    let once = merge_feed_row(Some(stored), far());
    let expected = entry(Some("+10000-01-01T00:00:00+00:00"));
    assert_eq!(once, expected);
    assert_eq!(merge_feed_row(Some(once), far()), expected);
}

#[test]
fn the_list_adds_but_never_overwrites() {
    assert_eq!(merge_catalog_row(Some(entry(None)), catalog_row()), entry(None));
    let game = merge_catalog_row(None, catalog_row());
    assert_eq!(game, merge_feed_row(None, feed_row(None)));
}

#[test]
fn metadata_is_entered() {
    let hash = "0123456789ABCDEF0123456789abcdef01234567";
    let metadata = Metadata {
        magnet_link: Some(format!("magnet:?xt=urn:btih:{}", hash)),
        size_bytes: None,
        published_at: Some("2025-01-01T00:00:00Z".to_string()),
        seeders: None,
        leechers: None,
        completed: None,
    };
    let game = apply_metadata(GameEntry { is_indexed: false, ..entry(None) }, &metadata);
    let expected = GameEntry {
        magnet_link: metadata.magnet_link.clone(),
        size_bytes: None,
        published_at: Some("2025-01-01T00:00:00Z".to_string()),
        info_hash: Some(hash.to_lowercase()),
        ..entry(None)
    };
    assert_eq!(game, expected);
    assert!(!needs_fetch(&game, "title"));
    let nothing = Metadata { magnet_link: None, published_at: None, ..metadata };
    let game = apply_metadata(entry(Some(NOON)), &nothing);
    assert_eq!((game.magnet_link, game.info_hash, game.published_at), (None, None, None));
    assert!(game.is_indexed);
}

#[test]
fn only_a_search_for_something_fetches() {
    let game = GameEntry { is_indexed: false, ..entry(None) };
    assert!(needs_fetch(&game, "x"));
    assert!(!needs_fetch(&game, ""));
    assert!(!needs_fetch(&entry(None), "x"));
}
