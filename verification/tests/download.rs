use fitnab::download::{begin, finish, DownloadReply, DownloadStep};
use fitnab::moment::Moment;
use fitnab::post::read_post;
use fitnab::provider::{merge_feed_row, FeedRow, GameEntry, Metadata};

fn stored(magnet_link: Option<&str>, is_indexed: bool) -> GameEntry {
    GameEntry {
        id: "id".to_string(),
        provider: "p".to_string(),
        title: "Title".to_string(),
        post_url: "url".to_string(),
        magnet_link: magnet_link.map(|s| s.to_string()),
        torrent_blob: None,
        is_indexed,
        size_bytes: None,
        published_at: Some("2024-05-15T13:00:00+03:00".to_string()),
        info_hash: None,
    }
}

fn fetched(magnet_link: Option<&str>) -> Metadata {
    Metadata {
        magnet_link: magnet_link.map(|s| s.to_string()),
        size_bytes: Some(7),
        published_at: Some("2025-01-01T00:00:00Z".to_string()),
        seeders: None,
        leechers: None,
        completed: None,
    }
}

#[test]
fn games_that_are_not_there() {
    match begin(None) {
        DownloadStep::Answer { reply } => {
            assert_eq!(reply, DownloadReply::GameNotFound);
            assert_eq!((reply.status(), reply.message()), (404, "Game not found"));
        }
        _ => panic!("expected an answer"),
    }
}

#[test]
fn games_that_were_fetched() {
    match begin(Some(stored(Some("m"), true))) {
        DownloadStep::Answer { reply } => {
            assert_eq!(reply, DownloadReply::Redirect("m".to_string()));
            assert_eq!((reply.status(), reply.message()), (307, ""));
        }
        _ => panic!("expected an answer"),
    }
}

#[test]
fn games_that_are_to_be_fetched() {
    for (magnet, indexed) in [(Some("m"), false), (None, true), (None, false)] {
        match begin(Some(stored(magnet, indexed))) {
            DownloadStep::Fetch { game } => assert_eq!(game, stored(magnet, indexed)),
            _ => panic!("expected a fetch"),
        }
    }
}

#[test]
fn a_fetch_with_a_magnet_link() {
    let (reply, entry) = finish(stored(None, false), Some(fetched(Some("magnet:?x"))));
    assert_eq!(reply, DownloadReply::Redirect("magnet:?x".to_string()));
    let entry = entry.unwrap();
    assert!(entry.is_indexed);
    assert_eq!(entry.size_bytes, Some(7));
    match begin(Some(entry)) {
        DownloadStep::Answer { reply: again } => assert_eq!(again, reply),
        _ => panic!("expected an answer"),
    }
}

#[test]
fn a_fetch_without_a_magnet_link() {
    let (reply, entry) = finish(stored(None, false), Some(fetched(None)));
    assert_eq!(reply, DownloadReply::MagnetNotFound);
    assert_eq!((reply.status(), reply.message()), (404, "Magnet link not found on FitGirl page"));
    assert_eq!(entry, None);
}

#[test]
fn a_fetch_that_failed() {
    let (reply, entry) = finish(stored(None, false), None);
    assert_eq!(reply, DownloadReply::FetchFailed);
    assert_eq!((reply.status(), reply.message()), (500, "Failed to scrape FitGirl"));
    assert_eq!(entry, None);
}

fn feed_row(date: &str) -> FeedRow {
    FeedRow {
        id: "id".to_string(),
        title: "Title".to_string(),
        post_url: "url".to_string(),
        published: Moment::from_rfc3339(date),
    }
}

#[test]
fn an_updated_game_is_fetched_again() {
    let row = feed_row("2024-05-15T12:00:00+00:00");
    let game = merge_feed_row(Some(stored(Some("m"), true)), row);
    assert!(matches!(begin(Some(game)), DownloadStep::Fetch { .. }));
    let row = feed_row("2024-05-15T10:00:00+00:00");
    let game = merge_feed_row(Some(stored(Some("m"), true)), row);
    assert!(matches!(begin(Some(game)), DownloadStep::Answer { .. }));
}

#[test]
fn redirects_go_to_magnet_links() {
    let page = "<a href='https://x/?magnet:?'>a</a><a href='MAGNET:?b'>b</a><a href='magnet:?c'>c</a>";
    let (reply, _) = finish(stored(None, false), Some(read_post(page).into_metadata(None)));
    assert_eq!(reply, DownloadReply::Redirect("magnet:?c".to_string()));
    let page = "<svg><a xlink:href='magnet:?d'>d</a><a xlink:href='x' href='magnet:?e'>e</a></svg>";
    let (reply, _) = finish(stored(None, false), Some(read_post(page).into_metadata(None)));
    assert_eq!(reply, DownloadReply::Redirect("magnet:?e".to_string()));
}
