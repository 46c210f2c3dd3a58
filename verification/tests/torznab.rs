use fitnab::provider::{GameEntry, Metadata};
use fitnab::scrape::ScrapeResult;
use fitnab::torznab::{
    caps_reply, feed_date, game_to_store, probe, probe_answered, probe_fetched, render_item, request_kind,
    search_reply, store_error_reply, title_pattern, unknown_reply, Probe, RequestKind, SearchHit,
};

const HASH: &str = "0123456789abcdef0123456789abcdef01234567";

fn game(is_indexed: bool, info_hash: Option<&str>) -> GameEntry {
    GameEntry {
        id: "a-game".to_string(),
        provider: "p".to_string(),
        title: "Tom & <Jerry>".to_string(),
        post_url: "https://site/?a='1'&b=\"2\"".to_string(),
        magnet_link: None,
        torrent_blob: None,
        is_indexed,
        size_bytes: Some(-3),
        published_at: Some("2015-02-18T23:16:09+02:00".to_string()),
        info_hash: info_hash.map(|s| s.to_string()),
    }
}

fn metadata(hash: &str) -> Metadata {
    Metadata {
        magnet_link: Some(format!("magnet:?xt=urn:btih:{}", hash)),
        size_bytes: Some(9),
        published_at: None,
        seeders: None,
        leechers: None,
        completed: None,
    }
}

#[test]
fn kinds_of_requests() {
    assert_eq!(request_kind(Some("caps")), RequestKind::Caps);
    assert_eq!(request_kind(Some("search")), RequestKind::Search);
    assert_eq!(request_kind(Some("")), RequestKind::Search);
    assert_eq!(request_kind(None), RequestKind::Search);
    assert_eq!(request_kind(Some("tvsearch")), RequestKind::Unknown);
    assert_eq!(request_kind(Some("CAPS")), RequestKind::Unknown);
}

#[test]
fn patterns_of_titles() {
    assert_eq!(title_pattern("dark souls"), "%dark souls%");
    assert_eq!(title_pattern(""), "%%");
}

#[test]
fn fixed_answers() {
    let caps = caps_reply();
    assert_eq!(caps.content_type, "application/xml");
    assert_eq!(
        caps.body,
        r#"<?xml version="1.0" encoding="UTF-8"?>
<caps>
  <server version="1.0" title="Fitnab" />
  <searching>
    <search available="yes" supportedParams="q" />
    <tv-search available="no" />
    <movie-search available="no" />
  </searching>
  <categories>
    <category id="4000" name="PC">
      <subcat id="4050" name="PC/Games" />
    </category>
  </categories>
</caps>"#
    );
    let unknown = unknown_reply();
    assert_eq!((unknown.content_type, unknown.body.as_str()), ("application/xml", "<error>Unknown type</error>"));
    let error = store_error_reply();
    assert_eq!((error.content_type, error.body.as_str()), ("application/xml", "<error>DB Error</error>"));
}

#[test]
fn an_item_of_a_feed() {
    let hit = SearchHit {
        game: game(true, None),
        health: ScrapeResult { seeders: 12, leechers: 0 },
    };
    assert_eq!(
        render_item("h&h:3000", &hit),
        r#"
        <item>
            <title>Tom &amp; &lt;Jerry&gt;</title>
            <guid>a-game</guid>
            <link>https://site/?a=&apos;1&apos;&amp;b=&quot;2&quot;</link>
            <pubDate>Wed, 18 Feb 2015 23:16:09 +0200</pubDate>
            <size>-3</size>
            <category>4000</category>
            <category>4050</category>
            <torznab:attr name="category" value="4000" />
            <torznab:attr name="category" value="4050" />
            <torznab:attr name="seeders" value="12" />
            <torznab:attr name="peers" value="0" />
            <enclosure url="http://h&amp;h:3000/download/a-game" length="-3" type="application/x-bittorrent" />
        </item>"#
    );
}

#[test]
fn unknown_sizes_and_dates() {
    let hit = SearchHit {
        game: GameEntry { size_bytes: None, published_at: None, ..game(true, None) },
        health: ScrapeResult { seeders: 0, leechers: 0 },
    };
    let item = render_item("h", &hit);
    assert!(item.contains("<size>1073741824</size>"));
    assert!(item.contains("length=\"1073741824\""));
    assert!(item.contains("<pubDate>Mon, 1 Jan 2024 00:00:00 +0000</pubDate>"));
    assert_eq!(feed_date(&Some("soon".to_string())), "Mon, 01 Jan 2024 00:00:00 +0000");
}

#[test]
fn a_whole_feed() {
    let empty = search_reply("host:3000", &Vec::new());
    assert_eq!(empty.content_type, "application/rss+xml");
    assert_eq!(
        empty.body,
        r#"<?xml version="1.0" encoding="UTF-8"?>
<rss version="2.0" xmlns:torznab="http://torznab.com/schemas/2015/feed">
    <channel>
        <title>Fitnab</title>
        <description>FitGirl Torznab Indexer</description>
        <link>http://host:3000/</link>
    </channel>
</rss>"#
    );
    let hit = |seeders| SearchHit {
        game: game(true, None),
        health: ScrapeResult { seeders, leechers: 0 },
    };
    let both = search_reply("host:3000", &vec![hit(1), hit(2)]);
    let items = render_item("host:3000", &hit(1)) + &render_item("host:3000", &hit(2));
    assert_eq!(both.body, empty.body.replace("</link>\n", &format!("</link>{}\n", items)));
}

#[test]
fn a_search_fetches_first() {
    match probe(game(false, Some(HASH)), "tom") {
        Probe::Fetch { game: asked } => assert_eq!(asked, game(false, Some(HASH))),
        _ => panic!("expected a fetch"),
    }
}

#[test]
fn browsing_does_not_fetch() {
    assert!(matches!(probe(game(false, None), ""), Probe::Show { .. }));
    assert!(matches!(probe(game(false, Some(HASH)), ""), Probe::Ask { .. }));
}

#[test]
fn trackers_are_asked_for_the_hash() {
    match probe(game(true, Some(HASH)), "tom") {
        Probe::Ask { info_hash, .. } => {
            assert_eq!(info_hash[..3], [0x01, 0x23, 0x45]);
        }
        _ => panic!("expected a question"),
    }
    let shown = probe(game(true, Some("abcdefghijklmnopqrstuvwxyz234567")), "tom");
    match &shown {
        Probe::Show { hit } => {
            assert_eq!(hit.health, ScrapeResult { seeders: 0, leechers: 0 });
        }
        _ => panic!("expected a hit"),
    }
    assert_eq!(shown.game().id, "a-game");
}

#[test]
fn what_was_fetched_is_entered() {
    let next = probe_fetched(game(false, None), Some(metadata(HASH)));
    assert!(matches!(next, Probe::Ask { .. }));
    assert!(next.game().is_indexed);
    assert_eq!(next.game().info_hash.as_deref(), Some(HASH));
    assert_eq!(next.game().size_bytes, Some(9));
    let next = probe_fetched(game(false, None), None);
    assert_eq!(next.game(), &game(false, None));
    assert!(matches!(next, Probe::Show { .. }));
}

#[test]
fn what_was_fetched_is_stored() {
    let before = GameEntry { torrent_blob: Some(vec![1, 2]), ..game(false, None) };
    let stored = game_to_store(&before, &Some(metadata(HASH))).unwrap();
    assert_eq!(stored.torrent_blob, Some(vec![1, 2]));
    assert_eq!(probe_fetched(before, Some(metadata(HASH))).game(), &stored);
    assert_eq!(game_to_store(&game(false, None), &None), None);
}

#[test]
fn a_fetched_hash_in_capitals_is_asked_for() {
    match probe_fetched(game(false, None), Some(metadata(&HASH.to_uppercase()))) {
        Probe::Ask { info_hash, game } => {
            assert_eq!(info_hash[4..8], [0x89, 0xab, 0xcd, 0xef]);
            assert_eq!(game.info_hash.as_deref(), Some(HASH));
        }
        _ => panic!("expected a question"),
    }
}

#[test]
fn the_best_answer_is_shown() {
    let replies = vec![
        ScrapeResult { seeders: 1, leechers: 9 },
        ScrapeResult { seeders: 4, leechers: 2 },
    ];
    let hit = probe_answered(game(true, Some(HASH)), &replies);
    assert_eq!(hit.health, ScrapeResult { seeders: 4, leechers: 2 });
    assert_eq!(hit.game, game(true, Some(HASH)));
}
