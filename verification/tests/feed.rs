use fitnab::feed::{batch_of, read_feed, read_items, FeedEvent, FeedItem, FeedState};
use fitnab::moment::Moment;
use fitnab::provider::{merge_feed_row, GameEntry};

fn item(title: &str, link: &str, pub_date: &str) -> FeedItem {
    FeedItem {
        title: title.to_string(),
        link: link.to_string(),
        pub_date: pub_date.to_string(),
    }
}

#[test]
fn reads_a_feed() {
    let batch = read_feed(
        r#"<?xml version="1.0"?>
<rss><channel>
  <title>Repacks</title>
  <item>
    <title>One &amp; Two</title>
    <link>https://site/one-two/</link>
    <pubDate>Wed, 18 Feb 2015 23:16:09 +0000</pubDate>
    <category>x</category>
  </item>
  <item>
    <title><![CDATA[Three <3]]></title>
    <link>https://site/three/</link>
    <pubDate>Tue, 17 Feb 2015 23:16:09 +0000</pubDate>
  </item>
  <item>
    <title>Four</title>
    <link>https://site/four</link>
    <pubDate>some day</pubDate>
  </item>
</channel></rss>"#,
    );
    assert_eq!(batch.rows.len(), 3);
    assert_eq!(batch.rows[0].id, "one-two");
    assert_eq!(batch.rows[0].title, "One & Two");
    assert_eq!(batch.rows[0].post_url, "https://site/one-two/");
    assert_eq!(batch.rows[0].published, Moment::from_rfc3339("2015-02-18T23:16:09+00:00"));
    assert_eq!(batch.rows[1].title, "Three <3");
    assert_eq!(batch.rows[2].id, "four");
    assert_eq!(batch.rows[2].published, None);
    assert_eq!(batch.oldest, Moment::from_rfc3339("2015-02-17T23:16:09Z"));
}

#[test]
fn items_without_title_or_link_are_left_out() {
    let items = read_items(
        "<r><item><title>a</title></item><item><link>b</link></item><item><title>c</title><link>d</link></item></r>",
    );
    assert_eq!(items, vec![item("c", "d", "")]);
}

#[test]
fn texts_are_trimmed_and_put_together() {
    let items = read_items("<r><item><title> a <!-- x --> b </title><link>\n d \n</link></item></r>");
    assert_eq!(items, vec![item("ab", "d", "")]);
}

#[test]
fn texts_with_unknown_entities_add_nothing() {
    let items = read_items("<r><item><title>a<b/>&nope;</title><link>d</link></item></r>");
    assert_eq!(items, vec![item("a", "d", "")]);
}

#[test]
fn a_breach_ends_the_feed() {
    let items = read_items(
        "<r><item><title>a</title><link>b</link></item></x><item><title>c</title><link>d</link></item></r>",
    );
    assert_eq!(items, vec![item("a", "b", "")]);
    assert_eq!(read_items("<r><item><title>a</title><link>b</link>"), Vec::new());
    assert_eq!(read_items("<"), Vec::new());
    assert_eq!(read_items(""), Vec::new());
}

#[test]
fn an_empty_feed_has_no_oldest_date() {
    let batch = read_feed("<rss></rss>");
    assert_eq!(batch.rows, Vec::new());
    assert_eq!(batch.oldest, None);
    let batch = batch_of(&vec![item("a", "b", "never")]);
    assert_eq!(batch.rows.len(), 1);
    assert_eq!(batch.oldest, None);
}

#[test]
fn events_step_by_step() {
    let mut state = FeedState::new();
    let start = |name: &str| FeedEvent::Start(name.to_string());
    let end = |name: &str| FeedEvent::End(name.to_string());
    let text = |text: &str| FeedEvent::Text(text.to_string());
    state.step(&start("title"));
    state.step(&text("outside"));
    assert!(!state.in_item && state.tag.is_empty() && state.current.title.is_empty());
    state.step(&start("item"));
    assert!(state.in_item);
    assert_eq!(state.tag, "item");
    state.step(&text("no place"));
    state.step(&start("title"));
    state.step(&text("a"));
    state.step(&FeedEvent::CData("b".to_string()));
    state.step(&FeedEvent::Other);
    state.step(&FeedEvent::Unreadable);
    assert_eq!(state.current.title, "ab");
    state.step(&end("title"));
    assert_eq!(state.tag, "");
    state.step(&text("no place"));
    state.step(&start("link"));
    state.step(&text("l"));
    state.step(&end("link"));
    state.step(&start("pubDate"));
    state.step(&text("d"));
    state.step(&end("pubDate"));
    state.step(&end("item"));
    assert!(!state.in_item);
    assert_eq!(state.items, vec![item("ab", "l", "d")]);
    state.step(&start("item"));
    assert_eq!(state.current, item("", "", ""));
    state.step(&end("item"));
    assert_eq!(state.items.len(), 1);
}

#[test]
fn a_later_item_resets_a_fetched_game() {
    let batch = read_feed(
        "<rss><item><title>A</title><link>https://x/a/</link><pubDate>Wed, 15 May 2024 12:00:00 +0000</pubDate></item></rss>",
    );
    let stored = GameEntry {
        id: "a".to_string(),
        provider: "p".to_string(),
        title: "A".to_string(),
        post_url: "https://x/a/".to_string(),
        magnet_link: None,
        torrent_blob: None,
        is_indexed: true,
        size_bytes: None,
        published_at: Some("2024-05-15T13:00:00+03:00".to_string()),
        info_hash: None,
    };
    let mut stored = Some(stored);
    for row in batch.rows {
        assert_eq!(row.id, "a");
        stored = Some(merge_feed_row(stored, row));
    }
    let stored = stored.unwrap();
    assert!(!stored.is_indexed);
    assert_eq!(stored.published_at.as_deref(), Some("2024-05-15T12:00:00+00:00"));
}

#[test]
fn the_oldest_of_several_dates() {
    let batch = batch_of(&vec![
        item("a", "x/a", "Wed, 18 Feb 2015 23:16:09 +0000"),
        item("b", "x/b", "Wed, 18 Feb 2015 23:16:09 +0100"),
        item("c", "x/c", "Wed, 18 Feb 2015 23:16:09 -0100"),
    ]);
    assert_eq!(batch.oldest, Moment::from_rfc3339("2015-02-18T22:16:09Z"));
    assert_eq!(batch.rows[1].published, Moment::from_rfc3339("2015-02-18T22:16:09+00:00"));
}
