use fitnab::catalog::{pause_millis, read_catalog, rows_from_links, Crawl, PageReply};
use fitnab::html::PageElement;

#[test]
fn reads_a_page() {
    let page = read_catalog(
        r#"<html><body>
<ul class="lcp_catlist">
  <li><a href="https://site/a-game/">A <b>Game</b></a></li>
  <li><a>No address</a></li>
  <li><a href="https://site/b-game/">B Game</a></li>
</ul>
<ul class="lcp_paginator"><li><a href="?2" title="Next">next</a></li></ul>
<ul><li><a href="https://site/other/">Other</a></li></ul>
</body></html>"#,
    );
    assert!(page.has_next && page.parsed_any);
    assert_eq!(page.rows.len(), 2);
    assert_eq!(page.rows[0].id, "a-game");
    assert_eq!(page.rows[0].title, "A Game");
    assert_eq!(page.rows[0].post_url, "https://site/a-game/");
    assert_eq!(page.rows[1].id, "b-game");
}

#[test]
fn reads_an_empty_page() {
    let page = read_catalog("<ul class='lcp_paginator'><li><a title='Prev'>x</a></li></ul>");
    assert!(!page.has_next && !page.parsed_any && page.rows.is_empty());
}

#[test]
fn rows_of_chosen_links() {
    let links = vec![
        PageElement { texts: vec!["x".to_string()], attribute: None },
        PageElement {
            texts: vec!["a".to_string(), "b".to_string()],
            attribute: Some("s/t/".to_string()),
        },
    ];
    let rows = rows_from_links(&links);
    assert_eq!(rows.len(), 1);
    assert_eq!((rows[0].id.as_str(), rows[0].title.as_str()), ("t", "ab"));
}

#[test]
fn page_addresses() {
    let crawl = Crawl::new();
    assert_eq!(
        crawl.url(),
        "https://fitgirl-repacks.site/all-my-repacks-a-z/?lcp_page0=1"
    );
    assert_eq!(
        Crawl { page: 120 }.url(),
        "https://fitgirl-repacks.site/all-my-repacks-a-z/?lcp_page0=120"
    );
}

#[test]
fn crawl_goes_on_while_there_is_something() {
    let crawl = Crawl { page: 4 };
    let page = |has_next, parsed_any| PageReply::Page { has_next, parsed_any };
    assert_eq!(crawl.advance(page(true, true)), Some(Crawl { page: 5 }));
    assert_eq!(crawl.advance(page(true, false)), Some(Crawl { page: 5 }));
    assert_eq!(crawl.advance(page(false, true)), Some(Crawl { page: 5 }));
    assert_eq!(crawl.advance(page(false, false)), None);
    assert_eq!(crawl.advance(PageReply::Refused), None);
}

#[test]
fn pauses_are_between_one_and_three_seconds() {
    for _ in 0..200 {
        let pause = pause_millis();
        assert!((1000..=3000).contains(&pause));
    }
}
