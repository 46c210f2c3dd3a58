use fitnab::html::PageElement;
use fitnab::post::{describe, find_size, first_plain_size, read_post, size_text, unit_bytes, SizeText};

fn size(number: &str, unit_bytes: u64) -> Option<SizeText> {
    Some(SizeText { number: number.to_string(), unit_bytes })
}

const GIB: u64 = 1024 * 1024 * 1024;

#[test]
fn reads_a_whole_post() {
    let details = read_post(
        r#"<article>
<time class="entry-date" datetime="2024-05-01T10:00:00+03:00">May</time>
<time class="entry-date" datetime="2025-05-01T10:00:00+03:00">later</time>
<div class="entry-content"><p>Original Size: <b>100 GB</b></p><p>Repack Size: <b>from 55/55.1 GB</b></p>
<a href="https://x">x</a><a href="magnet:?xt=urn:btih:1">m</a><a href="magnet:?xt=urn:btih:2">m</a></div>
</article>"#,
    );
    assert_eq!(details.magnet_link.as_deref(), Some("magnet:?xt=urn:btih:1"));
    assert_eq!(details.published_at.as_deref(), Some("2024-05-01T10:00:00+03:00"));
    assert_eq!(details.size, size("55.1", GIB));
    let metadata = details.into_metadata(Some(5));
    assert_eq!(metadata.magnet_link.as_deref(), Some("magnet:?xt=urn:btih:1"));
    assert_eq!(metadata.published_at.as_deref(), Some("2024-05-01T10:00:00+03:00"));
    assert_eq!(metadata.size_bytes, Some(5));
    assert_eq!((metadata.seeders, metadata.leechers, metadata.completed), (None, None, None));
}

#[test]
fn reads_a_post_with_nothing_in_it() {
    let details = read_post("");
    assert_eq!((details.magnet_link, details.published_at, details.size), (None, None, None));
}

#[test]
fn the_texts_of_a_body_are_put_apart() {
    let body = PageElement {
        texts: vec!["Repack Size:".to_string(), "3 GB".to_string()],
        attribute: None,
    };
    let details = describe(&Vec::new(), &Vec::new(), &vec![body]);
    assert_eq!(details.size, size("3", GIB));
}

#[test]
fn the_repack_size_comes_first() {
    assert_eq!(find_size("Size: 1 MB, Repack Size: 2.5 GB"), size("2.5", GIB));
    assert_eq!(find_size("REPACK  size : FROM 700 mb"), size("700", 1024 * 1024));
}

#[test]
fn the_original_size_does_not_count() {
    assert_eq!(find_size("Original Size: 100 GB"), None);
    assert_eq!(find_size("Original Size: 100 GB Size: 4 TB"), size("4", 1 << 40));
    assert_eq!(find_size("Download Size: 12 KB"), size("12", 1024));
    assert_eq!(find_size("nothing at all"), None);
}

#[test]
fn an_odd_unit_counts_as_bytes() {
    assert_eq!(find_size("Repack Size: 9 \u{212A}B"), size("9", 1));
    assert_eq!(unit_bytes("XB"), 1);
    assert_eq!(unit_bytes(""), 1);
    assert_eq!(unit_bytes("GiB"), 1);
}

#[test]
fn units_in_either_case() {
    assert_eq!(unit_bytes("KB"), 1024);
    assert_eq!(unit_bytes("mB"), 1024 * 1024);
    assert_eq!(unit_bytes("Gb"), GIB);
    assert_eq!(unit_bytes("tb"), 1024 * GIB);
}

#[test]
fn sizes_from_their_parts() {
    assert_eq!(Some(size_text("1/2/3.5", "GB")), size("3.5", GIB));
    assert_eq!(Some(size_text("7/", "GB")), size("", GIB));
    let group = |text: &str| Some(text.to_string());
    let matches = vec![
        vec![group("Original Size 1 GB"), group("Original "), group("1"), group("GB")],
        vec![group("Size 2/3 MB"), None, group("2/3"), group("MB")],
        vec![group("Size 4 MB"), None, group("4"), group("MB")],
    ];
    assert_eq!(first_plain_size(&matches), size("3", 1024 * 1024));
    assert_eq!(first_plain_size(&Vec::new()), None);
}
