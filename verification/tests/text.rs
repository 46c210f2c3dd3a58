use fitnab::text::{
    append_decimal, append_signed, chars_of, is_after, join, last_part, lower, same_text, slug,
};

#[test]
fn slug_is_the_last_segment() {
    assert_eq!(slug("https://fitgirl-repacks.site/some-game/"), "some-game");
    assert_eq!(slug("https://fitgirl-repacks.site/some-game"), "some-game");
    assert_eq!(slug("https://fitgirl-repacks.site/some-game///"), "some-game");
}

#[test]
fn slug_of_odd_addresses() {
    assert_eq!(slug(""), "");
    assert_eq!(slug("///"), "");
    assert_eq!(slug("plain"), "plain");
    assert_eq!(slug("/é/ü"), "ü");
}

#[test]
fn slug_holds_no_slash() {
    assert!(!slug("a/b//c/d/").contains('/'));
}

#[test]
fn last_part_of_a_range() {
    assert_eq!(last_part("55/55.1", '/'), "55.1");
    assert_eq!(last_part("55.1", '/'), "55.1");
    assert_eq!(last_part("55/", '/'), "");
}

#[test]
fn join_puts_separators_between() {
    let parts = vec!["a".to_string(), "".to_string(), "c".to_string()];
    assert_eq!(join(&parts, " "), "a  c");
    assert_eq!(join(&parts, ""), "ac");
    assert_eq!(join(&Vec::new(), " "), "");
}

#[test]
fn lower_touches_ascii_letters() {
    assert_eq!(lower("AbZ09-"), "abz09-");
    assert_eq!(lower("@[`{"), "@[`{");
}

#[test]
fn decimals() {
    let mut out = String::from("n=");
    append_decimal(&mut out, 0);
    out.push(' ');
    append_decimal(&mut out, 1907);
    out.push(' ');
    append_decimal(&mut out, u64::MAX);
    assert_eq!(out, "n=0 1907 18446744073709551615");
}

#[test]
fn signed_decimals() {
    let mut out = String::new();
    append_signed(&mut out, i64::MIN);
    out.push(' ');
    append_signed(&mut out, -1);
    out.push(' ');
    append_signed(&mut out, i64::MAX);
    assert_eq!(out, format!("{} {} {}", i64::MIN, -1, i64::MAX));
}

#[test]
fn text_order_matches_byte_order() {
    let texts = ["", "2024-01-01", "2024-01-01T00", "2024-02-01", "a", "é", "中", "😀"];
    for a in texts {
        for b in texts {
            assert_eq!(is_after(a, b), a.as_bytes() > b.as_bytes(), "{} {}", a, b);
        }
    }
}

#[test]
fn text_equality() {
    assert!(same_text("item", "item"));
    assert!(!same_text("item", "items"));
    assert!(!same_text("item", "Item"));
}

#[test]
fn characters_in_order() {
    assert_eq!(chars_of("aé中"), vec!['a', 'é', '中']);
}
