use fitnab::magnet::{extract_info_hash, hash_bytes};

const HEX: &str = "0123456789ABCDEF0123456789abcdef01234567";

#[test]
fn finds_the_hash_of_a_link() {
    let link = format!("magnet:?xt=urn:btih:{}&dn=x", HEX);
    assert_eq!(extract_info_hash(&link), Some(HEX.to_lowercase()));
}

#[test]
fn finds_a_short_hash() {
    let link = "magnet:?xt=urn:btih:ABCDEFGHIJKLMNOPQRSTUVWXYZ234567&dn=x";
    assert_eq!(extract_info_hash(link), Some("abcdefghijklmnopqrstuvwxyz234567".to_string()));
}

#[test]
fn cuts_a_long_hash() {
    let link = format!("btih:{}ffff", HEX);
    assert_eq!(extract_info_hash(&link), Some(HEX.to_lowercase()));
    let link = format!("btih:{}", &HEX[..36]);
    assert_eq!(extract_info_hash(&link), Some(HEX[..36].to_lowercase()));
}

#[test]
fn passes_over_hashes_that_are_too_short() {
    assert_eq!(extract_info_hash("magnet:?xt=urn:btih:abc"), None);
    assert_eq!(extract_info_hash(""), None);
    let link = format!("btih:abc btih:{}", HEX);
    assert_eq!(extract_info_hash(&link), Some(HEX.to_lowercase()));
}

#[test]
fn takes_the_first_of_two_hashes() {
    let link = format!("btih:btih:{}&btih:{}", HEX, "f".repeat(40));
    assert_eq!(extract_info_hash(&link), Some(HEX.to_lowercase()));
}

#[test]
fn bytes_of_a_hash() {
    let bytes = hash_bytes(HEX).unwrap();
    assert_eq!(bytes[..4], [0x01, 0x23, 0x45, 0x67]);
    assert_eq!(bytes[4..8], [0x89, 0xAB, 0xCD, 0xEF]);
    assert_eq!(bytes[19], 0x67);
}

#[test]
fn no_bytes_of_other_hashes() {
    assert_eq!(hash_bytes("abcdefghijklmnopqrstuvwxyz234567"), None);
    assert_eq!(hash_bytes(&HEX[..38]), None);
    assert_eq!(hash_bytes(&HEX[..39]), None);
    assert_eq!(hash_bytes(&"g".repeat(40)), None);
    assert_eq!(hash_bytes(&"é".repeat(20)), None);
    assert_eq!(hash_bytes(""), None);
}
