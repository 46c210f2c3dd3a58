//! Info hashes: finding one in a magnet link, and the bytes that trackers know it by.
use vstd::prelude::*;

#[allow(unused_imports)]
use crate::patterns::{alnum_prefix, captures, first_hash, is_alnum, INFO_HASH};
#[allow(unused_imports)]
use crate::text::{lower, lower_char, lowered, opt_text};

verus! {

/// Whether a link is a magnet link.
pub open spec fn is_magnet_link(link: Seq<char>) -> bool {
    link.len() >= 8 && link.take(8) == "magnet:?"@
}

/// The info hash of a magnet link, in lower case.
pub open spec fn info_hash_of(magnet: Seq<char>) -> Option<Seq<char>> {
    match first_hash(magnet) {
        Some(hash) => Some(lowered(hash)),
        None => None,
    }
}

/// Finds the info hash in a magnet link: 40 hexadecimal digits, or 32 letters and digits of
/// base 32. It comes back in lower case.
pub fn extract_info_hash(magnet: &str) -> (res: Option<String>)
    ensures
        opt_text(res) == info_hash_of(magnet@),
{
    match captures(INFO_HASH, magnet) {
        Some(groups) => match &groups[1] {
            Some(hash) => Some(lower(hash.as_str())),
            None => None,
        },
        None => None,
    }
}

/// The value of a hexadecimal digit, in either case.
pub open spec fn hex_value(c: char) -> Option<int> {
    if '0' <= c && c <= '9' {
        Some(c as u32 - '0' as u32)
    } else if 'a' <= c && c <= 'f' {
        Some(c as u32 - 'a' as u32 + 10)
    } else if 'A' <= c && c <= 'F' {
        Some(c as u32 - 'A' as u32 + 10)
    } else {
        None
    }
}

/// Whether `s` is made of pairs of hexadecimal digits.
pub open spec fn is_hex(s: Seq<char>) -> bool {
    s.len() % 2 == 0 && forall|i: int| 0 <= i < s.len() ==> hex_value(#[trigger] s[i]) is Some
}

/// The bytes that the pairs of hexadecimal digits in `s` stand for.
pub open spec fn hex_bytes(s: Seq<char>) -> Seq<u8> {
    Seq::new(
        s.len() / 2,
        |i: int| (16 * hex_value(s[2 * i])->0 + hex_value(s[2 * i + 1])->0) as u8,
    )
}

/// `hex::decode`: the bytes that pairs of hexadecimal digits stand for, or nothing where the
/// text holds anything else.
#[verifier::external_body]
fn decode_hex(text: &str) -> (res: Option<Vec<u8>>)
    ensures
        match res {
            Some(bytes) => is_hex(text@) && bytes@ == hex_bytes(text@),
            None => !is_hex(text@),
        },
{
    hex::decode(text).ok()
}

/// The bytes of an info hash of 40 hexadecimal digits.
pub open spec fn hash_bytes_of(hash: Seq<char>) -> Option<Seq<u8>> {
    if is_hex(hash) && hash.len() == 40 {
        Some(hex_bytes(hash))
    } else {
        None
    }
}

/// The 20 bytes that trackers know a hash by; nothing for a hash of another form.
pub fn hash_bytes(hash: &str) -> (res: Option<[u8; 20]>)
    ensures
        match res {
            Some(bytes) => hash_bytes_of(hash@) == Some(bytes@),
            None => hash_bytes_of(hash@) is None,
        },
{
    let bytes = match decode_hex(hash) {
        Some(bytes) => bytes,
        None => return None,
    };
    if bytes.len() != 20 {
        return None;
    }
    let mut res: [u8; 20] = [0; 20];
    let mut i: usize = 0;
    while i < 20
        invariant
            i <= 20,
            bytes@.len() == 20,
            forall|k: int| 0 <= k < i ==> res@[k] == bytes@[k],
        decreases 20 - i,
    {
        res[i] = bytes[i];
        i = i + 1;
    }
    assert(res@ =~= bytes@);
    Some(res)
}

proof fn lemma_prefix_shape(s: Seq<char>, limit: nat)
    ensures
        alnum_prefix(s, limit).len() <= limit,
        forall|i: int|
            0 <= i < alnum_prefix(s, limit).len() ==> is_alnum(
                #[trigger] alnum_prefix(s, limit)[i],
            ),
    decreases limit,
{
    if limit > 0 && s.len() > 0 && is_alnum(s[0]) {
        lemma_prefix_shape(s.drop_first(), (limit - 1) as nat);
    }
}

proof fn lemma_prefix_run(run: Seq<char>, rest: Seq<char>, limit: nat)
    requires
        run.len() <= limit,
        forall|i: int| 0 <= i < run.len() ==> is_alnum(#[trigger] run[i]),
        run.len() == limit || rest.len() == 0 || !is_alnum(rest[0]),
    ensures
        alnum_prefix(run + rest, limit) == run,
    decreases run.len(),
{
    if run.len() == 0 {
        assert(run + rest =~= rest);
        assert(alnum_prefix(run + rest, limit) =~= run);
    } else {
        assert((run + rest).drop_first() =~= run.drop_first() + rest);
        assert forall|i: int| 0 <= i < run.drop_first().len() implies is_alnum(
            #[trigger] run.drop_first()[i],
        ) by {
            assert(run.drop_first()[i] == run[i + 1]);
        }
        lemma_prefix_run(run.drop_first(), rest, (limit - 1) as nat);
        assert(seq![run[0]] + run.drop_first() =~= run);
    }
}

proof fn lemma_first_hash_shape(s: Seq<char>)
    ensures
        first_hash(s) matches Some(hash) ==> 32 <= hash.len() <= 40 && forall|i: int|
            0 <= i < hash.len() ==> is_alnum(#[trigger] hash[i]),
    decreases s.len(),
{
    if s.len() >= 5 {
        lemma_prefix_shape(s.skip(5), 40);
        lemma_first_hash_shape(s.drop_first());
    }
}

/// An info hash has 32 to 40 characters, each a digit or a lower-case letter.
pub proof fn info_hash_shape(magnet: Seq<char>)
    ensures
        info_hash_of(magnet) matches Some(hash) ==> 32 <= hash.len() <= 40 && forall|i: int|
            0 <= i < hash.len() ==> is_alnum(#[trigger] hash[i]) && !('A' <= hash[i] && hash[i]
                <= 'Z'),
{
    lemma_first_hash_shape(magnet);
    if let Some(hash) = first_hash(magnet) {
        assert forall|i: int| 0 <= i < hash.len() implies is_alnum(#[trigger] lowered(hash)[i])
            && !('A' <= lowered(hash)[i] && lowered(hash)[i] <= 'Z') by {
            assert(is_alnum(hash[i]));
        }
    }
}

/// The hash of a magnet link is found, whether it is one of 40 letters and digits or a shorter
/// one that a separator or the end of the link follows.
pub proof fn magnet_link_has_its_hash(hash: Seq<char>, rest: Seq<char>)
    requires
        32 <= hash.len() <= 40,
        forall|i: int| 0 <= i < hash.len() ==> is_alnum(#[trigger] hash[i]),
        hash.len() == 40 || rest.len() == 0 || !is_alnum(rest[0]),
    ensures
        info_hash_of("magnet:?xt=urn:btih:"@ + hash + rest) == Some(lowered(hash)),
{
    let link = "magnet:?xt=urn:btih:"@ + hash + rest;
    reveal_strlit("magnet:?xt=urn:btih:");
    reveal_strlit("btih:");
    let tail = link.skip(15);
    assert(tail.take(5) =~= "btih:"@);
    assert(tail.skip(5) =~= hash + rest);
    lemma_prefix_run(hash, rest, 40);
    assert(first_hash(tail) == Some(hash));
    lemma_skip_front(link, 15);
}

/// Where none of the first `n` places starts a `btih:`, the search begins behind them.
proof fn lemma_skip_front(s: Seq<char>, n: nat)
    requires
        n <= s.len(),
        forall|i: int| 0 <= i < n ==> s[i] != 'b' || s.len() < i + 5,
    ensures
        first_hash(s) == first_hash(s.skip(n as int)),
    decreases n,
{
    if n == 0 {
        assert(s.skip(0) =~= s);
    } else {
        if s.len() >= 5 {
            reveal_strlit("btih:");
            assert(s.take(5)[0] == s[0]);
            assert("btih:"@[0] == 'b');
            assert forall|i: int| 0 <= i < n - 1 implies s.drop_first()[i] != 'b'
                || s.drop_first().len() < i + 5 by {
                assert(s[i + 1] == s.drop_first()[i]);
            }
            lemma_skip_front(s.drop_first(), (n - 1) as nat);
            assert(s.drop_first().skip(n - 1) =~= s.skip(n as int));
        }
    }
}

/// Upper and lower case make no difference to the bytes that trackers know a hash by.
pub proof fn case_does_not_change_the_bytes(hash: Seq<char>)
    ensures
        hash_bytes_of(lowered(hash)) == hash_bytes_of(hash),
{
    let low = lowered(hash);
    assert forall|i: int| 0 <= i < hash.len() implies hex_value(#[trigger] low[i]) == hex_value(
        hash[i],
    ) by {
        assert(low[i] == lower_char(hash[i]));
    }
    if is_hex(hash) {
        assert forall|i: int| 0 <= i < low.len() implies hex_value(#[trigger] low[i]) is Some by {
            assert(hex_value(hash[i]) is Some);
        }
        assert(hex_bytes(low) =~= hex_bytes(hash));
    }
    if is_hex(low) {
        assert forall|i: int| 0 <= i < hash.len() implies hex_value(#[trigger] hash[i])
            is Some by {
            assert(hex_value(low[i]) is Some);
        }
    }
}

/// A hash of 40 hexadecimal digits is one that trackers know; one of another length is not.
pub proof fn trackers_know_long_hashes(hash: Seq<char>)
    ensures
        hash.len() != 40 ==> hash_bytes_of(hash) is None,
        hash.len() == 40 && is_hex(hash) ==> hash_bytes_of(hash) is Some && hash_bytes_of(
            hash,
        )->0.len() == 20,
{
}

/// The hexadecimal digits of a byte.
pub open spec fn byte_digits(b: u8) -> Seq<char> {
    seq!["0123456789abcdef"@[b as int / 16], "0123456789abcdef"@[b as int % 16]]
}

/// Bytes in hexadecimal digits.
pub open spec fn hex_text(bytes: Seq<u8>) -> Seq<char> {
    Seq::new(2 * bytes.len(), |i: int| byte_digits(bytes[i / 2])[i % 2])
}

/// Bytes written in hexadecimal digits are read back as they were.
pub proof fn hex_bytes_read_back(bytes: Seq<u8>)
    ensures
        is_hex(hex_text(bytes)),
        hex_bytes(hex_text(bytes)) == bytes,
{
    reveal_strlit("0123456789abcdef");
    let text = hex_text(bytes);
    assert forall|n: int| 0 <= n < 16 implies #[trigger] hex_value("0123456789abcdef"@[n]) == Some(
        n,
    ) by {
    }
    assert forall|i: int| 0 <= i < text.len() implies hex_value(#[trigger] text[i]) is Some by {
        let b = bytes[i / 2];
        assert(hex_value("0123456789abcdef"@[b as int / 16]) is Some);
        assert(hex_value("0123456789abcdef"@[b as int % 16]) is Some);
    }
    assert forall|i: int| 0 <= i < bytes.len() implies #[trigger] hex_bytes(text)[i]
        == bytes[i] by {
        let b = bytes[i];
        assert((2 * i) / 2 == i && (2 * i) % 2 == 0 && (2 * i + 1) / 2 == i && (2 * i + 1) % 2
            == 1);
        assert(text[2 * i] == "0123456789abcdef"@[b as int / 16]);
        assert(text[2 * i + 1] == "0123456789abcdef"@[b as int % 16]);
        assert(hex_value("0123456789abcdef"@[b as int / 16]) == Some(b as int / 16));
        assert(hex_value("0123456789abcdef"@[b as int % 16]) == Some(b as int % 16));
    }
    assert(hex_bytes(text) =~= bytes);
}

/// The 20 bytes of a torrent, written in hexadecimal digits in either case, are the bytes that
/// trackers are asked for.
pub proof fn trackers_know_the_bytes(bytes: Seq<u8>, hash: Seq<char>)
    requires
        bytes.len() == 20,
        lowered(hash) == lowered(hex_text(bytes)),
    ensures
        hash_bytes_of(hash) == Some(bytes),
{
    hex_bytes_read_back(bytes);
    case_does_not_change_the_bytes(hash);
    case_does_not_change_the_bytes(hex_text(bytes));
}

/// A link is a magnet link exactly where it begins with `magnet:?`.
pub proof fn magnet_links_begin_alike(link: Seq<char>, rest: Seq<char>)
    ensures
        is_magnet_link("magnet:?"@ + rest),
        is_magnet_link(link) ==> link == "magnet:?"@ + link.skip(8),
{
    reveal_strlit("magnet:?");
    assert(("magnet:?"@ + rest).take(8) =~= "magnet:?"@);
    if is_magnet_link(link) {
        assert(link =~= link.take(8) + link.skip(8));
    }
}

/// The info hash of a link is the first hash in it, in lower case; a link without a hash has
/// none.
pub proof fn info_hash_is_the_first_hash(magnet: Seq<char>)
    ensures
        first_hash(magnet) matches Some(hash) ==> info_hash_of(magnet) == Some(lowered(hash)),
        first_hash(magnet) is None ==> info_hash_of(magnet) is None,
{
}

/// A hash that trackers know has 40 characters, each a digit or a letter from `a` to `f` in either
/// case.
pub proof fn other_hashes_are_not_known(hash: Seq<char>, i: int)
    requires
        hash_bytes_of(hash) is Some,
    ensures
        hash.len() == 40,
        0 <= i < 40 ==> {
            ||| '0' <= hash[i] && hash[i] <= '9'
            ||| 'a' <= hash[i] && hash[i] <= 'f'
            ||| 'A' <= hash[i] && hash[i] <= 'F'
        },
{
    if 0 <= i < 40 {
        assert(hex_value(hash[i]) is Some);
    }
}

} // verus!
