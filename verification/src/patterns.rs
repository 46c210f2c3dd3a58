//! Searches with regular expressions, and what the patterns of this library match.
use vstd::prelude::*;

use crate::text::opt_text;

verus! {

/// Finds the info hash in a magnet link.
pub const INFO_HASH: &'static str = "btih:([a-zA-Z0-9]{32,40})";

/// Finds the size of a repack in the text of a post: a number, or a range of them with a slash
/// between, and a unit.
pub const REPACK_SIZE: &'static str =
    "(?i)Repack\\s+Size\\s*[:\\s]+\\s*(?:from\\s+)?([\\d./]+)\\s*([KMGT]B)";

/// Finds the sizes in the text of a post, with the word in front that tells the original size.
pub const ANY_SIZE: &'static str =
    "(?i)(Original\\s+)?Size\\s*[:\\s]+\\s*(?:from\\s+)?([\\d./]+)\\s*([KMGT]B)";

/// The groups of a match: the whole of it, then each bracket's part, where it took part.
pub open spec fn groups(list: Seq<Option<String>>) -> Seq<Option<Seq<char>>> {
    Seq::new(list.len(), |i: int| opt_text(list[i]))
}

/// The groups of an optional match.
pub open spec fn opt_groups(found: Option<Vec<Option<String>>>) -> Option<Seq<Option<Seq<char>>>> {
    match found {
        Some(list) => Some(groups(list@)),
        None => None,
    }
}

/// The groups of each match of a list.
pub open spec fn group_lists(list: Seq<Vec<Option<String>>>) -> Seq<Seq<Option<Seq<char>>>> {
    Seq::new(list.len(), |i: int| groups(list[i]@))
}

/// The groups of the first match of a pattern in a text.
pub uninterp spec fn first_match(pattern: Seq<char>, text: Seq<char>) -> Option<
    Seq<Option<Seq<char>>>,
>;

/// The groups of each match of a pattern in a text, from left to right and without overlap.
pub uninterp spec fn all_matches(pattern: Seq<char>, text: Seq<char>) -> Seq<
    Seq<Option<Seq<char>>>,
>;

/// Whether `c` is a letter from `a` to `z`, in either case, or a digit.
pub open spec fn is_alnum(c: char) -> bool {
    ('a' <= c && c <= 'z') || ('A' <= c && c <= 'Z') || ('0' <= c && c <= '9')
}

/// The letters and digits that `s` begins with, `limit` of them at most.
pub open spec fn alnum_prefix(s: Seq<char>, limit: nat) -> Seq<char>
    decreases limit,
{
    if limit == 0 || s.len() == 0 || !is_alnum(s[0]) {
        Seq::empty()
    } else {
        seq![s[0]] + alnum_prefix(s.drop_first(), (limit - 1) as nat)
    }
}

/// The first run of at least 32 letters and digits behind a `btih:`, cut after 40 of them.
pub open spec fn first_hash(s: Seq<char>) -> Option<Seq<char>>
    decreases s.len(),
{
    if s.len() < 5 {
        None
    } else if s.take(5) == "btih:"@ && alnum_prefix(s.skip(5), 40).len() >= 32 {
        Some(alnum_prefix(s.skip(5), 40))
    } else {
        first_hash(s.drop_first())
    }
}

/// `regex::Regex::captures`: the groups of the leftmost match, or nothing where there is none
/// or where the pattern is no regular expression, as a function of pattern and text.
///
/// The leftmost match of [`INFO_HASH`] starts at the first `btih:` with 32 letters or digits
/// behind it, and its repetition takes as many as it may. In a match of [`REPACK_SIZE`] both
/// brackets take part.
#[verifier::external_body]
pub(crate) fn captures(pattern: &str, text: &str) -> (res: Option<Vec<Option<String>>>)
    ensures
        opt_groups(res) == first_match(pattern@, text@),
        pattern@ == INFO_HASH@ ==> match res {
            Some(list) => list@.len() == 2 && list@[1] is Some && opt_text(list@[1]) == first_hash(
                text@,
            ),
            None => first_hash(text@) is None,
        },
        pattern@ == REPACK_SIZE@ ==> (res matches Some(list) ==> list@.len() == 3 && list@[1] is Some
            && list@[2] is Some),
{
    let found = regex::Regex::new(pattern).ok()?.captures(text)?;
    Some(found.iter().map(|group| group.map(|part| part.as_str().to_string())).collect())
}

/// `regex::Regex::captures_iter`: the groups of each match from left to right, none where the
/// pattern is no regular expression, as a function of pattern and text.
///
/// In a match of [`ANY_SIZE`] the second and the third bracket take part.
#[verifier::external_body]
pub(crate) fn captures_all(pattern: &str, text: &str) -> (res: Vec<Vec<Option<String>>>)
    ensures
        group_lists(res@) == all_matches(pattern@, text@),
        pattern@ == ANY_SIZE@ ==> forall|i: int|
            #![trigger res@[i]]
            0 <= i < res@.len() ==> res@[i]@.len() == 4 && res@[i]@[2] is Some
                && res@[i]@[3] is Some,
{
    let Ok(expression) = regex::Regex::new(pattern) else { return Vec::new() };
    expression
        .captures_iter(text)
        .map(|found| found.iter().map(|group| group.map(|part| part.as_str().to_string())).collect())
        .collect()
}

/// Whether a `btih:` with at least 32 letters and digits behind it stands at `at`.
pub open spec fn hash_stands_at(s: Seq<char>, at: int) -> bool {
    &&& 0 <= at
    &&& at + 37 <= s.len()
    &&& s[at] == 'b' && s[at + 1] == 't' && s[at + 2] == 'i' && s[at + 3] == 'h' && s[at + 4] == ':'
    &&& forall|k: int| at + 5 <= k < at + 37 ==> is_alnum(#[trigger] s[k])
}

proof fn lemma_prefix(s: Seq<char>, limit: nat)
    ensures
        ({
            let run = alnum_prefix(s, limit);
            &&& run.len() <= limit
            &&& run.len() <= s.len()
            &&& run == s.take(run.len() as int)
            &&& forall|i: int| 0 <= i < run.len() ==> is_alnum(#[trigger] s[i])
            &&& run.len() == limit || run.len() == s.len() || !is_alnum(s[run.len() as int])
        }),
    decreases limit,
{
    let run = alnum_prefix(s, limit);
    if limit == 0 || s.len() == 0 || !is_alnum(s[0]) {
        assert(run =~= s.take(0));
    } else {
        let rest = s.drop_first();
        lemma_prefix(rest, (limit - 1) as nat);
        let short = alnum_prefix(rest, (limit - 1) as nat);
        assert(run =~= s.take(run.len() as int)) by {
            assert forall|i: int| 0 <= i < run.len() implies run[i] == s[i] by {
                if i > 0 {
                    assert(short[i - 1] == rest[i - 1]);
                }
            }
        }
        assert forall|i: int| 0 <= i < run.len() implies is_alnum(#[trigger] s[i]) by {
            if i > 0 {
                assert(is_alnum(rest[i - 1]));
            }
        }
    }
}

proof fn lemma_stands_here(s: Seq<char>)
    requires
        s.len() >= 5,
    ensures
        hash_stands_at(s, 0) == (s.take(5) == "btih:"@ && alnum_prefix(s.skip(5), 40).len() >= 32),
{
    reveal_strlit("btih:");
    let tail = s.skip(5);
    lemma_prefix(tail, 40);
    let run = alnum_prefix(tail, 40);
    if hash_stands_at(s, 0) {
        assert(s.take(5) =~= "btih:"@);
        if run.len() < 32 {
            assert(tail[run.len() as int] == s[run.len() as int + 5]);
        }
    }
    if s.take(5) == "btih:"@ && run.len() >= 32 {
        assert forall|i: int| 0 <= i < 5 implies s[i] == "btih:"@[i] by {
            assert(s.take(5)[i] == s[i]);
        }
        assert forall|k: int| 5 <= k < 37 implies is_alnum(#[trigger] s[k]) by {
            assert(tail[k - 5] == s[k]);
        }
    }
}

/// A hash is found exactly where a `btih:` with 32 letters and digits behind it stands, and it
/// is the run behind the first of them, up to the 40th character, the end of the text or the
/// first that is neither letter nor digit.
pub proof fn first_hash_is_found(s: Seq<char>, at: int)
    ensures
        (forall|p: int| !#[trigger] hash_stands_at(s, p)) ==> first_hash(s) is None,
        hash_stands_at(s, at) && (forall|p: int| 0 <= p < at ==> !#[trigger] hash_stands_at(s, p))
            ==> (first_hash(s) matches Some(hash) && {
            &&& 32 <= hash.len() <= 40
            &&& at + 5 + hash.len() <= s.len()
            &&& hash == s.subrange(at + 5, at + 5 + hash.len())
            &&& forall|i: int| 0 <= i < hash.len() ==> is_alnum(#[trigger] hash[i])
            &&& hash.len() == 40 || at + 5 + hash.len() == s.len() || !is_alnum(
                s[at + 5 + hash.len()],
            )
        }),
    decreases s.len(),
{
    if s.len() >= 5 {
        lemma_stands_here(s);
        let rest = s.drop_first();
        assert forall|p: int| p >= 0 implies #[trigger] hash_stands_at(rest, p) == hash_stands_at(
            s,
            p + 1,
        ) by {
            if hash_stands_at(rest, p) {
                assert forall|k: int| p + 6 <= k < p + 38 implies is_alnum(#[trigger] s[k]) by {
                    assert(rest[k - 1] == s[k]);
                }
            }
            if hash_stands_at(s, p + 1) {
                assert forall|k: int| p + 5 <= k < p + 37 implies is_alnum(#[trigger] rest[k]) by {
                    assert(rest[k] == s[k + 1]);
                }
            }
        }
        if forall|p: int| !#[trigger] hash_stands_at(s, p) {
            assert(!hash_stands_at(s, 0));
            assert forall|p: int| !#[trigger] hash_stands_at(rest, p) by {
                if p >= 0 {
                    assert(!hash_stands_at(s, p + 1));
                }
            }
            first_hash_is_found(rest, 0);
        }
        if hash_stands_at(s, at) && (forall|p: int|
            0 <= p < at ==> !#[trigger] hash_stands_at(s, p)) {
            if at == 0 {
                let tail = s.skip(5);
                lemma_prefix(tail, 40);
                let hash = alnum_prefix(tail, 40);
                assert(hash =~= s.subrange(5, 5 + hash.len() as int));
                assert forall|i: int| 0 <= i < hash.len() implies is_alnum(#[trigger] hash[i]) by {
                    assert(is_alnum(tail[i]));
                }
            } else {
                assert(!hash_stands_at(s, 0));
                assert(hash_stands_at(rest, at - 1));
                assert forall|p: int| 0 <= p < at - 1 implies !#[trigger] hash_stands_at(
                    rest,
                    p,
                ) by {
                    assert(!hash_stands_at(s, p + 1));
                }
                first_hash_is_found(rest, at - 1);
                if let Some(hash) = first_hash(rest) {
                    assert(rest.subrange(at + 4, at + 4 + hash.len()) =~= s.subrange(
                        at + 5,
                        at + 5 + hash.len(),
                    ));
                }
            }
        }
    }
}

/// The groups of a match are the texts of its parts, one by one and in order, and so are the
/// groups of a list of matches.
pub proof fn groups_are_kept(
    list: Seq<Option<String>>,
    found: Option<Vec<Option<String>>>,
    all: Seq<Vec<Option<String>>>,
)
    ensures
        groups(list).len() == list.len(),
        forall|i: int| #![trigger groups(list)[i]] 0 <= i < list.len() ==> match list[i] {
            Some(part) => groups(list)[i] == Some(part@),
            None => groups(list)[i] is None,
        },
        found matches Some(parts) ==> opt_groups(found) == Some(groups(parts@)),
        found is None ==> opt_groups(found) is None,
        group_lists(all).len() == all.len(),
        forall|i: int| 0 <= i < all.len() ==> #[trigger] group_lists(all)[i] == groups(all[i]@),
{
}

/// The patterns letter for letter.
pub proof fn patterns_letter_for_letter()
    ensures
        INFO_HASH@ == "btih:([a-zA-Z0-9]{32,40})"@,
        REPACK_SIZE@
            == "(?i)Repack\\s+Size\\s*[:\\s]+\\s*(?:from\\s+)?([\\d./]+)\\s*([KMGT]B)"@,
        ANY_SIZE@
            == "(?i)(Original\\s+)?Size\\s*[:\\s]+\\s*(?:from\\s+)?([\\d./]+)\\s*([KMGT]B)"@,
{
}

} // verus!
