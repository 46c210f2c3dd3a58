//! The post of a game: its magnet link, its date and the size that it tells.
use vstd::prelude::*;

use crate::html::{select, PageElement, HREF};
#[allow(unused_imports)]
use crate::html::{element_views, page_elements, ElementView};
#[allow(unused_imports)]
use crate::magnet::is_magnet_link;
use crate::patterns::{captures, captures_all, ANY_SIZE, REPACK_SIZE};
#[allow(unused_imports)]
use crate::patterns::{all_matches, first_match, group_lists, groups};
use crate::provider::{copy_text, Metadata};
#[allow(unused_imports)]
use crate::provider::MetadataView;
use crate::text::{chars_of, join, last_part};
#[allow(unused_imports)]
use crate::text::{after_last, joined, last_part_is_what_follows, opt_text};

verus! {

/// Picks the magnet links of a post.
pub const MAGNET_LINKS: &'static str = "a[href^='magnet:?']";

/// Picks the dates of a post.
pub const POST_DATES: &'static str = "time.entry-date";

/// The attribute that holds a date in RFC 3339 form.
pub const DATETIME: &'static str = "datetime";

/// Picks the body of a post.
pub const POST_BODY: &'static str = ".entry-content";

/// A size as a post tells it: a number in decimal notation, and the bytes in its unit.
#[derive(Debug, PartialEq, Eq)]
pub struct SizeText {
    pub number: String,
    pub unit_bytes: u64,
}

/// A size as a post tells it, as values.
#[verifier::ext_equal]
pub struct SizeView {
    pub number: Seq<char>,
    pub unit_bytes: u64,
}

impl View for SizeText {
    type V = SizeView;

    open spec fn view(&self) -> SizeView {
        SizeView { number: self.number@, unit_bytes: self.unit_bytes }
    }
}

/// The values of an optional size.
pub open spec fn opt_size(size: Option<SizeText>) -> Option<SizeView> {
    match size {
        Some(told) => Some(told@),
        None => None,
    }
}

/// What a post tells of its game.
#[derive(Debug, PartialEq, Eq)]
pub struct PostDetails {
    pub magnet_link: Option<String>,
    pub published_at: Option<String>,
    pub size: Option<SizeText>,
}

/// What a post tells of its game, as values.
#[verifier::ext_equal]
pub struct DetailsView {
    pub magnet_link: Option<Seq<char>>,
    pub published_at: Option<Seq<char>>,
    pub size: Option<SizeView>,
}

impl View for PostDetails {
    type V = DetailsView;

    open spec fn view(&self) -> DetailsView {
        DetailsView {
            magnet_link: opt_text(self.magnet_link),
            published_at: opt_text(self.published_at),
            size: opt_size(self.size),
        }
    }
}

/// Whether `c` is the letter `upper`, or `lower`, the same letter in lower case.
pub open spec fn is_letter(c: char, upper: char, lower: char) -> bool {
    c == upper || c == lower
}

/// The bytes in a unit of size, in either case; one where the unit is not known.
pub open spec fn unit_bytes_of(unit: Seq<char>) -> u64 {
    if unit.len() == 2 && is_letter(unit[1], 'B', 'b') {
        if is_letter(unit[0], 'K', 'k') {
            1024
        } else if is_letter(unit[0], 'M', 'm') {
            1048576
        } else if is_letter(unit[0], 'G', 'g') {
            1073741824
        } else if is_letter(unit[0], 'T', 't') {
            1099511627776
        } else {
            1
        }
    } else {
        1
    }
}

/// The size that a number and a unit tell; of a range with a slash the last number counts.
pub open spec fn size_of(number: Seq<char>, unit: Seq<char>) -> SizeView {
    SizeView { number: after_last(number, '/'), unit_bytes: unit_bytes_of(unit) }
}

/// The first size of a list of matches that does not tell the original size.
pub open spec fn plain_size(matches: Seq<Seq<Option<Seq<char>>>>) -> Option<SizeView>
    decreases matches.len(),
{
    if matches.len() == 0 {
        None
    } else if matches[0][1] is None {
        Some(size_of(matches[0][2]->0, matches[0][3]->0))
    } else {
        plain_size(matches.drop_first())
    }
}

/// The size that the matches in a post's body tell: that of the repack where it is told, else
/// the first that is not the original size.
pub open spec fn size_among(
    repack: Option<Seq<Option<Seq<char>>>>,
    all: Seq<Seq<Option<Seq<char>>>>,
) -> Option<SizeView> {
    match repack {
        Some(found) => Some(size_of(found[1]->0, found[2]->0)),
        None => plain_size(all),
    }
}

/// The size that a post's body tells.
pub open spec fn size_in(body: Seq<char>) -> Option<SizeView> {
    size_among(first_match(REPACK_SIZE@, body), all_matches(ANY_SIZE@, body))
}

/// The attribute of the first of some elements.
pub open spec fn first_attribute(elements: Seq<ElementView>) -> Option<Seq<char>> {
    if elements.len() == 0 {
        None
    } else {
        elements[0].attribute
    }
}

/// What a post tells, by the elements in it: the first magnet link, the first date, and the
/// size in the first body.
pub open spec fn details_of(
    magnets: Seq<ElementView>,
    dates: Seq<ElementView>,
    bodies: Seq<ElementView>,
) -> DetailsView {
    DetailsView {
        magnet_link: first_attribute(magnets),
        published_at: first_attribute(dates),
        size: if bodies.len() == 0 {
            None
        } else {
            size_in(joined(bodies[0].texts, " "@))
        },
    }
}

/// The bytes in a unit of size.
pub fn unit_bytes(unit: &str) -> (res: u64)
    ensures
        res == unit_bytes_of(unit@),
{
    let chars = chars_of(unit);
    if chars.len() != 2 || !(chars[1] == 'B' || chars[1] == 'b') {
        return 1;
    }
    let c = chars[0];
    if c == 'K' || c == 'k' {
        1024
    } else if c == 'M' || c == 'm' {
        1048576
    } else if c == 'G' || c == 'g' {
        1073741824
    } else if c == 'T' || c == 't' {
        1099511627776
    } else {
        1
    }
}

/// The size that a number and a unit tell; of a range with a slash the last number counts.
pub fn size_text(number: &str, unit: &str) -> (res: SizeText)
    ensures
        res@ == size_of(number@, unit@),
{
    SizeText { number: last_part(number, '/'), unit_bytes: unit_bytes(unit) }
}

/// The text of a group that took part in its match.
fn group<'a>(found: &'a Vec<Option<String>>, index: usize) -> (res: &'a str)
    requires
        index < found@.len(),
        found@[index as int] is Some,
    ensures
        Some(res@) == groups(found@)[index as int],
{
    match &found[index] {
        Some(text) => text.as_str(),
        None => "",
    }
}

/// The first size of a list of matches that does not tell the original size.
pub fn first_plain_size(matches: &Vec<Vec<Option<String>>>) -> (res: Option<SizeText>)
    requires
        forall|i: int|
            #![trigger matches@[i]]
            0 <= i < matches@.len() ==> matches@[i]@.len() == 4 && matches@[i]@[2] is Some
                && matches@[i]@[3] is Some,
    ensures
        opt_size(res) == plain_size(group_lists(matches@)),
{
    let ghost all = group_lists(matches@);
    let mut i: usize = 0;
    assert(all.skip(0) =~= all);
    while i < matches.len()
        invariant
            i <= matches@.len(),
            all == group_lists(matches@),
            plain_size(all.skip(i as int)) == plain_size(all),
            forall|k: int|
                #![trigger matches@[k]]
                0 <= k < matches@.len() ==> matches@[k]@.len() == 4 && matches@[k]@[2] is Some
                    && matches@[k]@[3] is Some,
        decreases matches@.len() - i,
    {
        let found = &matches[i];
        proof {
            assert(all.skip(i as int)[0] == groups(found@));
            assert(all.skip(i as int).drop_first() =~= all.skip(i + 1));
        }
        if found[1].is_none() {
            return Some(size_text(group(found, 2), group(found, 3)));
        }
        i = i + 1;
    }
    None
}

/// Finds the size that a post's body tells.
pub fn find_size(body: &str) -> (res: Option<SizeText>)
    ensures
        opt_size(res) == size_in(body@),
{
    match captures(REPACK_SIZE, body) {
        Some(found) => Some(size_text(group(&found, 1), group(&found, 2))),
        None => {
            let all = captures_all(ANY_SIZE, body);
            first_plain_size(&all)
        },
    }
}

/// The attribute of the first of some elements.
fn first_attr(elements: &Vec<PageElement>) -> (res: Option<String>)
    ensures
        opt_text(res) == first_attribute(element_views(elements@)),
{
    if elements.len() == 0 {
        None
    } else {
        copy_text(&elements[0].attribute)
    }
}

/// Gathers what a post tells from the elements in it.
pub fn describe(
    magnets: &Vec<PageElement>,
    dates: &Vec<PageElement>,
    bodies: &Vec<PageElement>,
) -> (res: PostDetails)
    ensures
        res@ == details_of(
            element_views(magnets@),
            element_views(dates@),
            element_views(bodies@),
        ),
{
    let size = if bodies.len() == 0 {
        None
    } else {
        let body = join(&bodies[0].texts, " ");
        find_size(body.as_str())
    };
    PostDetails { magnet_link: first_attr(magnets), published_at: first_attr(dates), size }
}

/// Reads the post of a game. The link that is found, if any, is a magnet link.
pub fn read_post(document: &str) -> (res: PostDetails)
    ensures
        res@ == details_of(
            page_elements(document@, MAGNET_LINKS@, HREF@),
            page_elements(document@, POST_DATES@, DATETIME@),
            page_elements(document@, POST_BODY@, HREF@),
        ),
        res@.magnet_link matches Some(link) ==> is_magnet_link(link),
{
    let magnets = select(document, MAGNET_LINKS, HREF);
    let dates = select(document, POST_DATES, DATETIME);
    let bodies = select(document, POST_BODY, HREF);
    describe(&magnets, &dates, &bodies)
}

impl PostDetails {
    /// The metadata of the game, where `size_bytes` is the size in bytes that the post tells. A
    /// post tells nothing of seeders, leechers and completed downloads.
    pub fn into_metadata(self, size_bytes: Option<i64>) -> (res: Metadata)
        ensures
            res@ == (MetadataView {
                magnet_link: self@.magnet_link,
                size_bytes,
                published_at: self@.published_at,
                seeders: None,
                leechers: None,
                completed: None,
            }),
    {
        Metadata {
            magnet_link: self.magnet_link,
            size_bytes,
            published_at: self.published_at,
            seeders: None,
            leechers: None,
            completed: None,
        }
    }
}

/// Where the body tells the size of the repack, no other size counts.
pub proof fn repack_size_comes_first(
    repack: Seq<Option<Seq<char>>>,
    all: Seq<Seq<Option<Seq<char>>>>,
    others: Seq<Seq<Option<Seq<char>>>>,
)
    ensures
        size_among(Some(repack), all) == size_among(Some(repack), others),
        size_among(Some(repack), all) is Some,
{
}

/// The original size is never taken for the size: where the body tells no other, there is none,
/// and leaving out a match of it changes nothing.
pub proof fn original_size_does_not_count(all: Seq<Seq<Option<Seq<char>>>>, at: int)
    requires
        0 <= at < all.len(),
        all[at][1] is Some,
    ensures
        plain_size(all) == plain_size(all.remove(at)),
        (forall|i: int| 0 <= i < all.len() ==> (#[trigger] all[i])[1] is Some) ==> plain_size(all)
            is None,
    decreases all.len(),
{
    if at == 0 {
        assert(all.remove(0) =~= all.drop_first());
    } else {
        assert(all.drop_first()[at - 1] == all[at]);
        original_size_does_not_count(all.drop_first(), at - 1);
        assert(all.remove(at)[0] == all[0]);
        assert(all.remove(at).drop_first() =~= all.drop_first().remove(at - 1));
    }
    if forall|i: int| 0 <= i < all.len() ==> (#[trigger] all[i])[1] is Some {
        lemma_only_original(all);
    }
}

proof fn lemma_only_original(all: Seq<Seq<Option<Seq<char>>>>)
    requires
        forall|i: int| 0 <= i < all.len() ==> (#[trigger] all[i])[1] is Some,
    ensures
        plain_size(all) is None,
    decreases all.len(),
{
    if all.len() > 0 {
        assert forall|i: int| 0 <= i < all.drop_first().len() implies (
        #[trigger] all.drop_first()[i])[1] is Some by {
            assert(all.drop_first()[i] == all[i + 1]);
        }
        lemma_only_original(all.drop_first());
    }
}

/// A post tells the magnet link of its first magnet element and the date of its first date
/// element, however many follow; without such an element, or where the first one lacks the
/// attribute, it tells none.
pub proof fn first_elements_count(
    magnets: Seq<ElementView>,
    dates: Seq<ElementView>,
    bodies: Seq<ElementView>,
)
    ensures
        magnets.len() >= 1 ==> details_of(magnets, dates, bodies).magnet_link
            == magnets[0].attribute,
        magnets.len() == 0 ==> details_of(magnets, dates, bodies).magnet_link is None,
        dates.len() >= 1 ==> details_of(magnets, dates, bodies).published_at == dates[0].attribute,
        dates.len() == 0 ==> details_of(magnets, dates, bodies).published_at is None,
        bodies.len() == 0 ==> details_of(magnets, dates, bodies).size is None,
{
}

/// What stands behind the first magnet element, the first date element and the first body makes
/// no difference, and neither of the three has a part in what the others tell.
pub proof fn later_elements_do_not_count(
    magnets: Seq<ElementView>,
    dates: Seq<ElementView>,
    bodies: Seq<ElementView>,
    more: Seq<ElementView>,
)
    ensures
        magnets.len() > 0 && dates.len() > 0 && bodies.len() > 0 ==> details_of(
            magnets + more,
            dates + more,
            bodies + more,
        ) == details_of(magnets, dates, bodies),
        details_of(magnets, more, more).magnet_link == details_of(
            magnets,
            dates,
            bodies,
        ).magnet_link,
        details_of(more, dates, more).published_at == details_of(
            magnets,
            dates,
            bodies,
        ).published_at,
        details_of(more, more, bodies).size == details_of(magnets, dates, bodies).size,
{
}

/// The size of a post is told by the texts of its first body, with a space between them: by the
/// number and the unit of the repack size where the body tells it, and else by the first size
/// without the word for the original size in front.
pub proof fn sizes_are_told_by_the_first_body(
    magnets: Seq<ElementView>,
    dates: Seq<ElementView>,
    bodies: Seq<ElementView>,
    at: int,
)
    requires
        bodies.len() > 0,
    ensures
        ({
            let size = details_of(magnets, dates, bodies).size;
            let body = joined(bodies[0].texts, " "@);
            let repack = first_match(REPACK_SIZE@, body);
            let all = all_matches(ANY_SIZE@, body);
            &&& repack matches Some(found) ==> size == Some(
                SizeView {
                    number: after_last(found[1]->0, '/'),
                    unit_bytes: unit_bytes_of(found[2]->0),
                },
            )
            &&& repack is None && 0 <= at < all.len() && all[at][1] is None && (forall|i: int|
                0 <= i < at ==> (#[trigger] all[i])[1] is Some) ==> size == Some(
                SizeView {
                    number: after_last(all[at][2]->0, '/'),
                    unit_bytes: unit_bytes_of(all[at][3]->0),
                },
            )
            &&& repack is None && (forall|i: int|
                0 <= i < all.len() ==> (#[trigger] all[i])[1] is Some) ==> size is None
        }),
{
    let body = joined(bodies[0].texts, " "@);
    let all = all_matches(ANY_SIZE@, body);
    if first_match(REPACK_SIZE@, body) is None {
        if forall|i: int| 0 <= i < all.len() ==> (#[trigger] all[i])[1] is Some {
            lemma_only_original(all);
        }
        if 0 <= at < all.len() && all[at][1] is None && (forall|i: int|
            0 <= i < at ==> (#[trigger] all[i])[1] is Some) {
            lemma_first_plain(all, at);
        }
    }
}

proof fn lemma_first_plain(all: Seq<Seq<Option<Seq<char>>>>, at: int)
    requires
        0 <= at < all.len(),
        all[at][1] is None,
        forall|i: int| 0 <= i < at ==> (#[trigger] all[i])[1] is Some,
    ensures
        plain_size(all) == Some(size_of(all[at][2]->0, all[at][3]->0)),
    decreases at,
{
    if at > 0 {
        assert(all[0][1] is Some);
        assert(all.drop_first()[at - 1] == all[at]);
        assert forall|i: int| 0 <= i < at - 1 implies (#[trigger] all.drop_first()[i])[1]
            is Some by {
            assert(all.drop_first()[i] == all[i + 1]);
        }
        lemma_first_plain(all.drop_first(), at - 1);
    }
}

/// Of a range with slashes the last number counts, and a number without a slash counts as it
/// stands.
pub proof fn ranges_count_with_their_end(
    front: Seq<char>,
    number: Seq<char>,
    unit: Seq<char>,
)
    requires
        !number.contains('/'),
    ensures
        size_of(front.push('/') + number, unit).number == number,
        size_of(number, unit).number == number,
        size_of(number, unit).unit_bytes == unit_bytes_of(unit),
        size_of(front, unit).unit_bytes == unit_bytes_of(unit),
{
    last_part_is_what_follows(front, number, '/');
}

/// A kilobyte has 1024 bytes, and each further unit 1024 times as many as the one before it, in
/// whatever case the letters are; no other unit counts for more than a byte.
pub proof fn units_grow_by_1024(unit: Seq<char>)
    ensures
        unit.len() == 2 && (unit[1] == 'B' || unit[1] == 'b') ==> {
            &&& unit[0] == 'K' || unit[0] == 'k' ==> unit_bytes_of(unit) == 1024
            &&& unit[0] == 'M' || unit[0] == 'm' ==> unit_bytes_of(unit) == 1024 * 1024
            &&& unit[0] == 'G' || unit[0] == 'g' ==> unit_bytes_of(unit) == 1024 * 1024 * 1024
            &&& unit[0] == 'T' || unit[0] == 't' ==> unit_bytes_of(unit) == 1024 * 1024 * 1024
                * 1024
        },
        unit.len() != 2 || !(unit[1] == 'B' || unit[1] == 'b') || !(unit[0] == 'K' || unit[0] == 'k'
            || unit[0] == 'M' || unit[0] == 'm' || unit[0] == 'G' || unit[0] == 'g' || unit[0]
            == 'T' || unit[0] == 't') ==> unit_bytes_of(unit) == 1,
{
}

/// The values of what a post tells are those of its fields, one by one.
pub proof fn details_are_kept(details: PostDetails, size: SizeText)
    ensures
        details.magnet_link matches Some(s) ==> details@.magnet_link == Some(s@),
        details.magnet_link is None ==> details@.magnet_link is None,
        details.published_at matches Some(s) ==> details@.published_at == Some(s@),
        details.published_at is None ==> details@.published_at is None,
        details.size matches Some(told) ==> details@.size == Some(told@),
        details.size is None ==> details@.size is None,
        size@.number == size.number@,
        size@.unit_bytes == size.unit_bytes,
        opt_size(Some(size)) == Some(size@),
        opt_size(None) is None,
{
}

} // verus!
