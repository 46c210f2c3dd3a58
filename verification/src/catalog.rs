//! The list of all games: the rows of its pages, and the crawl from page to page.
use vstd::prelude::*;
use vstd::string::*;

use crate::html::{select, PageElement, HREF};
#[allow(unused_imports)]
use crate::html::{element_views, page_elements, ElementView};
use crate::provider::CatalogRow;
#[allow(unused_imports)]
use crate::provider::CatalogRowView;
use crate::text::{append_decimal, join, slug};
#[allow(unused_imports)]
use crate::text::{
    decimal, decimals_read_back, digit_char, digits_value, is_digits, joined, slug_of,
};

verus! {

/// The address of a page of the list, but for the page's number.
pub const CATALOG_URL: &'static str =
    "https://fitgirl-repacks.site/all-my-repacks-a-z/?lcp_page0=";

/// Picks the links to the posts on a page of the list.
pub const POST_LINKS: &'static str = "ul.lcp_catlist li a";

/// Picks the link to the next page.
pub const NEXT_LINK: &'static str = "ul.lcp_paginator li a[title='Next']";

/// The shortest pause between two pages, in milliseconds.
pub const SHORTEST_PAUSE: u64 = 1000;

/// The longest pause between two pages, in milliseconds.
pub const LONGEST_PAUSE: u64 = 3000;

/// A page of the list.
#[derive(Debug, PartialEq, Eq)]
pub struct CatalogPage {
    pub rows: Vec<CatalogRow>,
    /// Whether the page links to a next one.
    pub has_next: bool,
    /// Whether there is any post on the page.
    pub parsed_any: bool,
}

/// The row that a link of the list makes: its text in one piece, its address, and the
/// identifier that the address ends in.
pub open spec fn row_of_link(texts: Seq<Seq<char>>, address: Seq<char>) -> CatalogRowView {
    CatalogRowView {
        id: slug_of(address),
        title: joined(texts, Seq::empty()),
        post_url: address,
    }
}

/// The rows that the links of a page make; a link without an address makes none.
pub open spec fn rows_of_links(links: Seq<ElementView>) -> Seq<CatalogRowView>
    decreases links.len(),
{
    if links.len() == 0 {
        Seq::empty()
    } else {
        match links.last().attribute {
            Some(address) => rows_of_links(links.drop_last()).push(
                row_of_link(links.last().texts, address),
            ),
            None => rows_of_links(links.drop_last()),
        }
    }
}

/// The values of a list of rows.
pub open spec fn row_views(rows: Seq<CatalogRow>) -> Seq<CatalogRowView> {
    Seq::new(rows.len(), |i: int| rows[i]@)
}

/// Makes the rows of a page from its links.
pub fn rows_from_links(links: &Vec<PageElement>) -> (res: Vec<CatalogRow>)
    ensures
        row_views(res@) == rows_of_links(element_views(links@)),
{
    let mut rows: Vec<CatalogRow> = Vec::new();
    let mut i: usize = 0;
    let ghost views = element_views(links@);
    assert(row_views(rows@) =~= rows_of_links(views.take(0)));
    while i < links.len()
        invariant
            i <= links@.len(),
            views == element_views(links@),
            row_views(rows@) == rows_of_links(views.take(i as int)),
        decreases links@.len() - i,
    {
        let link = &links[i];
        proof {
            assert(views.take(i + 1).drop_last() =~= views.take(i as int));
            assert(views.take(i + 1).last() == link@);
        }
        if let Some(address) = &link.attribute {
            let row = CatalogRow {
                id: slug(address.as_str()),
                title: join(&link.texts, ""),
                post_url: address.clone(),
            };
            proof {
                reveal_strlit("");
                assert(""@ =~= Seq::<char>::empty());
                assert(row@ == row_of_link(link@.texts, address@));
            }
            let ghost before = rows@;
            rows.push(row);
            assert(row_views(rows@) =~= row_views(before).push(row@));
        }
        i = i + 1;
    }
    assert(views.take(i as int) =~= views);
    rows
}

/// Reads a page of the list.
pub fn read_catalog(document: &str) -> (res: CatalogPage)
    ensures
        row_views(res.rows@) == rows_of_links(page_elements(document@, POST_LINKS@, HREF@)),
        res.has_next == (page_elements(document@, NEXT_LINK@, HREF@).len() > 0),
        res.parsed_any == (page_elements(document@, POST_LINKS@, HREF@).len() > 0),
{
    let next = select(document, NEXT_LINK, HREF);
    let links = select(document, POST_LINKS, HREF);
    proof {
        assert(element_views(next@).len() == next@.len());
        assert(element_views(links@).len() == links@.len());
    }
    CatalogPage {
        rows: rows_from_links(&links),
        has_next: next.len() > 0,
        parsed_any: links.len() > 0,
    }
}

/// What came of asking for a page.
#[derive(Clone, Copy, Debug, PartialEq, Eq, Structural)]
pub enum PageReply {
    /// The site did not hand the page out.
    Refused,
    /// The page is there.
    Page { has_next: bool, parsed_any: bool },
}

/// A crawl through the list, at the page to ask for.
#[derive(Clone, Copy, Debug, PartialEq, Eq, Structural)]
pub struct Crawl {
    pub page: u32,
}

/// The address of a page of the list.
pub open spec fn page_url(page: u32) -> Seq<char> {
    CATALOG_URL@ + decimal(page as nat)
}

impl Crawl {
    /// A crawl from the first page on.
    pub fn new() -> (res: Crawl)
        ensures
            res.page == 1,
    {
        Crawl { page: 1 }
    }

    /// The address of the page to ask for.
    pub fn url(&self) -> (res: String)
        ensures
            res@ == page_url(self.page),
    {
        let mut res = CATALOG_URL.to_owned();
        append_decimal(&mut res, self.page as u64);
        res
    }

    /// Goes on after a page: to the next one, unless the page was refused or it neither links
    /// to a next one nor holds a post.
    pub fn advance(&self, reply: PageReply) -> (res: Option<Crawl>)
        requires
            self.page < u32::MAX,
        ensures
            res == match reply {
                PageReply::Refused => None,
                PageReply::Page { has_next, parsed_any } => if has_next || parsed_any {
                    Some(Crawl { page: (self.page + 1) as u32 })
                } else {
                    None
                },
            },
    {
        match reply {
            PageReply::Refused => None,
            PageReply::Page { has_next, parsed_any } => {
                if !has_next && !parsed_any {
                    None
                } else {
                    Some(Crawl { page: self.page + 1 })
                }
            },
        }
    }
}

/// `rand::Rng::gen_range` over a closed range: any number in the range.
#[verifier::external_body]
fn random_between(low: u64, high: u64) -> (res: u64)
    requires
        low <= high,
    ensures
        low <= res <= high,
{
    rand::Rng::gen_range(&mut rand::thread_rng(), low..=high)
}

/// How long to wait before the next page, in milliseconds: some time between the shortest and
/// the longest pause.
pub fn pause_millis() -> (res: u64)
    ensures
        1000 <= res <= 3000,
{
    random_between(SHORTEST_PAUSE, LONGEST_PAUSE)
}

proof fn lemma_decimal_injective(a: nat, b: nat)
    requires
        decimal(a) == decimal(b),
    ensures
        a == b,
    decreases a,
{
    let x = decimal(a);
    let y = decimal(b);
    lemma_decimal_len(a);
    lemma_decimal_len(b);
    assert(x.last() == digit_char(a % 10));
    assert(y.last() == digit_char(b % 10));
    assert(a % 10 == b % 10);
    if a >= 10 && b >= 10 {
        assert(x.drop_last() =~= decimal(a / 10));
        assert(y.drop_last() =~= decimal(b / 10));
        lemma_decimal_injective(a / 10, b / 10);
    }
}

proof fn lemma_decimal_len(n: nat)
    ensures
        decimal(n).len() >= 1,
        n >= 10 ==> decimal(n).len() >= 2,
        n < 10 ==> decimal(n).len() == 1,
    decreases n,
{
    if n >= 10 {
        lemma_decimal_len(n / 10);
    }
}

/// Each page of the list has an address of its own.
pub proof fn pages_have_their_own_address(a: u32, b: u32)
    requires
        page_url(a) == page_url(b),
    ensures
        a == b,
{
    let prefix = CATALOG_URL@;
    assert(page_url(a).skip(prefix.len() as int) =~= decimal(a as nat));
    assert(page_url(b).skip(prefix.len() as int) =~= decimal(b as nat));
    lemma_decimal_injective(a as nat, b as nat);
}

/// No row is made up, and there are at most as many rows as links.
pub proof fn rows_come_from_links(links: Seq<ElementView>)
    ensures
        rows_of_links(links).len() <= links.len(),
        forall|i: int|
            0 <= i < rows_of_links(links).len() ==> exists|k: int|
                0 <= k < links.len() && (#[trigger] links[k]).attribute == Some(
                    (#[trigger] rows_of_links(links)[i]).post_url,
                ),
    decreases links.len(),
{
    if links.len() > 0 {
        let front = links.drop_last();
        rows_come_from_links(front);
        assert forall|i: int| 0 <= i < rows_of_links(links).len() implies exists|k: int|
            0 <= k < links.len() && (#[trigger] links[k]).attribute == Some(
                (#[trigger] rows_of_links(links)[i]).post_url,
            ) by {
            if i < rows_of_links(front).len() {
                let k = choose|k: int|
                    0 <= k < front.len() && (#[trigger] front[k]).attribute == Some(
                        rows_of_links(front)[i].post_url,
                    );
                assert(links[k] == front[k]);
            } else {
                assert(links[links.len() - 1].attribute == Some(rows_of_links(links)[i].post_url));
            }
        }
    }
}

/// How many of some links have an address.
pub open spec fn address_count(links: Seq<ElementView>) -> nat
    decreases links.len(),
{
    if links.len() == 0 {
        0
    } else {
        address_count(links.drop_last()) + if links.last().attribute is Some {
            1nat
        } else {
            0nat
        }
    }
}

/// No game is lost: there are as many rows as links with an address, and each such link makes
/// the row at its place among them, with that address, the identifier that the address ends in,
/// and the link's texts in one piece.
pub proof fn no_game_is_lost(links: Seq<ElementView>)
    ensures
        rows_of_links(links).len() == address_count(links),
        forall|k: int|
            0 <= k < links.len() ==> ((#[trigger] links[k]).attribute matches Some(address) ==> {
                let at = address_count(links.take(k)) as int;
                &&& at < rows_of_links(links).len()
                &&& rows_of_links(links)[at].post_url == address
                &&& rows_of_links(links)[at].id == slug_of(address)
                &&& rows_of_links(links)[at].title == joined(links[k].texts, Seq::empty())
            }),
    decreases links.len(),
{
    if links.len() > 0 {
        let front = links.drop_last();
        let last = links.len() - 1;
        no_game_is_lost(front);
        assert forall|k: int| 0 <= k < links.len() implies ((
        #[trigger] links[k]).attribute matches Some(address) ==> {
            let at = address_count(links.take(k)) as int;
            &&& at < rows_of_links(links).len()
            &&& rows_of_links(links)[at].post_url == address
            &&& rows_of_links(links)[at].id == slug_of(address)
            &&& rows_of_links(links)[at].title == joined(links[k].texts, Seq::empty())
        }) by {
            if k < last {
                assert(links[k] == front[k]);
                assert(front.take(k) =~= links.take(k));
            } else {
                assert(links.take(last) =~= front);
            }
        }
    }
}

/// The rows of a page in two parts are the rows of the one part and then those of the other.
pub proof fn rows_come_in_order(first: Seq<ElementView>, second: Seq<ElementView>)
    ensures
        rows_of_links(first + second) == rows_of_links(first) + rows_of_links(second),
    decreases second.len(),
{
    if second.len() == 0 {
        assert(first + second =~= first);
        assert(rows_of_links(first) + rows_of_links(second) =~= rows_of_links(first));
    } else {
        rows_come_in_order(first, second.drop_last());
        assert((first + second).drop_last() =~= first + second.drop_last());
        assert((first + second).last() == second.last());
        assert(rows_of_links(first + second) =~= rows_of_links(first) + rows_of_links(second));
    }
}

/// The values of a list of rows are those of the rows, one by one and in order.
pub proof fn rows_are_kept(rows: Seq<CatalogRow>)
    ensures
        row_views(rows).len() == rows.len(),
        forall|i: int| 0 <= i < rows.len() ==> #[trigger] row_views(rows)[i] == rows[i]@,
{
}

/// The address of a page is that of the list, and behind it stands the number of the page.
pub proof fn page_addresses_tell_the_page(page: u32)
    ensures
        ({
            let list = "https://fitgirl-repacks.site/all-my-repacks-a-z/?lcp_page0="@;
            &&& page_url(page).take(list.len() as int) == list
            &&& is_digits(page_url(page).skip(list.len() as int))
            &&& digits_value(page_url(page).skip(list.len() as int)) == page
            &&& page > 0 ==> page_url(page)[list.len() as int] != '0'
        }),
{
    let list = CATALOG_URL@;
    decimals_read_back(page as nat);
    assert(page_url(page).take(list.len() as int) =~= list);
    assert(page_url(page).skip(list.len() as int) =~= decimal(page as nat));
}

} // verus!
