//! Elements picked from an HTML page by a CSS selector.
use vstd::prelude::*;

#[allow(unused_imports)]
use crate::catalog::{NEXT_LINK, POST_LINKS};
#[allow(unused_imports)]
use crate::magnet::is_magnet_link;
#[allow(unused_imports)]
use crate::post::{DATETIME, MAGNET_LINKS, POST_BODY, POST_DATES};
#[allow(unused_imports)]
use crate::text::{opt_text, texts};

verus! {

/// The attribute that holds the address of a link.
pub const HREF: &'static str = "href";

/// An element of a page: the texts in it, and the attribute that was asked for.
#[derive(Debug, PartialEq, Eq)]
pub struct PageElement {
    pub texts: Vec<String>,
    pub attribute: Option<String>,
}

/// An element of a page, as values.
#[verifier::ext_equal]
pub struct ElementView {
    pub texts: Seq<Seq<char>>,
    pub attribute: Option<Seq<char>>,
}

impl View for PageElement {
    type V = ElementView;

    open spec fn view(&self) -> ElementView {
        ElementView { texts: texts(self.texts@), attribute: opt_text(self.attribute) }
    }
}

/// The values of a list of elements.
pub open spec fn element_views(elements: Seq<PageElement>) -> Seq<ElementView> {
    Seq::new(elements.len(), |i: int| elements[i]@)
}

/// The elements of a page that a selector picks, each with the named attribute.
pub uninterp spec fn page_elements(
    document: Seq<char>,
    selector: Seq<char>,
    attribute: Seq<char>,
) -> Seq<ElementView>;

/// Whether a selector is one of those by which this library picks elements.
pub open spec fn is_known_selector(selector: Seq<char>) -> bool {
    ||| selector == POST_LINKS@
    ||| selector == NEXT_LINK@
    ||| selector == MAGNET_LINKS@
    ||| selector == POST_DATES@
    ||| selector == POST_BODY@
}

/// Whether each element has a magnet link as its attribute.
pub open spec fn all_magnet_links(elements: Seq<ElementView>) -> bool {
    forall|i: int|
        0 <= i < elements.len() ==> ((#[trigger] elements[i]).attribute matches Some(link)
            && is_magnet_link(link))
}

/// `scraper::Html::select` on a parsed page, with one of the selectors of this library: which
/// elements it picks, and what texts and what attribute they have, is a function of the page,
/// the selector and the attribute's name.
///
/// [`MAGNET_LINKS`] picks an element only by an address that begins with `magnet:?`, letter
/// for letter, and that address is the attribute [`HREF`] of the element.
#[verifier::external_body]
pub(crate) fn select(document: &str, selector: &str, attribute: &str) -> (res: Vec<PageElement>)
    requires
        is_known_selector(selector@),
    ensures
        element_views(res@) == page_elements(document@, selector@, attribute@),
        selector@ == MAGNET_LINKS@ && attribute@ == HREF@ ==> all_magnet_links(
            element_views(res@),
        ),
{
    let selector = scraper::Selector::parse(selector).unwrap();
    let page = scraper::Html::parse_document(document);
    page.select(&selector)
        .map(|element| PageElement {
            texts: element.text().map(|text| text.to_string()).collect(),
            attribute: element.value().attr(attribute).map(|value| value.to_string()),
        })
        .collect()
}

/// The values of elements are their texts and their attribute, one by one and in order.
pub proof fn elements_are_kept(elements: Seq<PageElement>, element: PageElement)
    ensures
        element_views(elements).len() == elements.len(),
        forall|i: int|
            0 <= i < elements.len() ==> #[trigger] element_views(elements)[i] == elements[i]@,
        element@.texts.len() == element.texts@.len(),
        forall|i: int|
            0 <= i < element.texts@.len() ==> #[trigger] element@.texts[i] == element.texts@[i]@,
        element.attribute matches Some(value) ==> element@.attribute == Some(value@),
        element.attribute is None ==> element@.attribute is None,
{
}

/// The selectors and attributes letter for letter.
pub proof fn selectors_letter_for_letter()
    ensures
        POST_LINKS@ == "ul.lcp_catlist li a"@,
        NEXT_LINK@ == "ul.lcp_paginator li a[title='Next']"@,
        MAGNET_LINKS@ == "a[href^='magnet:?']"@,
        POST_DATES@ == "time.entry-date"@,
        POST_BODY@ == ".entry-content"@,
        DATETIME@ == "datetime"@,
        HREF@ == "href"@,
{
}

} // verus!
