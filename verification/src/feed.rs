//! The feed of latest releases: from its XML to the games in it and the oldest of their dates.
use quick_xml::events::Event;
use vstd::prelude::*;
use vstd::string::*;

use crate::moment::Moment;
#[allow(unused_imports)]
use crate::moment::{moment_of, rfc2822_fields};
use crate::provider::FeedRow;
#[allow(unused_imports)]
use crate::provider::FeedRowView;
#[allow(unused_imports)]
use crate::text::{same_text, slug, slug_of};

verus! {

/// The address of the feed.
pub const FEED_URL: &'static str = "https://fitgirl-repacks.site/feed/";

/// What the reader of an XML document comes upon, with texts of type `T`.
#[derive(Debug, PartialEq, Eq)]
pub enum FeedEvent<T> {
    /// The start of an element of this name.
    Start(T),
    /// Text, with its entities resolved.
    Text(T),
    /// Text with an entity that cannot be resolved.
    Unreadable,
    /// The text of a CDATA section.
    CData(T),
    /// The end of an element of this name.
    End(T),
    /// Anything else: an empty element, a comment, a declaration.
    Other,
    /// The document breaks the rules of XML here.
    Malformed,
    /// The end of the document.
    Eof,
}

impl View for FeedEvent<String> {
    type V = FeedEvent<Seq<char>>;

    open spec fn view(&self) -> FeedEvent<Seq<char>> {
        match self {
            FeedEvent::Start(name) => FeedEvent::Start(name@),
            FeedEvent::Text(text) => FeedEvent::Text(text@),
            FeedEvent::Unreadable => FeedEvent::Unreadable,
            FeedEvent::CData(text) => FeedEvent::CData(text@),
            FeedEvent::End(name) => FeedEvent::End(name@),
            FeedEvent::Other => FeedEvent::Other,
            FeedEvent::Malformed => FeedEvent::Malformed,
            FeedEvent::Eof => FeedEvent::Eof,
        }
    }
}

/// A reader of XML from the `quick_xml` crate.
#[verifier::external_type_specification]
#[verifier::external_body]
#[verifier::reject_recursive_types(R)]
pub struct ExReader<R>(quick_xml::Reader<R>);

/// What a reader will still come upon before the end of its document.
pub uninterp spec fn pending_events(reader: quick_xml::Reader<&[u8]>) -> Seq<FeedEvent<Seq<char>>>;

/// What a reader comes upon in a document before its end, where `trim` tells whether the white
/// space around texts is left out.
pub uninterp spec fn xml_events(document: Seq<char>, trim: bool) -> Seq<FeedEvent<Seq<char>>>;

/// `quick_xml::Reader::from_str`, set to trim texts or not: what the reader will come upon is
/// a function of the document and of that choice.
#[verifier::external_body]
fn open_reader(document: &str, trim: bool) -> (res: quick_xml::Reader<&[u8]>)
    ensures
        pending_events(res) == xml_events(document@, trim),
{
    let mut reader = quick_xml::Reader::from_str(document);
    reader.config_mut().trim_text(trim);
    reader
}

/// `quick_xml::Reader::read_event`, with the text of an event as `unescape` gives it: takes the
/// first of the pending events. Each read moves on in the document, so that there are finitely
/// many; then comes the end, and nothing but it.
#[verifier::external_body]
fn next_event(reader: &mut quick_xml::Reader<&[u8]>) -> (res: FeedEvent<String>)
    ensures
        res is Eof <==> pending_events(*old(reader)).len() == 0,
        res is Eof ==> pending_events(*final(reader)) == pending_events(*old(reader)),
        pending_events(*old(reader)).len() > 0 ==> {
            &&& res@ == pending_events(*old(reader))[0]
            &&& pending_events(*final(reader)) == pending_events(*old(reader)).drop_first()
        },
{
    match reader.read_event() {
        Ok(Event::Start(e)) => FeedEvent::Start(String::from_utf8_lossy(e.name().as_ref()).to_string()),
        Ok(Event::Text(e)) => match e.unescape() {
            Ok(text) => FeedEvent::Text(text.to_string()),
            Err(_) => FeedEvent::Unreadable,
        },
        Ok(Event::CData(e)) => FeedEvent::CData(String::from_utf8_lossy(&e).to_string()),
        Ok(Event::End(e)) => FeedEvent::End(String::from_utf8_lossy(e.name().as_ref()).to_string()),
        Ok(Event::Eof) => FeedEvent::Eof,
        Ok(_) => FeedEvent::Other,
        Err(_) => FeedEvent::Malformed,
    }
}

/// What a feed says of one release.
#[derive(Debug, PartialEq, Eq)]
pub struct FeedItem {
    pub title: String,
    pub link: String,
    pub pub_date: String,
}

/// What a feed says of one release, as values.
#[verifier::ext_equal]
pub struct ItemView {
    pub title: Seq<char>,
    pub link: Seq<char>,
    pub pub_date: Seq<char>,
}

impl View for FeedItem {
    type V = ItemView;

    open spec fn view(&self) -> ItemView {
        ItemView { title: self.title@, link: self.link@, pub_date: self.pub_date@ }
    }
}

/// The values of a list of releases.
pub open spec fn item_views(items: Seq<FeedItem>) -> Seq<ItemView> {
    Seq::new(items.len(), |i: int| items[i]@)
}

/// How far the reading of a feed has come.
#[derive(Debug, PartialEq, Eq)]
pub struct FeedState {
    /// Whether the reader is inside an item.
    pub in_item: bool,
    /// The element whose text is expected.
    pub tag: String,
    /// The item that is being read.
    pub current: FeedItem,
    /// The items that have been read.
    pub items: Vec<FeedItem>,
}

/// How far the reading of a feed has come, as values.
#[verifier::ext_equal]
pub struct StateView {
    pub in_item: bool,
    pub tag: Seq<char>,
    pub current: ItemView,
    pub items: Seq<ItemView>,
}

impl View for FeedState {
    type V = StateView;

    open spec fn view(&self) -> StateView {
        StateView {
            in_item: self.in_item,
            tag: self.tag@,
            current: self.current@,
            items: item_views(self.items@),
        }
    }
}

/// An item of which nothing has been read.
pub open spec fn blank_item() -> ItemView {
    ItemView { title: Seq::empty(), link: Seq::empty(), pub_date: Seq::empty() }
}

/// The state before the first event.
pub open spec fn initial_state() -> StateView {
    StateView { in_item: false, tag: Seq::empty(), current: blank_item(), items: Seq::empty() }
}

/// An item once `text` has been read in the element `tag`.
pub open spec fn with_text(item: ItemView, tag: Seq<char>, text: Seq<char>) -> ItemView {
    if tag == "title"@ {
        ItemView { title: item.title + text, ..item }
    } else if tag == "link"@ {
        ItemView { link: item.link + text, ..item }
    } else if tag == "pubDate"@ {
        ItemView { pub_date: item.pub_date + text, ..item }
    } else {
        item
    }
}

/// The state after the start of an element.
pub open spec fn after_start(state: StateView, name: Seq<char>) -> StateView {
    if name == "item"@ {
        StateView { in_item: true, tag: name, current: blank_item(), ..state }
    } else if state.in_item {
        StateView { tag: name, ..state }
    } else {
        state
    }
}

/// The state after a text.
pub open spec fn after_text(state: StateView, text: Seq<char>) -> StateView {
    if state.in_item {
        StateView { current: with_text(state.current, state.tag, text), ..state }
    } else {
        state
    }
}

/// The state after the end of an element: the end of an item keeps it if it has a title and a
/// link.
pub open spec fn after_end(state: StateView, name: Seq<char>) -> StateView {
    if name == "item"@ {
        StateView {
            in_item: false,
            items: if state.current.title.len() > 0 && state.current.link.len() > 0 {
                state.items.push(state.current)
            } else {
                state.items
            },
            ..state
        }
    } else if state.in_item {
        StateView { tag: Seq::empty(), ..state }
    } else {
        state
    }
}

/// The state after an event: an unreadable text adds nothing, nor does anything that is
/// neither a tag nor a text.
pub open spec fn after_event(state: StateView, event: FeedEvent<Seq<char>>) -> StateView {
    match event {
        FeedEvent::Start(name) => after_start(state, name),
        FeedEvent::Text(text) => after_text(state, text),
        FeedEvent::CData(text) => after_text(state, text),
        FeedEvent::End(name) => after_end(state, name),
        _ => state,
    }
}

/// The state after a list of events, of which those behind a breach of the rules do not count.
pub open spec fn after_events(
    state: StateView,
    events: Seq<FeedEvent<Seq<char>>>,
) -> StateView
    decreases events.len(),
{
    if events.len() == 0 || events[0] is Malformed {
        state
    } else {
        after_events(after_event(state, events[0]), events.drop_first())
    }
}

/// The items that the events of a feed make up.
pub open spec fn items_of(events: Seq<FeedEvent<Seq<char>>>) -> Seq<ItemView> {
    after_events(initial_state(), events).items
}

impl FeedItem {
    /// An item of which nothing has been read.
    fn blank() -> (res: FeedItem)
        ensures
            res@ == blank_item(),
    {
        FeedItem { title: String::new(), link: String::new(), pub_date: String::new() }
    }

    /// Takes up a text of the element `tag`.
    fn add_text(&mut self, tag: &str, text: &str)
        ensures
            final(self)@ == with_text(old(self)@, tag@, text@),
    {
        proof {
            reveal_strlit("title");
            reveal_strlit("link");
            reveal_strlit("pubDate");
            assert("title"@.len() == 5 && "link"@.len() == 4 && "pubDate"@.len() == 7);
        }
        if same_text(tag, "title") {
            self.title.append(text);
        } else if same_text(tag, "link") {
            self.link.append(text);
        } else if same_text(tag, "pubDate") {
            self.pub_date.append(text);
        }
    }
}

impl FeedState {
    /// The state before the first event.
    pub fn new() -> (res: FeedState)
        ensures
            res@ == initial_state(),
    {
        let res = FeedState {
            in_item: false,
            tag: String::new(),
            current: FeedItem::blank(),
            items: Vec::new(),
        };
        assert(res@.items =~= Seq::<ItemView>::empty());
        res
    }

    /// Takes up the next event.
    pub fn step(&mut self, event: &FeedEvent<String>)
        ensures
            final(self)@ == after_event(old(self)@, event@),
    {
        match event {
            FeedEvent::Start(name) => {
                if same_text(name.as_str(), "item") {
                    self.in_item = true;
                    self.current = FeedItem::blank();
                }
                if self.in_item {
                    self.tag = name.clone();
                }
            },
            FeedEvent::Text(text) => {
                if self.in_item {
                    self.current.add_text(self.tag.as_str(), text.as_str());
                }
            },
            FeedEvent::CData(text) => {
                if self.in_item {
                    self.current.add_text(self.tag.as_str(), text.as_str());
                }
            },
            FeedEvent::End(name) => {
                if same_text(name.as_str(), "item") {
                    self.in_item = false;
                    if !self.current.title.as_str().is_empty() && !self.current.link.as_str().is_empty() {
                        let item = FeedItem {
                            title: self.current.title.clone(),
                            link: self.current.link.clone(),
                            pub_date: self.current.pub_date.clone(),
                        };
                        self.items.push(item);
                        assert(item_views(self.items@) =~= item_views(old(self).items@).push(
                            old(self).current@,
                        ));
                    }
                }
                if self.in_item {
                    self.tag = String::new();
                }
            },
            _ => {},
        }
    }
}

/// Reads the items of a feed from its XML.
pub fn read_items(document: &str) -> (res: Vec<FeedItem>)
    ensures
        item_views(res@) == items_of(xml_events(document@, true)),
{
    let mut reader = open_reader(document, true);
    let mut state = FeedState::new();
    let ghost events = xml_events(document@, true);
    loop
        invariant_except_break
            after_events(state@, pending_events(reader)) == after_events(initial_state(), events),
        invariant
            events == xml_events(document@, true),
        ensures
            state@ == after_events(initial_state(), events),
        decreases pending_events(reader).len(),
    {
        let event = next_event(&mut reader);
        match &event {
            FeedEvent::Eof => {
                break;
            },
            FeedEvent::Malformed => {
                break;
            },
            _ => {
                state.step(&event);
            },
        }
    }
    state.items
}

/// The row of the store that an item makes.
pub open spec fn row_of(item: ItemView) -> FeedRowView {
    FeedRowView {
        id: slug_of(item.link),
        title: item.title,
        post_url: item.link,
        published: date_of(item),
    }
}

/// The point in time at which an item was published, where its date can be read.
pub open spec fn date_of(item: ItemView) -> Option<Moment> {
    moment_of(rfc2822_fields(item.pub_date))
}

/// The values of a list of rows.
pub open spec fn row_views(rows: Seq<FeedRow>) -> Seq<FeedRowView> {
    Seq::new(rows.len(), |i: int| rows[i]@)
}

/// The rows of the store that a list of items makes.
pub open spec fn rows_of(items: Seq<ItemView>) -> Seq<FeedRowView> {
    Seq::new(items.len(), |i: int| row_of(items[i]))
}

/// Whether `oldest` is the earliest date among those of `items`; none where no item has one.
pub open spec fn is_oldest(items: Seq<ItemView>, oldest: Option<Moment>) -> bool {
    match oldest {
        Some(first) => {
            &&& exists|i: int| 0 <= i < items.len() && date_of(#[trigger] items[i]) == Some(first)
            &&& forall|i: int|
                0 <= i < items.len() ==> (date_of(#[trigger] items[i]) matches Some(date)
                    ==> first.no_later(date))
        },
        None => forall|i: int| 0 <= i < items.len() ==> date_of(#[trigger] items[i]) is None,
    }
}

/// What a feed brings: rows for the store, and the oldest of their dates.
#[derive(Debug, PartialEq, Eq)]
pub struct FeedBatch {
    pub rows: Vec<FeedRow>,
    pub oldest: Option<Moment>,
}

/// Whether the calendar reaches the date of each row.
pub open spec fn all_valid(rows: Seq<FeedRowView>) -> bool {
    forall|i: int| 0 <= i < rows.len() ==> (#[trigger] rows[i]).valid()
}

/// Turns the items of a feed into rows for the store, and finds the oldest of their dates.
pub fn batch_of(items: &Vec<FeedItem>) -> (res: FeedBatch)
    ensures
        row_views(res.rows@) == rows_of(item_views(items@)),
        all_valid(row_views(res.rows@)),
        is_oldest(item_views(items@), res.oldest),
{
    let mut rows: Vec<FeedRow> = Vec::new();
    let mut oldest: Option<Moment> = None;
    let mut i: usize = 0;
    let ghost views = item_views(items@);
    while i < items.len()
        invariant
            i <= items@.len(),
            views == item_views(items@),
            row_views(rows@) == rows_of(views.take(i as int)),
            all_valid(row_views(rows@)),
            is_oldest(views.take(i as int), oldest),
        decreases items@.len() - i,
    {
        let item = &items[i];
        let date = Moment::from_rfc2822(item.pub_date.as_str());
        let ghost before = oldest;
        if let Some(moment) = date {
            match oldest {
                Some(first) => {
                    if !first.is_no_later(&moment) {
                        oldest = Some(moment);
                    }
                },
                None => {
                    oldest = Some(moment);
                },
            }
        }
        let row = FeedRow {
            id: slug(item.link.as_str()),
            title: item.title.clone(),
            post_url: item.link.clone(),
            published: date,
        };
        assert(row@ == row_of(item@));
        let ghost old_rows = rows@;
        rows.push(row);
        proof {
            let short = views.take(i as int);
            let long = views.take(i + 1);
            assert(long[i as int] == item@);
            assert(forall|k: int| 0 <= k < i ==> #[trigger] long[k] == short[k]);
            assert(row_views(old_rows).len() == rows_of(short).len());
            assert(old_rows.len() == i);
            assert forall|k: int| 0 <= k < long.len() implies #[trigger] row_views(rows@)[k]
                == rows_of(long)[k] by {
                if k < i {
                    assert(row_views(old_rows)[k] == rows_of(short)[k]);
                }
            }
            assert(row_views(rows@) =~= rows_of(long));
            assert(row_views(rows@) =~= row_views(old_rows).push(row@));
            match oldest {
                Some(first) => {
                    if before == oldest {
                        let k = choose|k: int|
                            0 <= k < short.len() && date_of(#[trigger] short[k]) == Some(first);
                        assert(long[k] == short[k]);
                    } else {
                        assert(date_of(long[i as int]) == Some(first));
                    }
                },
                None => {},
            }
        }
        i = i + 1;
    }
    assert(views.take(i as int) =~= views);
    FeedBatch { rows, oldest }
}

/// Reads a feed from its XML: rows for the store, and the oldest of their dates.
pub fn read_feed(document: &str) -> (res: FeedBatch)
    ensures
        row_views(res.rows@) == rows_of(items_of(xml_events(document@, true))),
        all_valid(row_views(res.rows@)),
        is_oldest(items_of(xml_events(document@, true)), res.oldest),
{
    let items = read_items(document);
    batch_of(&items)
}

/// The dates of the items leave no choice of the oldest one.
pub proof fn oldest_date_is_determined(
    items: Seq<ItemView>,
    first: Option<Moment>,
    second: Option<Moment>,
)
    requires
        is_oldest(items, first),
        is_oldest(items, second),
    ensures
        first == second,
{
}

/// Events read one part after another lead where they lead in one go.
pub proof fn events_in_parts(
    state: StateView,
    first: Seq<FeedEvent<Seq<char>>>,
    second: Seq<FeedEvent<Seq<char>>>,
)
    requires
        forall|i: int| 0 <= i < first.len() ==> !(#[trigger] first[i] is Malformed),
    ensures
        after_events(state, first + second) == after_events(after_events(state, first), second),
    decreases first.len(),
{
    if first.len() == 0 {
        assert(first + second =~= second);
    } else {
        assert((first + second).drop_first() =~= first.drop_first() + second);
        assert forall|i: int| 0 <= i < first.drop_first().len() implies !(
        #[trigger] first.drop_first()[i] is Malformed) by {
            assert(first[i + 1] == first.drop_first()[i]);
        }
        events_in_parts(after_event(state, first[0]), first.drop_first(), second);
    }
}

/// What stands behind a breach of the rules of XML does not count.
pub proof fn nothing_counts_behind_a_breach(
    state: StateView,
    before: Seq<FeedEvent<Seq<char>>>,
    behind: Seq<FeedEvent<Seq<char>>>,
)
    ensures
        after_events(state, before.push(FeedEvent::Malformed) + behind) == after_events(
            state,
            before,
        ),
    decreases before.len(),
{
    let all = before.push(FeedEvent::Malformed) + behind;
    if before.len() > 0 {
        assert(all[0] == before[0]);
        assert(all.drop_first() =~= before.drop_first().push(FeedEvent::Malformed) + behind);
        nothing_counts_behind_a_breach(after_event(state, before[0]), before.drop_first(), behind);
    }
}

/// Whether each item has a title and a link.
pub open spec fn all_complete(items: Seq<ItemView>) -> bool {
    forall|i: int|
        0 <= i < items.len() ==> (#[trigger] items[i]).title.len() > 0 && items[i].link.len() > 0
}

proof fn lemma_items_complete(state: StateView, events: Seq<FeedEvent<Seq<char>>>)
    requires
        all_complete(state.items),
    ensures
        all_complete(after_events(state, events).items),
    decreases events.len(),
{
    if events.len() > 0 && !(events[0] is Malformed) {
        let next = after_event(state, events[0]);
        assert(all_complete(next.items));
        lemma_items_complete(next, events.drop_first());
    }
}

/// Every item that is read from a feed has a title and a link.
pub proof fn items_have_title_and_link(events: Seq<FeedEvent<Seq<char>>>)
    ensures
        all_complete(items_of(events)),
{
    lemma_items_complete(initial_state(), events);
}

/// The events of an element that holds nothing but a text.
pub open spec fn text_element(name: Seq<char>, text: Seq<char>) -> Seq<FeedEvent<Seq<char>>> {
    seq![FeedEvent::Start(name), FeedEvent::Text(text), FeedEvent::End(name)]
}

/// The events of an item with a title, a link and a date.
pub open spec fn item_element(item: ItemView) -> Seq<FeedEvent<Seq<char>>> {
    seq![FeedEvent::Start("item"@)] + text_element("title"@, item.title) + text_element(
        "link"@,
        item.link,
    ) + text_element("pubDate"@, item.pub_date) + seq![FeedEvent::End("item"@)]
}

proof fn lemma_text_element(state: StateView, name: Seq<char>, text: Seq<char>)
    requires
        state.in_item,
        name != "item"@,
    ensures
        after_events(state, text_element(name, text)) == (StateView {
            tag: Seq::empty(),
            current: with_text(state.current, name, text),
            ..state
        }),
{
    reveal_with_fuel(after_events, 4);
    let events = text_element(name, text);
    assert(events.drop_first() =~= seq![FeedEvent::Text(text), FeedEvent::End(name)]);
    assert(events.drop_first().drop_first() =~= seq![FeedEvent::End(name)]);
    assert(events.drop_first().drop_first().drop_first() =~= Seq::<
        FeedEvent<Seq<char>>,
    >::empty());
}

/// An item in a feed is read as it stands there, whatever was read before it.
pub proof fn items_are_read_as_they_stand(state: StateView, item: ItemView)
    requires
        item.title.len() > 0,
        item.link.len() > 0,
    ensures
        after_events(state, item_element(item)).items == state.items.push(item),
        !after_events(state, item_element(item)).in_item,
{
    reveal_strlit("item");
    reveal_strlit("title");
    reveal_strlit("link");
    reveal_strlit("pubDate");
    assert("item"@[0] == 'i' && "title"@[0] == 't' && "link"@[0] == 'l' && "pubDate"@[0] == 'p');
    let start: Seq<FeedEvent<Seq<char>>> = seq![FeedEvent::Start("item"@)];
    let title = text_element("title"@, item.title);
    let link = text_element("link"@, item.link);
    let date = text_element("pubDate"@, item.pub_date);
    let end: Seq<FeedEvent<Seq<char>>> = seq![FeedEvent::End("item"@)];
    let s1 = after_events(state, start);
    assert(s1 == after_start(state, "item"@)) by {
        reveal_with_fuel(after_events, 2);
        assert(start.drop_first() =~= Seq::<FeedEvent<Seq<char>>>::empty());
    }
    let s2 = after_events(s1, title);
    lemma_text_element(s1, "title"@, item.title);
    let s3 = after_events(s2, link);
    lemma_text_element(s2, "link"@, item.link);
    let s4 = after_events(s3, date);
    lemma_text_element(s3, "pubDate"@, item.pub_date);
    assert(s4.current =~= item) by {
        assert(Seq::<char>::empty() + item.title =~= item.title);
        assert(Seq::<char>::empty() + item.link =~= item.link);
        assert(Seq::<char>::empty() + item.pub_date =~= item.pub_date);
    }
    assert(after_events(s4, end) == after_end(s4, "item"@)) by {
        reveal_with_fuel(after_events, 2);
        assert(end.drop_first() =~= Seq::<FeedEvent<Seq<char>>>::empty());
    }
    events_in_parts(state, start, title);
    events_in_parts(state, start + title, link);
    events_in_parts(state, start + title + link, date);
    events_in_parts(state, start + title + link + date, end);
}

/// Whether an event is no tag and no end: a text, readable or not, or something that is neither
/// tag nor text.
pub open spec fn is_content(event: FeedEvent<Seq<char>>) -> bool {
    event is Text || event is CData || event is Unreadable || event is Other
}

/// The texts among some events, one after another.
pub open spec fn content_text(content: Seq<FeedEvent<Seq<char>>>) -> Seq<char>
    decreases content.len(),
{
    if content.len() == 0 {
        Seq::empty()
    } else {
        content_text(content.drop_last()) + match content.last() {
            FeedEvent::Text(text) => text,
            FeedEvent::CData(text) => text,
            _ => Seq::empty(),
        }
    }
}

/// An element of an item: its name, and the events between its tags.
pub struct FeedElement {
    pub name: Seq<char>,
    pub content: Seq<FeedEvent<Seq<char>>>,
}

/// Whether an element is none that begins another item, and has no element inside.
pub open spec fn is_plain(element: FeedElement) -> bool {
    element.name != "item"@ && forall|i: int|
        0 <= i < element.content.len() ==> is_content(#[trigger] element.content[i])
}

/// The events of an element.
pub open spec fn element_events(element: FeedElement) -> Seq<FeedEvent<Seq<char>>> {
    seq![FeedEvent::Start(element.name)] + element.content + seq![FeedEvent::End(element.name)]
}

/// The events of some elements, one after another.
pub open spec fn elements_events(elements: Seq<FeedElement>) -> Seq<FeedEvent<Seq<char>>>
    decreases elements.len(),
{
    if elements.len() == 0 {
        Seq::empty()
    } else {
        elements_events(elements.drop_last()) + element_events(elements.last())
    }
}

/// The text of the elements of one name, one after another.
pub open spec fn field_text(elements: Seq<FeedElement>, name: Seq<char>) -> Seq<char>
    decreases elements.len(),
{
    if elements.len() == 0 {
        Seq::empty()
    } else if elements.last().name == name {
        field_text(elements.drop_last(), name) + content_text(elements.last().content)
    } else {
        field_text(elements.drop_last(), name)
    }
}

/// Outside an item nothing changes until one begins or ends, and what is neither tag nor readable
/// text changes nothing anywhere.
pub proof fn nothing_counts_outside_items(state: StateView, event: FeedEvent<Seq<char>>)
    ensures
        !state.in_item && event != FeedEvent::Start("item"@) && event != FeedEvent::End("item"@)
            ==> after_event(state, event) == state,
        event is Other || event is Unreadable || event is Malformed || event is Eof ==> after_event(
            state,
            event,
        ) == state,
{
}

/// Tags one by one: the start of an item begins it anew, with nothing read; another start in an
/// item tells where texts belong, and another end that they belong nowhere; the end of an item
/// keeps it, behind those before it, exactly where it has a title and a link.
pub proof fn tags_one_by_one(state: StateView, name: Seq<char>)
    ensures
        ({
            let next = after_event(state, FeedEvent::Start("item"@));
            &&& next.in_item && next.tag == "item"@ && next.items == state.items
            &&& next.current.title.len() == 0 && next.current.link.len() == 0
            &&& next.current.pub_date.len() == 0
        }),
        ({
            let next = after_event(state, FeedEvent::End("item"@));
            &&& !next.in_item
            &&& state.current.title.len() > 0 && state.current.link.len() > 0 ==> next.items
                == state.items.push(state.current)
            &&& state.current.title.len() == 0 || state.current.link.len() == 0 ==> next.items
                == state.items
        }),
        state.in_item && name != "item"@ ==> {
            let next = after_event(state, FeedEvent::Start(name));
            &&& next.in_item && next.tag == name
            &&& next.current == state.current && next.items == state.items
        },
        state.in_item && name != "item"@ ==> {
            let next = after_event(state, FeedEvent::End(name));
            &&& next.in_item && next.tag.len() == 0
            &&& next.current == state.current && next.items == state.items
        },
{
}

/// Texts one by one: in an item a text, marked up or in a CDATA section, is added to the title,
/// the link or the date where it belongs there, and to nothing else; where it belongs elsewhere
/// or nowhere, it adds nothing.
pub proof fn texts_one_by_one(state: StateView, text: Seq<char>)
    requires
        state.in_item,
    ensures
        ({
            let next = after_event(state, FeedEvent::Text(text));
            &&& next == after_event(state, FeedEvent::CData(text))
            &&& next.in_item && next.tag == state.tag && next.items == state.items
            &&& next.current.title == (if state.tag == "title"@ {
                state.current.title + text
            } else {
                state.current.title
            })
            &&& next.current.link == (if state.tag == "link"@ {
                state.current.link + text
            } else {
                state.current.link
            })
            &&& next.current.pub_date == (if state.tag == "pubDate"@ {
                state.current.pub_date + text
            } else {
                state.current.pub_date
            })
        }),
{
    reveal_strlit("title");
    reveal_strlit("link");
    reveal_strlit("pubDate");
    assert("title"@.len() == 5 && "link"@.len() == 4 && "pubDate"@.len() == 7);
}

proof fn lemma_one_event(state: StateView, event: FeedEvent<Seq<char>>)
    requires
        !(event is Malformed),
    ensures
        after_events(state, seq![event]) == after_event(state, event),
{
    reveal_with_fuel(after_events, 2);
    assert(seq![event].drop_first() =~= Seq::<FeedEvent<Seq<char>>>::empty());
}

proof fn lemma_content(state: StateView, content: Seq<FeedEvent<Seq<char>>>)
    requires
        state.in_item,
        forall|i: int| 0 <= i < content.len() ==> is_content(#[trigger] content[i]),
    ensures
        ({
            let after = after_events(state, content);
            let text = content_text(content);
            &&& after.in_item && after.tag == state.tag && after.items == state.items
            &&& after.current.title == (if state.tag == "title"@ {
                state.current.title + text
            } else {
                state.current.title
            })
            &&& after.current.link == (if state.tag == "link"@ {
                state.current.link + text
            } else {
                state.current.link
            })
            &&& after.current.pub_date == (if state.tag == "pubDate"@ {
                state.current.pub_date + text
            } else {
                state.current.pub_date
            })
        }),
    decreases content.len(),
{
    let item = state.current;
    if content.len() == 0 {
        assert(item.title + content_text(content) =~= item.title);
        assert(item.link + content_text(content) =~= item.link);
        assert(item.pub_date + content_text(content) =~= item.pub_date);
    } else {
        let front = content.drop_last();
        let last = content.last();
        assert forall|i: int| 0 <= i < front.len() implies is_content(#[trigger] front[i]) by {
            assert(front[i] == content[i]);
        }
        assert(content[content.len() - 1] == last);
        lemma_content(state, front);
        assert(front + seq![last] =~= content);
        events_in_parts(state, front, seq![last]);
        let before = after_events(state, front);
        lemma_one_event(before, last);
        nothing_counts_outside_items(before, last);
        let piece: Seq<char> = match last {
            FeedEvent::Text(text) => text,
            FeedEvent::CData(text) => text,
            _ => Seq::empty(),
        };
        texts_one_by_one(before, piece);
        let text = content_text(front);
        assert(item.title + text + piece =~= item.title + (text + piece));
        assert(item.link + text + piece =~= item.link + (text + piece));
        assert(item.pub_date + text + piece =~= item.pub_date + (text + piece));
        assert(item.title + text + Seq::<char>::empty() =~= item.title + text);
        assert(item.link + text + Seq::<char>::empty() =~= item.link + text);
        assert(item.pub_date + text + Seq::<char>::empty() =~= item.pub_date + text);
    }
}

/// Reading an element inside an item adds its text to the title, the link or the date of the
/// item, by the element's name; an element of any other name leaves all three as they were.
pub proof fn elements_add_to_their_field(state: StateView, element: FeedElement)
    requires
        state.in_item,
        is_plain(element),
    ensures
        ({
            let after = after_events(state, element_events(element));
            let text = content_text(element.content);
            &&& after.in_item && after.tag.len() == 0 && after.items == state.items
            &&& after.current.title == (if element.name == "title"@ {
                state.current.title + text
            } else {
                state.current.title
            })
            &&& after.current.link == (if element.name == "link"@ {
                state.current.link + text
            } else {
                state.current.link
            })
            &&& after.current.pub_date == (if element.name == "pubDate"@ {
                state.current.pub_date + text
            } else {
                state.current.pub_date
            })
        }),
{
    let start: Seq<FeedEvent<Seq<char>>> = seq![FeedEvent::Start(element.name)];
    let end: Seq<FeedEvent<Seq<char>>> = seq![FeedEvent::End(element.name)];
    lemma_one_event(state, FeedEvent::Start(element.name));
    tags_one_by_one(state, element.name);
    let s1 = after_events(state, start);
    lemma_content(s1, element.content);
    let s2 = after_events(s1, element.content);
    lemma_one_event(s2, FeedEvent::End(element.name));
    tags_one_by_one(s2, element.name);
    events_in_parts(state, start, element.content);
    assert forall|i: int| 0 <= i < (start + element.content).len() implies !(
    #[trigger] (start + element.content)[i] is Malformed) by {
        if i > 0 {
            assert(is_content(element.content[i - 1]));
        }
    }
    events_in_parts(state, start + element.content, end);
}

/// Elements of other names than the title, the link and the date add nothing to an item.
pub proof fn other_elements_add_nothing(state: StateView, element: FeedElement)
    requires
        state.in_item,
        is_plain(element),
        element.name != "title"@,
        element.name != "link"@,
        element.name != "pubDate"@,
    ensures
        after_events(state, element_events(element)).current == state.current,
        after_events(state, element_events(element)).items == state.items,
        after_events(state, element_events(element)).in_item,
{
    elements_add_to_their_field(state, element);
}

proof fn lemma_elements_readable(elements: Seq<FeedElement>)
    requires
        forall|i: int| 0 <= i < elements.len() ==> is_plain(#[trigger] elements[i]),
    ensures
        forall|i: int|
            0 <= i < elements_events(elements).len() ==> !(#[trigger] elements_events(elements)[i]
                is Malformed),
    decreases elements.len(),
{
    if elements.len() > 0 {
        let front = elements.drop_last();
        let last = elements.last();
        assert forall|i: int| 0 <= i < front.len() implies is_plain(#[trigger] front[i]) by {
            assert(front[i] == elements[i]);
        }
        assert(is_plain(elements[elements.len() - 1]));
        lemma_elements_readable(front);
        let head = elements_events(front);
        let all = elements_events(elements);
        assert forall|i: int| 0 <= i < all.len() implies !(#[trigger] all[i] is Malformed) by {
            if i < head.len() {
                assert(all[i] == head[i]);
            } else {
                let k = i - head.len();
                assert(all[i] == element_events(last)[k]);
                if 0 < k <= last.content.len() {
                    assert(is_content(last.content[k - 1]));
                }
            }
        }
    }
}

proof fn lemma_elements(state: StateView, elements: Seq<FeedElement>)
    requires
        state.in_item,
        forall|i: int| 0 <= i < elements.len() ==> is_plain(#[trigger] elements[i]),
    ensures
        ({
            let after = after_events(state, elements_events(elements));
            &&& after.in_item && after.items == state.items
            &&& after.current.title == state.current.title + field_text(elements, "title"@)
            &&& after.current.link == state.current.link + field_text(elements, "link"@)
            &&& after.current.pub_date == state.current.pub_date + field_text(elements, "pubDate"@)
        }),
    decreases elements.len(),
{
    let item = state.current;
    if elements.len() == 0 {
        assert(item.title + Seq::<char>::empty() =~= item.title);
        assert(item.link + Seq::<char>::empty() =~= item.link);
        assert(item.pub_date + Seq::<char>::empty() =~= item.pub_date);
    } else {
        let front = elements.drop_last();
        let last = elements.last();
        assert forall|i: int| 0 <= i < front.len() implies is_plain(#[trigger] front[i]) by {
            assert(front[i] == elements[i]);
        }
        assert(is_plain(elements[elements.len() - 1]));
        lemma_elements(state, front);
        lemma_elements_readable(front);
        events_in_parts(state, elements_events(front), element_events(last));
        elements_add_to_their_field(after_events(state, elements_events(front)), last);
        let text = content_text(last.content);
        assert(item.title + field_text(front, "title"@) + text =~= item.title + (field_text(
            front,
            "title"@,
        ) + text));
        assert(item.link + field_text(front, "link"@) + text =~= item.link + (field_text(
            front,
            "link"@,
        ) + text));
        assert(item.pub_date + field_text(front, "pubDate"@) + text =~= item.pub_date + (field_text(
            front,
            "pubDate"@,
        ) + text));
    }
}

/// An item is read from its elements, whatever their order and number and whatever was read
/// before: its title, its link and its date are the texts of the elements of these names, and no
/// other element has a part in it. It is kept, behind the items before it, exactly where it has a
/// title and a link.
pub proof fn items_are_read_from_their_elements(state: StateView, elements: Seq<FeedElement>)
    requires
        forall|i: int| 0 <= i < elements.len() ==> is_plain(#[trigger] elements[i]),
    ensures
        ({
            let after = after_events(
                state,
                seq![FeedEvent::Start("item"@)] + elements_events(elements) + seq![
                    FeedEvent::End("item"@),
                ],
            );
            let item = ItemView {
                title: field_text(elements, "title"@),
                link: field_text(elements, "link"@),
                pub_date: field_text(elements, "pubDate"@),
            };
            &&& !after.in_item
            &&& item.title.len() > 0 && item.link.len() > 0 ==> after.items == state.items.push(
                item,
            )
            &&& item.title.len() == 0 || item.link.len() == 0 ==> after.items == state.items
        }),
{
    let start: Seq<FeedEvent<Seq<char>>> = seq![FeedEvent::Start("item"@)];
    let end: Seq<FeedEvent<Seq<char>>> = seq![FeedEvent::End("item"@)];
    let inner = elements_events(elements);
    lemma_one_event(state, FeedEvent::Start("item"@));
    tags_one_by_one(state, "item"@);
    let s1 = after_events(state, start);
    lemma_elements(s1, elements);
    let s2 = after_events(s1, inner);
    lemma_one_event(s2, FeedEvent::End("item"@));
    tags_one_by_one(s2, "item"@);
    events_in_parts(state, start, inner);
    lemma_elements_readable(elements);
    assert forall|i: int| 0 <= i < (start + inner).len() implies !(#[trigger] (start + inner)[i]
        is Malformed) by {
        if i > 0 {
            assert(!(inner[i - 1] is Malformed));
        }
    }
    events_in_parts(state, start + inner, end);
    let title = field_text(elements, "title"@);
    let link = field_text(elements, "link"@);
    let date = field_text(elements, "pubDate"@);
    assert(s1.current.title + title =~= title);
    assert(s1.current.link + link =~= link);
    assert(s1.current.pub_date + date =~= date);
    assert(s2.current == (ItemView { title, link, pub_date: date }));
}

/// A feed begins outside any item and with nothing read, and its items are those that its events
/// lead to.
pub proof fn feeds_begin_with_nothing(events: Seq<FeedEvent<Seq<char>>>)
    ensures
        !initial_state().in_item,
        initial_state().tag.len() == 0,
        initial_state().items.len() == 0,
        initial_state().current.title.len() == 0,
        initial_state().current.link.len() == 0,
        initial_state().current.pub_date.len() == 0,
        items_of(events) == after_events(initial_state(), events).items,
{
}

/// Every item makes one row, in order: with the item's title, its link as the address, the
/// identifier that the link ends in, and the point in time that its date tells, if any.
pub proof fn every_item_makes_its_row(items: Seq<ItemView>)
    ensures
        rows_of(items).len() == items.len(),
        forall|i: int|
            0 <= i < items.len() ==> {
                let row = #[trigger] rows_of(items)[i];
                &&& row.title == items[i].title
                &&& row.post_url == items[i].link
                &&& row.id == slug_of(items[i].link)
                &&& row.published == moment_of(rfc2822_fields(items[i].pub_date))
            },
{
}

/// The oldest date is one of the dates of the items, and no later than any of them; there is
/// none exactly where no item has a date that can be read.
pub proof fn oldest_date_is_no_later(items: Seq<ItemView>, oldest: Option<Moment>, i: int)
    requires
        is_oldest(items, oldest),
    ensures
        0 <= i < items.len() ==> (moment_of(rfc2822_fields(items[i].pub_date)) matches Some(date)
            ==> (oldest matches Some(first) && first.no_later(date))),
        oldest matches Some(first) ==> exists|k: int|
            0 <= k < items.len() && moment_of(rfc2822_fields((#[trigger] items[k]).pub_date))
                == Some(first),
{
    if 0 <= i < items.len() {
        assert(date_of(items[i]) == moment_of(rfc2822_fields(items[i].pub_date)));
    }
    if let Some(first) = oldest {
        let k = choose|k: int|
            0 <= k < items.len() && date_of(#[trigger] items[k]) == Some(first);
        assert(moment_of(rfc2822_fields(items[k].pub_date)) == Some(first));
    }
}

/// The values of events, items, rows and states are those of their fields, one by one and in
/// order.
pub proof fn feed_values_are_kept(
    event: FeedEvent<String>,
    item: FeedItem,
    items: Seq<FeedItem>,
    rows: Seq<FeedRow>,
    state: FeedState,
)
    ensures
        event matches FeedEvent::Start(name) ==> event@ == FeedEvent::Start(name@),
        event matches FeedEvent::Text(text) ==> event@ == FeedEvent::Text(text@),
        event matches FeedEvent::CData(text) ==> event@ == FeedEvent::CData(text@),
        event matches FeedEvent::End(name) ==> event@ == FeedEvent::End(name@),
        event is Unreadable ==> event@ is Unreadable,
        event is Other ==> event@ is Other,
        event is Malformed ==> event@ is Malformed,
        event is Eof ==> event@ is Eof,
        item@.title == item.title@,
        item@.link == item.link@,
        item@.pub_date == item.pub_date@,
        item_views(items).len() == items.len(),
        forall|i: int| 0 <= i < items.len() ==> #[trigger] item_views(items)[i] == items[i]@,
        row_views(rows).len() == rows.len(),
        forall|i: int| 0 <= i < rows.len() ==> #[trigger] row_views(rows)[i] == rows[i]@,
        state@.in_item == state.in_item,
        state@.tag == state.tag@,
        state@.current == state.current@,
        state@.items == item_views(state.items@),
{
}

/// The address of the feed letter for letter.
pub proof fn feed_address_letter_for_letter()
    ensures
        FEED_URL@ == "https://fitgirl-repacks.site/feed/"@,
{
}

} // verus!
