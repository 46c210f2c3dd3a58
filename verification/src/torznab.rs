//! The Torznab interface: what is asked for, what a search has to find out about each game, and
//! the XML of the answers.
use vstd::prelude::*;
use vstd::string::*;

use crate::magnet::hash_bytes;
#[allow(unused_imports)]
use crate::magnet::{
    case_does_not_change_the_bytes, hash_bytes_of, hex_bytes, hex_value, is_hex,
    magnet_link_has_its_hash,
};
use crate::moment::mail_date;
#[allow(unused_imports)]
use crate::moment::{mail_date_of, rfc2822_text, rfc3339_fields};
#[allow(unused_imports)]
use crate::patterns::is_alnum;
use crate::provider::{apply_metadata, copy_entry, needs_fetch, GameEntry, Metadata};
#[allow(unused_imports)]
use crate::provider::{
    after_fetch, fetch_is_due, opt_entry, opt_metadata, EntryView, MetadataView,
};
use crate::scrape::{best_health, ScrapeResult};
#[allow(unused_imports)]
use crate::scrape::is_best_health;
use crate::text::{append_decimal, append_signed, same_text};
#[allow(unused_imports)]
use crate::text::{
    decimal, decimals_read_back, digits_value, opt_str, part_from_end, parts_count_from_the_end,
    signed_decimal, signed_decimals_read_back,
};

verus! {

/// The content type of documents that are no feed.
pub const XML: &'static str = "application/xml";

/// The content type of a feed.
pub const RSS: &'static str = "application/rss+xml";

/// What this indexer can do.
pub const CAPS: &'static str =
    "<?xml version=\"1.0\" encoding=\"UTF-8\"?>\n<caps>\n  <server version=\"1.0\" title=\"Fitnab\" />\n  <searching>\n    <search available=\"yes\" supportedParams=\"q\" />\n    <tv-search available=\"no\" />\n    <movie-search available=\"no\" />\n  </searching>\n  <categories>\n    <category id=\"4000\" name=\"PC\">\n      <subcat id=\"4050\" name=\"PC/Games\" />\n    </category>\n  </categories>\n</caps>";

/// The answer to a request of an unknown type.
pub const UNKNOWN_TYPE: &'static str = "<error>Unknown type</error>";

/// The answer to a search when the store cannot be read.
pub const STORE_ERROR: &'static str = "<error>DB Error</error>";

/// The size that is shown where none is known: one gibibyte.
pub const DEFAULT_SIZE: i64 = 1073741824;

/// The date that stands in where none is known.
pub const DEFAULT_DATE: &'static str = "2024-01-01T00:00:00Z";

/// The date that is shown where the known one cannot be read.
pub const UNREADABLE_DATE: &'static str = "Mon, 01 Jan 2024 00:00:00 +0000";

/// What a request asks for.
#[derive(Clone, Copy, Debug, PartialEq, Eq, Structural)]
pub enum RequestKind {
    /// What this indexer can do.
    Caps,
    /// A search.
    Search,
    /// Something else.
    Unknown,
}

/// What a request asks for, by its type: without one it is a search.
pub open spec fn kind_of(request_type: Option<Seq<char>>) -> RequestKind {
    match request_type {
        Some(name) => if name == "caps"@ {
            RequestKind::Caps
        } else if name == "search"@ || name.len() == 0 {
            RequestKind::Search
        } else {
            RequestKind::Unknown
        },
        None => RequestKind::Search,
    }
}

/// Finds out what a request asks for, by its type.
pub fn request_kind(request_type: Option<&str>) -> (res: RequestKind)
    ensures
        res == kind_of(opt_str(request_type)),
{
    match request_type {
        Some(name) => {
            if same_text(name, "caps") {
                RequestKind::Caps
            } else if same_text(name, "search") || name.is_empty() {
                RequestKind::Search
            } else {
                RequestKind::Unknown
            }
        },
        None => RequestKind::Search,
    }
}

/// The pattern by which the store finds the titles that hold `query`.
pub fn title_pattern(query: &str) -> (res: String)
    ensures
        res@ == "%"@ + query@ + "%"@,
{
    let mut res = "%".to_owned();
    res.append(query);
    res.append("%");
    res
}

/// A game as a search shows it.
#[derive(Debug, PartialEq, Eq)]
pub struct SearchHit {
    pub game: GameEntry,
    pub health: ScrapeResult,
}

/// A game as a search shows it, as values.
#[verifier::ext_equal]
pub struct HitView {
    pub game: EntryView,
    pub health: ScrapeResult,
}

impl View for SearchHit {
    type V = HitView;

    open spec fn view(&self) -> HitView {
        HitView { game: self.game@, health: self.health }
    }
}

/// The values of a list of hits.
pub open spec fn hit_views(hits: Seq<SearchHit>) -> Seq<HitView> {
    Seq::new(hits.len(), |i: int| hits[i]@)
}

/// What a search still has to find out about a game.
#[derive(Debug, PartialEq, Eq)]
pub enum Probe {
    /// The post of the game is to be fetched.
    Fetch { game: GameEntry },
    /// The trackers are to be asked for this hash.
    Ask { game: GameEntry, info_hash: [u8; 20] },
    /// Nothing more: the game can be shown.
    Show { hit: SearchHit },
}

/// The hash under which trackers know a game.
pub open spec fn tracker_hash(game: EntryView) -> Option<Seq<u8>> {
    match game.info_hash {
        Some(hash) => hash_bytes_of(hash),
        None => None,
    }
}

/// Whether `probe` is what is left to find out about `game` once its post needs no fetch: its
/// health, if trackers know it.
pub open spec fn is_health_probe(game: EntryView, probe: Probe) -> bool {
    match tracker_hash(game) {
        Some(hash) => probe matches Probe::Ask { game: asked, info_hash } && asked@ == game
            && info_hash@ == hash,
        None => probe matches Probe::Show { hit } && hit@ == (HitView {
            game,
            health: ScrapeResult { seeders: 0, leechers: 0 },
        }),
    }
}

/// Whether `probe` is what a search for `query` has to find out about `game` at first.
pub open spec fn is_first_probe(game: EntryView, query: Seq<char>, probe: Probe) -> bool {
    if fetch_is_due(game, query) {
        probe matches Probe::Fetch { game: fetched } && fetched@ == game
    } else {
        is_health_probe(game, probe)
    }
}

/// The game after an attempt to fetch its post: what was found is entered.
pub open spec fn after_attempt(game: EntryView, fetched: Option<MetadataView>) -> EntryView {
    match fetched {
        Some(metadata) => after_fetch(game, metadata),
        None => game,
    }
}

impl Probe {
    /// The game that the probe is about.
    pub open spec fn subject(self) -> GameEntry {
        match self {
            Probe::Fetch { game } => game,
            Probe::Ask { game, .. } => game,
            Probe::Show { hit } => hit.game,
        }
    }

    /// The game that the probe is about.
    pub fn game(&self) -> (res: &GameEntry)
        ensures
            *res == self.subject(),
    {
        match self {
            Probe::Fetch { game } => game,
            Probe::Ask { game, .. } => game,
            Probe::Show { hit } => &hit.game,
        }
    }
}

/// What is left to find out about a game once its post needs no fetch.
fn probe_health(game: GameEntry) -> (res: Probe)
    ensures
        is_health_probe(game@, res),
{
    let known = match &game.info_hash {
        Some(hash) => hash_bytes(hash.as_str()),
        None => None,
    };
    match known {
        Some(info_hash) => Probe::Ask { game, info_hash },
        None => Probe::Show {
            hit: SearchHit { game, health: ScrapeResult { seeders: 0, leechers: 0 } },
        },
    }
}

/// Begins with a game that the store has found for `query`.
pub fn probe(game: GameEntry, query: &str) -> (res: Probe)
    ensures
        is_first_probe(game@, query@, res),
{
    if needs_fetch(&game, query) {
        Probe::Fetch { game }
    } else {
        probe_health(game)
    }
}

/// Goes on with a game after an attempt to fetch its post.
pub fn probe_fetched(game: GameEntry, fetched: Option<Metadata>) -> (res: Probe)
    ensures
        is_health_probe(after_attempt(game@, opt_metadata(fetched)), res),
{
    match fetched {
        Some(metadata) => probe_health(apply_metadata(game, &metadata)),
        None => probe_health(game),
    }
}

/// What is to be stored of a game after an attempt to fetch its post: what was found, and
/// nothing where the attempt failed.
pub open spec fn stored_after_attempt(
    game: EntryView,
    fetched: Option<MetadataView>,
) -> Option<EntryView> {
    match fetched {
        Some(metadata) => Some(after_fetch(game, metadata)),
        None => None,
    }
}

/// Decides what is to be stored of a game after an attempt to fetch its post.
pub fn game_to_store(game: &GameEntry, fetched: &Option<Metadata>) -> (res: Option<GameEntry>)
    ensures
        opt_entry(res) == stored_after_attempt(game@, opt_metadata(*fetched)),
{
    match fetched {
        Some(metadata) => Some(apply_metadata(copy_entry(game), metadata)),
        None => None,
    }
}

/// Ends with a game after the trackers were asked: of their answers the one with the most
/// seeders counts.
pub fn probe_answered(game: GameEntry, replies: &Vec<ScrapeResult>) -> (res: SearchHit)
    ensures
        res.game == game,
        is_best_health(replies@, res.health),
{
    SearchHit { game, health: best_health(replies) }
}

/// What stands for a character in XML.
pub open spec fn escaped_char(c: char) -> Seq<char> {
    if c == '<' {
        "&lt;"@
    } else if c == '>' {
        "&gt;"@
    } else if c == '&' {
        "&amp;"@
    } else if c == '\'' {
        "&apos;"@
    } else if c == '"' {
        "&quot;"@
    } else {
        seq![c]
    }
}

/// A text with the characters that mean something in XML replaced.
pub open spec fn escaped(text: Seq<char>) -> Seq<char>
    decreases text.len(),
{
    if text.len() == 0 {
        Seq::empty()
    } else {
        escaped(text.drop_last()) + escaped_char(text.last())
    }
}

/// `quick_xml::escape::escape`: replaces the characters `<`, `>`, `&`, `'` and `"`, and no
/// others.
#[verifier::external_body]
fn escape(text: &str) -> (res: String)
    ensures
        res@ == escaped(text@),
{
    quick_xml::escape::escape(text).to_string()
}

/// The date of a game as a feed shows it.
pub open spec fn shown_date(published_at: Option<Seq<char>>) -> Seq<char> {
    let date = match published_at {
        Some(text) => text,
        None => DEFAULT_DATE@,
    };
    match mail_date_of(rfc3339_fields(date)) {
        Some(text) => text,
        None => UNREADABLE_DATE@,
    }
}

/// The size of a game as a feed shows it.
pub open spec fn shown_size(size_bytes: Option<i64>) -> i64 {
    match size_bytes {
        Some(size) => size,
        None => DEFAULT_SIZE,
    }
}

/// The address under which `host` hands out the download of a game.
pub open spec fn download_url(host: Seq<char>, id: Seq<char>) -> Seq<char> {
    "http://"@ + host + "/download/"@ + id
}

/// The XML of a game in a feed.
pub open spec fn item_xml(host: Seq<char>, hit: HitView) -> Seq<char> {
    let size = signed_decimal(shown_size(hit.game.size_bytes) as int);
    "\n        <item>\n            <title>"@ + escaped(hit.game.title)
        + "</title>\n            <guid>"@ + hit.game.id + "</guid>\n            <link>"@ + escaped(
        hit.game.post_url,
    ) + "</link>\n            <pubDate>"@ + shown_date(hit.game.published_at)
        + "</pubDate>\n            <size>"@ + size
        + "</size>\n            <category>4000</category>\n            <category>4050</category>\n            <torznab:attr name=\"category\" value=\"4000\" />\n            <torznab:attr name=\"category\" value=\"4050\" />\n            <torznab:attr name=\"seeders\" value=\""@
        + decimal(hit.health.seeders as nat)
        + "\" />\n            <torznab:attr name=\"peers\" value=\""@ + decimal(
        hit.health.leechers as nat,
    ) + "\" />\n            <enclosure url=\""@ + escaped(download_url(host, hit.game.id))
        + "\" length=\""@ + size + "\" type=\"application/x-bittorrent\" />\n        </item>"@
}

/// The XML of the games in a feed, one after another.
pub open spec fn items_xml(host: Seq<char>, hits: Seq<HitView>) -> Seq<char>
    decreases hits.len(),
{
    if hits.len() == 0 {
        Seq::empty()
    } else {
        items_xml(host, hits.drop_last()) + item_xml(host, hits.last())
    }
}

/// The XML of a feed with some games.
pub open spec fn feed_xml(host: Seq<char>, hits: Seq<HitView>) -> Seq<char> {
    "<?xml version=\"1.0\" encoding=\"UTF-8\"?>\n<rss version=\"2.0\" xmlns:torznab=\"http://torznab.com/schemas/2015/feed\">\n    <channel>\n        <title>Fitnab</title>\n        <description>FitGirl Torznab Indexer</description>\n        <link>http://"@
        + host + "/</link>"@ + items_xml(host, hits) + "\n    </channel>\n</rss>"@
}

/// The date of a game as a feed shows it: in RFC 2822 form.
pub fn feed_date(published_at: &Option<String>) -> (res: String)
    ensures
        res@ == shown_date(crate::text::opt_text(*published_at)),
{
    let shown = match published_at {
        Some(text) => mail_date(text.as_str()),
        None => mail_date(DEFAULT_DATE),
    };
    match shown {
        Some(text) => text,
        None => UNREADABLE_DATE.to_owned(),
    }
}

/// The XML of a game in a feed.
pub fn render_item(host: &str, hit: &SearchHit) -> (res: String)
    ensures
        res@ == item_xml(host@, hit@),
{
    let size = match hit.game.size_bytes {
        Some(size) => size,
        None => DEFAULT_SIZE,
    };
    let date = feed_date(&hit.game.published_at);
    let title = escape(hit.game.title.as_str());
    let link = escape(hit.game.post_url.as_str());
    let mut url = "http://".to_owned();
    url.append(host);
    url.append("/download/");
    url.append(hit.game.id.as_str());
    let enclosure = escape(url.as_str());

    let mut out = "\n        <item>\n            <title>".to_owned();
    out.append(title.as_str());
    out.append("</title>\n            <guid>");
    out.append(hit.game.id.as_str());
    out.append("</guid>\n            <link>");
    out.append(link.as_str());
    out.append("</link>\n            <pubDate>");
    out.append(date.as_str());
    out.append("</pubDate>\n            <size>");
    append_signed(&mut out, size);
    out.append(
        "</size>\n            <category>4000</category>\n            <category>4050</category>\n            <torznab:attr name=\"category\" value=\"4000\" />\n            <torznab:attr name=\"category\" value=\"4050\" />\n            <torznab:attr name=\"seeders\" value=\"",
    );
    append_decimal(&mut out, hit.health.seeders as u64);
    out.append("\" />\n            <torznab:attr name=\"peers\" value=\"");
    append_decimal(&mut out, hit.health.leechers as u64);
    out.append("\" />\n            <enclosure url=\"");
    out.append(enclosure.as_str());
    out.append("\" length=\"");
    append_signed(&mut out, size);
    out.append("\" type=\"application/x-bittorrent\" />\n        </item>");
    out
}

/// The XML of a feed with some games, under the name of the host that was asked.
pub fn render_feed(host: &str, hits: &Vec<SearchHit>) -> (res: String)
    ensures
        res@ == feed_xml(host@, hit_views(hits@)),
{
    let mut items = String::new();
    let mut i: usize = 0;
    let ghost views = hit_views(hits@);
    assert(views.take(0) =~= Seq::<HitView>::empty());
    while i < hits.len()
        invariant
            i <= hits@.len(),
            views == hit_views(hits@),
            items@ == items_xml(host@, views.take(i as int)),
        decreases hits@.len() - i,
    {
        let item = render_item(host, &hits[i]);
        items.append(item.as_str());
        proof {
            assert(views.take(i + 1).drop_last() =~= views.take(i as int));
            assert(views.take(i + 1).last() == hits@[i as int]@);
        }
        i = i + 1;
    }
    assert(views.take(i as int) =~= views);
    let mut out = "<?xml version=\"1.0\" encoding=\"UTF-8\"?>\n<rss version=\"2.0\" xmlns:torznab=\"http://torznab.com/schemas/2015/feed\">\n    <channel>\n        <title>Fitnab</title>\n        <description>FitGirl Torznab Indexer</description>\n        <link>http://".to_owned();
    out.append(host);
    out.append("/</link>");
    out.append(items.as_str());
    out.append("\n    </channel>\n</rss>");
    out
}

/// An answer: its content type and its text.
#[derive(Debug, PartialEq, Eq)]
pub struct Reply {
    pub content_type: &'static str,
    pub body: String,
}

/// The answer to a request for what this indexer can do.
pub fn caps_reply() -> (res: Reply)
    ensures
        res.content_type@ == XML@,
        res.body@ == CAPS@,
{
    Reply { content_type: XML, body: CAPS.to_owned() }
}

/// The answer to a request of an unknown type.
pub fn unknown_reply() -> (res: Reply)
    ensures
        res.content_type@ == XML@,
        res.body@ == UNKNOWN_TYPE@,
{
    Reply { content_type: XML, body: UNKNOWN_TYPE.to_owned() }
}

/// The answer to a search when the store cannot be read.
pub fn store_error_reply() -> (res: Reply)
    ensures
        res.content_type@ == XML@,
        res.body@ == STORE_ERROR@,
{
    Reply { content_type: XML, body: STORE_ERROR.to_owned() }
}

/// The answer to a search.
pub fn search_reply(host: &str, hits: &Vec<SearchHit>) -> (res: Reply)
    ensures
        res.content_type@ == RSS@,
        res.body@ == feed_xml(host@, hit_views(hits@)),
{
    Reply { content_type: RSS, body: render_feed(host, hits) }
}

/// Whether `c` is one of the characters that could end an element's text or an attribute.
pub open spec fn is_markup(c: char) -> bool {
    c == '<' || c == '>' || c == '\'' || c == '"'
}

/// An escaped text holds no character that could end an element's text or an attribute.
pub proof fn escaped_texts_hold_no_markup(text: Seq<char>)
    ensures
        forall|i: int| 0 <= i < escaped(text).len() ==> !is_markup(#[trigger] escaped(text)[i]),
    decreases text.len(),
{
    reveal_strlit("&lt;");
    reveal_strlit("&gt;");
    reveal_strlit("&amp;");
    reveal_strlit("&apos;");
    reveal_strlit("&quot;");
    if text.len() > 0 {
        let front = escaped(text.drop_last());
        let back = escaped_char(text.last());
        escaped_texts_hold_no_markup(text.drop_last());
        assert forall|i: int| 0 <= i < back.len() implies !is_markup(#[trigger] back[i]) by {
        }
        assert forall|i: int| 0 <= i < escaped(text).len() implies !is_markup(
            #[trigger] escaped(text)[i],
        ) by {
            if i < front.len() {
                assert(escaped(text)[i] == front[i]);
            } else {
                assert(escaped(text)[i] == back[i - front.len()]);
            }
        }
    }
}

/// A text without characters that mean something in XML is shown as it stands.
pub proof fn plain_texts_are_shown_as_they_stand(text: Seq<char>)
    requires
        forall|i: int| 0 <= i < text.len() ==> !is_markup(#[trigger] text[i]) && text[i] != '&',
    ensures
        escaped(text) == text,
    decreases text.len(),
{
    if text.len() > 0 {
        assert forall|i: int| 0 <= i < text.drop_last().len() implies !is_markup(
            #[trigger] text.drop_last()[i],
        ) && text.drop_last()[i] != '&' by {
            assert(text.drop_last()[i] == text[i]);
        }
        plain_texts_are_shown_as_they_stand(text.drop_last());
        assert(!is_markup(text[text.len() - 1]));
        assert(escaped(text) =~= text);
    } else {
        assert(escaped(text) =~= text);
    }
}

/// The games of a feed stand in the order in which they were found.
pub proof fn games_are_listed_in_order(host: Seq<char>, first: Seq<HitView>, second: Seq<HitView>)
    ensures
        items_xml(host, first + second) == items_xml(host, first) + items_xml(host, second),
    decreases second.len(),
{
    if second.len() == 0 {
        assert(first + second =~= first);
        assert(items_xml(host, first) + items_xml(host, second) =~= items_xml(host, first));
    } else {
        games_are_listed_in_order(host, first, second.drop_last());
        assert((first + second).drop_last() =~= first + second.drop_last());
        assert((first + second).last() == second.last());
        assert(items_xml(host, first) + items_xml(host, second.drop_last()) + item_xml(
            host,
            second.last(),
        ) =~= items_xml(host, first) + items_xml(host, second));
    }
}

/// When a fetch brings a magnet link with a hash of 40 hexadecimal digits, the trackers are
/// asked for the bytes of that hash.
pub proof fn fetched_games_are_asked_for(
    game: EntryView,
    metadata: MetadataView,
    hash: Seq<char>,
    rest: Seq<char>,
    probe: Probe,
)
    requires
        is_hex(hash),
        hash.len() == 40,
        metadata.magnet_link == Some("magnet:?xt=urn:btih:"@ + hash + rest),
        is_health_probe(after_attempt(game, Some(metadata)), probe),
    ensures
        probe matches Probe::Ask { game: asked, info_hash } && asked@ == after_fetch(
            game,
            metadata,
        ) && info_hash@ == hex_bytes(hash),
{
    assert forall|i: int| 0 <= i < hash.len() implies is_alnum(#[trigger] hash[i]) by {
        assert(hex_value(hash[i]) is Some);
    }
    magnet_link_has_its_hash(hash, rest);
    case_does_not_change_the_bytes(hash);
}

/// What an attempt to fetch a post stores is what the search goes on with; where it stores
/// nothing, the search goes on with the game as it was.
pub proof fn searches_show_what_is_stored(game: EntryView, fetched: Option<MetadataView>)
    ensures
        after_attempt(game, fetched) == (match stored_after_attempt(game, fetched) {
            Some(stored) => stored,
            None => game,
        }),
{
}

/// A search without a query fetches no post.
pub proof fn browsing_fetches_nothing(game: EntryView, probe: Probe)
    requires
        is_first_probe(game, Seq::empty(), probe),
    ensures
        !(probe is Fetch),
{
}

/// Once a game's post was fetched, a later search fetches it no more.
pub proof fn posts_are_fetched_once(
    game: EntryView,
    metadata: MetadataView,
    query: Seq<char>,
    probe: Probe,
)
    requires
        is_first_probe(after_attempt(game, Some(metadata)), query, probe),
    ensures
        !(probe is Fetch),
{
}

/// The type of a request decides what it asks for: `caps` asks for what the indexer can do,
/// `search`, an empty type and none at all ask for a search, and any other type is unknown.
pub proof fn request_types_are_told_apart(name: Seq<char>)
    ensures
        kind_of(None) is Search,
        kind_of(Some("caps"@)) is Caps,
        kind_of(Some("search"@)) is Search,
        name.len() == 0 ==> kind_of(Some(name)) is Search,
        name != "caps"@ && name != "search"@ && name.len() > 0 ==> kind_of(Some(name)) is Unknown,
{
    reveal_strlit("caps");
    reveal_strlit("search");
    assert("caps"@.len() == 4 && "search"@.len() == 6);
}

/// The values of hits are those of the hits, one by one and in order.
pub proof fn hits_are_kept(hit: SearchHit, hits: Seq<SearchHit>)
    ensures
        hit@.game == hit.game@,
        hit@.health == hit.health,
        hit_views(hits).len() == hits.len(),
        forall|i: int| 0 <= i < hits.len() ==> #[trigger] hit_views(hits)[i] == hits[i]@,
{
}

/// A game that is not fetched yet is fetched first in a search for something, as it is. Any other
/// game goes on at once: the trackers are asked for the bytes of its hash, and where there are
/// none, it is shown without seeders and leechers.
pub proof fn probes_go_step_by_step(game: EntryView, query: Seq<char>, probe: Probe)
    requires
        is_first_probe(game, query, probe),
    ensures
        !game.is_indexed && query.len() > 0 ==> (probe matches Probe::Fetch { game: asked }
            && asked@ == game),
        game.is_indexed || query.len() == 0 ==> is_health_probe(game, probe),
{
}

/// What is left to find out of a game needs its hash: with one that trackers know they are asked
/// for its bytes; without one the game is shown at once, without seeders and leechers.
pub proof fn trackers_are_asked_where_there_is_a_hash(game: EntryView, probe: Probe)
    requires
        is_health_probe(game, probe),
    ensures
        game.info_hash matches Some(hash) ==> (hash_bytes_of(hash) matches Some(bytes) ==> (
        probe matches Probe::Ask { game: asked, info_hash } && asked@ == game && info_hash@
            == bytes)),
        game.info_hash is None || hash_bytes_of(game.info_hash->0) is None ==> (
        probe matches Probe::Show { hit } && hit.game@ == game && hit.health.seeders == 0
            && hit.health.leechers == 0),
{
}

/// After an attempt to fetch its post a game has what the post tells, and after a failed one it
/// is as it was.
pub proof fn attempts_enter_what_was_found(game: EntryView, metadata: MetadataView)
    ensures
        after_attempt(game, Some(metadata)) == after_fetch(game, metadata),
        after_attempt(game, None) == game,
        stored_after_attempt(game, Some(metadata)) == Some(after_fetch(game, metadata)),
        stored_after_attempt(game, None) is None,
{
}

/// Escaping goes character by character: each of the five characters that mean something in XML
/// becomes its entity, every other one stays, and texts in parts are escaped in parts.
pub proof fn escaping_goes_character_by_character(first: Seq<char>, second: Seq<char>, c: char)
    ensures
        escaped(first + second) == escaped(first) + escaped(second),
        escaped(seq!['<']) == "&lt;"@,
        escaped(seq!['>']) == "&gt;"@,
        escaped(seq!['&']) == "&amp;"@,
        escaped(seq!['\'']) == "&apos;"@,
        escaped(seq!['"']) == "&quot;"@,
        c != '<' && c != '>' && c != '&' && c != '\'' && c != '"' ==> escaped(seq![c]) == seq![c],
    decreases second.len(),
{
    lemma_escaped_single('<');
    lemma_escaped_single('>');
    lemma_escaped_single('&');
    lemma_escaped_single('\'');
    lemma_escaped_single('"');
    lemma_escaped_single(c);
    if second.len() == 0 {
        assert(first + second =~= first);
        assert(escaped(first) + escaped(second) =~= escaped(first));
    } else {
        escaping_goes_character_by_character(first, second.drop_last(), c);
        assert((first + second).drop_last() =~= first + second.drop_last());
        assert((first + second).last() == second.last());
        assert(escaped(first + second) =~= escaped(first) + escaped(second));
    }
}

proof fn lemma_escaped_single(c: char)
    ensures
        escaped(seq![c]) == escaped_char(c),
{
    assert(seq![c].drop_last() =~= Seq::<char>::empty());
    assert(escaped(Seq::<char>::empty()) =~= Seq::<char>::empty());
    assert(escaped(seq![c]) =~= escaped_char(c));
}

/// The date that is shown is the mail date of the stored one; a missing date is shown as the
/// start of 2024, and so is one that cannot be read.
pub proof fn dates_are_shown_as_mail_dates(date: Seq<char>)
    ensures
        rfc3339_fields(date) matches Some(f) ==> shown_date(Some(date)) == rfc2822_text(
            f.0,
            f.1,
            f.2,
        ),
        rfc3339_fields(date) is None ==> shown_date(Some(date))
            == "Mon, 01 Jan 2024 00:00:00 +0000"@,
        shown_date(None) == shown_date(Some("2024-01-01T00:00:00Z"@)),
{
}

proof fn lemma_digits_are_plain(n: nat)
    ensures
        !decimal(n).contains('"'),
        !decimal(n).contains('<'),
{
    decimals_read_back(n);
    let s = decimal(n);
    if s.contains('"') {
        let i = choose|i: int| 0 <= i < s.len() && s[i] == '"';
        assert('0' <= s[i]);
    }
    if s.contains('<') {
        let i = choose|i: int| 0 <= i < s.len() && s[i] == '<';
        assert(s[i] <= '9');
    }
}

proof fn lemma_signed_is_plain(n: int)
    ensures
        !signed_decimal(n).contains('"'),
        !signed_decimal(n).contains('<'),
{
    let s = signed_decimal(n);
    if n >= 0 {
        lemma_digits_are_plain(n as nat);
    } else {
        let digits = decimal((-n) as nat);
        lemma_digits_are_plain((-n) as nat);
        if s.contains('"') {
            let i = choose|i: int| 0 <= i < s.len() && s[i] == '"';
            assert(i > 0);
            assert(digits[i - 1] == '"');
        }
        if s.contains('<') {
            let i = choose|i: int| 0 <= i < s.len() && s[i] == '<';
            assert(i > 0);
            assert(digits[i - 1] == '<');
        }
    }
}

proof fn lemma_escaped_is_plain(text: Seq<char>)
    ensures
        !escaped(text).contains('"'),
        !escaped(text).contains('<'),
{
    escaped_texts_hold_no_markup(text);
    let s = escaped(text);
    if s.contains('"') {
        let i = choose|i: int| 0 <= i < s.len() && s[i] == '"';
        assert(!is_markup(s[i]));
    }
    if s.contains('<') {
        let i = choose|i: int| 0 <= i < s.len() && s[i] == '<';
        assert(!is_markup(s[i]));
    }
}

proof fn lemma_quote_free_texts()
    ensures
        !"seeders"@.contains('"'),
        !" value="@.contains('"'),
        !" />\n            <torznab:attr name="@.contains('"'),
        !"peers"@.contains('"'),
        !" />\n            <enclosure url="@.contains('"'),
        !" length="@.contains('"'),
        !" type="@.contains('"'),
        !"application/x-bittorrent"@.contains('"'),
        !" />\n        </item>"@.contains('"'),
{
    reveal_strlit("seeders");
    reveal_strlit(" value=");
    reveal_strlit(" />\n            <torznab:attr name=");
    reveal_strlit("peers");
    reveal_strlit(" />\n            <enclosure url=");
    reveal_strlit(" length=");
    reveal_strlit(" type=");
    reveal_strlit("application/x-bittorrent");
    reveal_strlit(" />\n        </item>");
    assert forall|i: int| 0 <= i < "seeders"@.len() implies "seeders"@[i] != '"' by {
    }
    assert forall|i: int| 0 <= i < " value="@.len() implies " value="@[i] != '"' by {
    }
    assert forall|i: int| 0 <= i < " />\n            <torznab:attr name="@.len() implies " />\n            <torznab:attr name="@[i] != '"' by {
    }
    assert forall|i: int| 0 <= i < "peers"@.len() implies "peers"@[i] != '"' by {
    }
    assert forall|i: int| 0 <= i < " />\n            <enclosure url="@.len() implies " />\n            <enclosure url="@[i] != '"' by {
    }
    assert forall|i: int| 0 <= i < " length="@.len() implies " length="@[i] != '"' by {
    }
    assert forall|i: int| 0 <= i < " type="@.len() implies " type="@[i] != '"' by {
    }
    assert forall|i: int| 0 <= i < "application/x-bittorrent"@.len() implies "application/x-bittorrent"@[i] != '"' by {
    }
    assert forall|i: int| 0 <= i < " />\n        </item>"@.len() implies " />\n        </item>"@[i] != '"' by {
    }
}

proof fn lemma_quoted_literals()
    ensures
        "</size>\n            <category>4000</category>\n            <category>4050</category>\n            <torznab:attr name=\"category\" value=\"4000\" />\n            <torznab:attr name=\"category\" value=\"4050\" />\n            <torznab:attr name=\"seeders\" value=\""@ == (("</size>\n            <category>4000</category>\n            <category>4050</category>\n            <torznab:attr name=\"category\" value=\"4000\" />\n            <torznab:attr name=\"category\" value=\"4050\" />\n            <torznab:attr name="@.push('"') + "seeders"@).push('"') + " value="@).push('"'),
        "\" />\n            <torznab:attr name=\"peers\" value=\""@ == (((Seq::<char>::empty().push('"') + " />\n            <torznab:attr name="@).push('"') + "peers"@).push('"') + " value="@).push('"'),
        "\" />\n            <enclosure url=\""@ == (Seq::<char>::empty().push('"') + " />\n            <enclosure url="@).push('"'),
        "\" length=\""@ == (Seq::<char>::empty().push('"') + " length="@).push('"'),
        "\" type=\"application/x-bittorrent\" />\n        </item>"@ == (((Seq::<char>::empty().push('"') + " type="@).push('"') + "application/x-bittorrent"@).push('"') + " />\n        </item>"@),
{
    reveal_strlit("</size>\n            <category>4000</category>\n            <category>4050</category>\n            <torznab:attr name=\"category\" value=\"4000\" />\n            <torznab:attr name=\"category\" value=\"4050\" />\n            <torznab:attr name=\"seeders\" value=\"");
    reveal_strlit("</size>\n            <category>4000</category>\n            <category>4050</category>\n            <torznab:attr name=\"category\" value=\"4000\" />\n            <torznab:attr name=\"category\" value=\"4050\" />\n            <torznab:attr name=");
    reveal_strlit("seeders");
    reveal_strlit(" value=");
    reveal_strlit("\" />\n            <torznab:attr name=\"peers\" value=\"");
    reveal_strlit(" />\n            <torznab:attr name=");
    reveal_strlit("peers");
    reveal_strlit("\" />\n            <enclosure url=\"");
    reveal_strlit(" />\n            <enclosure url=");
    reveal_strlit("\" length=\"");
    reveal_strlit(" length=");
    reveal_strlit("\" type=\"application/x-bittorrent\" />\n        </item>");
    reveal_strlit(" type=");
    reveal_strlit("application/x-bittorrent");
    reveal_strlit(" />\n        </item>");
    assert("</size>\n            <category>4000</category>\n            <category>4050</category>\n            <torznab:attr name=\"category\" value=\"4000\" />\n            <torznab:attr name=\"category\" value=\"4050\" />\n            <torznab:attr name=\"seeders\" value=\""@ =~= (("</size>\n            <category>4000</category>\n            <category>4050</category>\n            <torznab:attr name=\"category\" value=\"4000\" />\n            <torznab:attr name=\"category\" value=\"4050\" />\n            <torznab:attr name="@.push('"') + "seeders"@).push('"') + " value="@).push('"'));
    assert("\" />\n            <torznab:attr name=\"peers\" value=\""@ =~= (((Seq::<char>::empty().push('"') + " />\n            <torznab:attr name="@).push('"') + "peers"@).push('"') + " value="@).push('"'));
    assert("\" />\n            <enclosure url=\""@ =~= (Seq::<char>::empty().push('"') + " />\n            <enclosure url="@).push('"'));
    assert("\" length=\""@ =~= (Seq::<char>::empty().push('"') + " length="@).push('"'));
    assert("\" type=\"application/x-bittorrent\" />\n        </item>"@ =~= (((Seq::<char>::empty().push('"') + " type="@).push('"') + "application/x-bittorrent"@).push('"') + " />\n        </item>"@));
}

/// The values of an item are read back from its XML, between its quotation marks: counted from
/// the end, the size of the download, its address, the peers, which are the leechers, and the
/// seeders, each under its name.
pub proof fn attributes_are_read_back(host: Seq<char>, hit: SearchHit)
    ensures
        ({
            let xml = item_xml(host, hit@);
            let size = match hit.game.size_bytes {
                Some(size) => size as int,
                None => 1073741824,
            };
            &&& part_from_end(xml, '"', 1) == "application/x-bittorrent"@
            &&& part_from_end(xml, '"', 2) == " type="@
            &&& part_from_end(xml, '"', 3) == signed_decimal(size)
            &&& part_from_end(xml, '"', 4) == " length="@
            &&& part_from_end(xml, '"', 5) == escaped(
                "http://"@ + host + "/download/"@ + hit.game.id@,
            )
            &&& part_from_end(xml, '"', 6) == " />\n            <enclosure url="@
            &&& part_from_end(xml, '"', 7) == decimal(hit.health.leechers as nat)
            &&& digits_value(part_from_end(xml, '"', 7)) == hit.health.leechers
            &&& part_from_end(xml, '"', 8) == " value="@
            &&& part_from_end(xml, '"', 9) == "peers"@
            &&& part_from_end(xml, '"', 11) == decimal(hit.health.seeders as nat)
            &&& digits_value(part_from_end(xml, '"', 11)) == hit.health.seeders
            &&& part_from_end(xml, '"', 12) == " value="@
            &&& part_from_end(xml, '"', 13) == "seeders"@
        }),
{
    let view = hit@;
    let size = signed_decimal(shown_size(view.game.size_bytes) as int);
    let seeders = decimal(view.health.seeders as nat);
    let peers = decimal(view.health.leechers as nat);
    let url = escaped(download_url(host, view.game.id));
    lemma_signed_is_plain(shown_size(view.game.size_bytes) as int);
    lemma_digits_are_plain(view.health.seeders as nat);
    lemma_digits_are_plain(view.health.leechers as nat);
    decimals_read_back(view.health.seeders as nat);
    decimals_read_back(view.health.leechers as nat);
    lemma_escaped_is_plain(download_url(host, view.game.id));
    lemma_quote_free_texts();
    let head = "\n        <item>\n            <title>"@ + escaped(view.game.title)
        + "</title>\n            <guid>"@ + view.game.id + "</guid>\n            <link>"@ + escaped(
        view.game.post_url,
    ) + "</link>\n            <pubDate>"@ + shown_date(view.game.published_at)
        + "</pubDate>\n            <size>"@ + size;
    let f0 = head
        + "</size>\n            <category>4000</category>\n            <category>4050</category>\n            <torznab:attr name=\"category\" value=\"4000\" />\n            <torznab:attr name=\"category\" value=\"4050\" />\n            <torznab:attr name="@;
    let f1 = f0.push('"') + "seeders"@;
    let f2 = f1.push('"') + " value="@;
    let f3 = f2.push('"') + seeders;
    let f4 = f3.push('"') + " />\n            <torznab:attr name="@;
    let f5 = f4.push('"') + "peers"@;
    let f6 = f5.push('"') + " value="@;
    let f7 = f6.push('"') + peers;
    let f8 = f7.push('"') + " />\n            <enclosure url="@;
    let f9 = f8.push('"') + url;
    let f10 = f9.push('"') + " length="@;
    let f11 = f10.push('"') + size;
    let f12 = f11.push('"') + " type="@;
    let f13 = f12.push('"') + "application/x-bittorrent"@;
    let f14 = f13.push('"') + " />\n        </item>"@;
    let x2 = head
        + "</size>\n            <category>4000</category>\n            <category>4050</category>\n            <torznab:attr name=\"category\" value=\"4000\" />\n            <torznab:attr name=\"category\" value=\"4050\" />\n            <torznab:attr name=\"seeders\" value=\""@;
    let x5 = x2 + seeders + "\" />\n            <torznab:attr name=\"peers\" value=\""@;
    let x7 = x5 + peers + "\" />\n            <enclosure url=\""@;
    let x9 = x7 + url + "\" length=\""@;
    let xml = x9 + size + "\" type=\"application/x-bittorrent\" />\n        </item>"@;
    assert(xml == item_xml(host, view));
    lemma_quoted_literals();
    assert(x2 =~= f2.push('"'));
    assert(x5 =~= f6.push('"'));
    assert(x7 =~= f8.push('"'));
    assert(x9 =~= f10.push('"'));
    assert(xml =~= f14);
    parts_count_from_the_end(f0, "seeders"@, '"');
    parts_count_from_the_end(f1, " value="@, '"');
    parts_count_from_the_end(f2, seeders, '"');
    parts_count_from_the_end(f3, " />\n            <torznab:attr name="@, '"');
    parts_count_from_the_end(f4, "peers"@, '"');
    parts_count_from_the_end(f5, " value="@, '"');
    parts_count_from_the_end(f6, peers, '"');
    parts_count_from_the_end(f7, " />\n            <enclosure url="@, '"');
    parts_count_from_the_end(f8, url, '"');
    parts_count_from_the_end(f9, " length="@, '"');
    parts_count_from_the_end(f10, size, '"');
    parts_count_from_the_end(f11, " type="@, '"');
    parts_count_from_the_end(f12, "application/x-bittorrent"@, '"');
    parts_count_from_the_end(f13, " />\n        </item>"@, '"');
}

proof fn lemma_tag_free_texts()
    ensures
        !"item>\n            "@.contains('<'),
        !"title>"@.contains('<'),
        !"/title>\n            "@.contains('<'),
        !"guid>"@.contains('<'),
        !"/guid>\n            "@.contains('<'),
        !"link>"@.contains('<'),
        !"/link>\n            "@.contains('<'),
        !"pubDate>"@.contains('<'),
        !"/pubDate>\n            "@.contains('<'),
        !"size>"@.contains('<'),
        !"/size>\n            "@.contains('<'),
        !"category>4000"@.contains('<'),
        !"/category>\n            "@.contains('<'),
        !"category>4050"@.contains('<'),
        !"torznab:attr name=\"category\" value=\"4000\" />\n            "@.contains('<'),
        !"torznab:attr name=\"category\" value=\"4050\" />\n            "@.contains('<'),
        !"torznab:attr name=\"seeders\" value=\""@.contains('<'),
        !"\" />\n            "@.contains('<'),
        !"torznab:attr name=\"peers\" value=\""@.contains('<'),
        !"enclosure url=\""@.contains('<'),
        !"\" length=\""@.contains('<'),
        !"\" type=\"application/x-bittorrent\" />\n        "@.contains('<'),
        !"/item>"@.contains('<'),
{
    reveal_strlit("item>\n            ");
    reveal_strlit("title>");
    reveal_strlit("/title>\n            ");
    reveal_strlit("guid>");
    reveal_strlit("/guid>\n            ");
    reveal_strlit("link>");
    reveal_strlit("/link>\n            ");
    reveal_strlit("pubDate>");
    reveal_strlit("/pubDate>\n            ");
    reveal_strlit("size>");
    reveal_strlit("/size>\n            ");
    reveal_strlit("category>4000");
    reveal_strlit("/category>\n            ");
    reveal_strlit("category>4050");
    reveal_strlit("torznab:attr name=\"category\" value=\"4000\" />\n            ");
    reveal_strlit("torznab:attr name=\"category\" value=\"4050\" />\n            ");
    reveal_strlit("torznab:attr name=\"seeders\" value=\"");
    reveal_strlit("\" />\n            ");
    reveal_strlit("torznab:attr name=\"peers\" value=\"");
    reveal_strlit("enclosure url=\"");
    reveal_strlit("\" length=\"");
    reveal_strlit("\" type=\"application/x-bittorrent\" />\n        ");
    reveal_strlit("/item>");
    assert forall|i: int| 0 <= i < "item>\n            "@.len() implies "item>\n            "@[i] != '<' by {
    }
    assert forall|i: int| 0 <= i < "title>"@.len() implies "title>"@[i] != '<' by {
    }
    assert forall|i: int| 0 <= i < "/title>\n            "@.len() implies "/title>\n            "@[i] != '<' by {
    }
    assert forall|i: int| 0 <= i < "guid>"@.len() implies "guid>"@[i] != '<' by {
    }
    assert forall|i: int| 0 <= i < "/guid>\n            "@.len() implies "/guid>\n            "@[i] != '<' by {
    }
    assert forall|i: int| 0 <= i < "link>"@.len() implies "link>"@[i] != '<' by {
    }
    assert forall|i: int| 0 <= i < "/link>\n            "@.len() implies "/link>\n            "@[i] != '<' by {
    }
    assert forall|i: int| 0 <= i < "pubDate>"@.len() implies "pubDate>"@[i] != '<' by {
    }
    assert forall|i: int| 0 <= i < "/pubDate>\n            "@.len() implies "/pubDate>\n            "@[i] != '<' by {
    }
    assert forall|i: int| 0 <= i < "size>"@.len() implies "size>"@[i] != '<' by {
    }
    assert forall|i: int| 0 <= i < "/size>\n            "@.len() implies "/size>\n            "@[i] != '<' by {
    }
    assert forall|i: int| 0 <= i < "category>4000"@.len() implies "category>4000"@[i] != '<' by {
    }
    assert forall|i: int| 0 <= i < "/category>\n            "@.len() implies "/category>\n            "@[i] != '<' by {
    }
    assert forall|i: int| 0 <= i < "category>4050"@.len() implies "category>4050"@[i] != '<' by {
    }
    assert forall|i: int| 0 <= i < "torznab:attr name=\"category\" value=\"4000\" />\n            "@.len() implies "torznab:attr name=\"category\" value=\"4000\" />\n            "@[i] != '<' by {
    }
    assert forall|i: int| 0 <= i < "torznab:attr name=\"category\" value=\"4050\" />\n            "@.len() implies "torznab:attr name=\"category\" value=\"4050\" />\n            "@[i] != '<' by {
    }
    assert forall|i: int| 0 <= i < "torznab:attr name=\"seeders\" value=\""@.len() implies "torznab:attr name=\"seeders\" value=\""@[i] != '<' by {
    }
    assert forall|i: int| 0 <= i < "\" />\n            "@.len() implies "\" />\n            "@[i] != '<' by {
    }
    assert forall|i: int| 0 <= i < "torznab:attr name=\"peers\" value=\""@.len() implies "torznab:attr name=\"peers\" value=\""@[i] != '<' by {
    }
    assert forall|i: int| 0 <= i < "enclosure url=\""@.len() implies "enclosure url=\""@[i] != '<' by {
    }
    assert forall|i: int| 0 <= i < "\" length=\""@.len() implies "\" length=\""@[i] != '<' by {
    }
    assert forall|i: int| 0 <= i < "\" type=\"application/x-bittorrent\" />\n        "@.len() implies "\" type=\"application/x-bittorrent\" />\n        "@[i] != '<' by {
    }
    assert forall|i: int| 0 <= i < "/item>"@.len() implies "/item>"@[i] != '<' by {
    }
}

proof fn lemma_tagged_literals()
    ensures
        "\n        <item>\n            <title>"@ == (("\n        "@.push('<') + "item>\n            "@).push('<') + "title>"@),
        "</title>\n            <guid>"@ == ((Seq::<char>::empty().push('<') + "/title>\n            "@).push('<') + "guid>"@),
        "</guid>\n            <link>"@ == ((Seq::<char>::empty().push('<') + "/guid>\n            "@).push('<') + "link>"@),
        "</link>\n            <pubDate>"@ == ((Seq::<char>::empty().push('<') + "/link>\n            "@).push('<') + "pubDate>"@),
        "</pubDate>\n            <size>"@ == ((Seq::<char>::empty().push('<') + "/pubDate>\n            "@).push('<') + "size>"@),
        "</size>\n            <category>4000</category>\n            <category>4050</category>\n            <torznab:attr name=\"category\" value=\"4000\" />\n            <torznab:attr name=\"category\" value=\"4050\" />\n            <torznab:attr name=\"seeders\" value=\""@ == ((((((((Seq::<char>::empty().push('<') + "/size>\n            "@).push('<') + "category>4000"@).push('<') + "/category>\n            "@).push('<') + "category>4050"@).push('<') + "/category>\n            "@).push('<') + "torznab:attr name=\"category\" value=\"4000\" />\n            "@).push('<') + "torznab:attr name=\"category\" value=\"4050\" />\n            "@).push('<') + "torznab:attr name=\"seeders\" value=\""@),
        "\" />\n            <torznab:attr name=\"peers\" value=\""@ == ("\" />\n            "@.push('<') + "torznab:attr name=\"peers\" value=\""@),
        "\" />\n            <enclosure url=\""@ == ("\" />\n            "@.push('<') + "enclosure url=\""@),
        "\" type=\"application/x-bittorrent\" />\n        </item>"@ == ("\" type=\"application/x-bittorrent\" />\n        "@.push('<') + "/item>"@),
{
    reveal_strlit("\n        <item>\n            <title>");
    reveal_strlit("\n        ");
    reveal_strlit("item>\n            ");
    reveal_strlit("title>");
    reveal_strlit("</title>\n            <guid>");
    reveal_strlit("/title>\n            ");
    reveal_strlit("guid>");
    reveal_strlit("</guid>\n            <link>");
    reveal_strlit("/guid>\n            ");
    reveal_strlit("link>");
    reveal_strlit("</link>\n            <pubDate>");
    reveal_strlit("/link>\n            ");
    reveal_strlit("pubDate>");
    reveal_strlit("</pubDate>\n            <size>");
    reveal_strlit("/pubDate>\n            ");
    reveal_strlit("size>");
    reveal_strlit("</size>\n            <category>4000</category>\n            <category>4050</category>\n            <torznab:attr name=\"category\" value=\"4000\" />\n            <torznab:attr name=\"category\" value=\"4050\" />\n            <torznab:attr name=\"seeders\" value=\"");
    reveal_strlit("/size>\n            ");
    reveal_strlit("category>4000");
    reveal_strlit("/category>\n            ");
    reveal_strlit("category>4050");
    reveal_strlit("torznab:attr name=\"category\" value=\"4000\" />\n            ");
    reveal_strlit("torznab:attr name=\"category\" value=\"4050\" />\n            ");
    reveal_strlit("torznab:attr name=\"seeders\" value=\"");
    reveal_strlit("\" />\n            <torznab:attr name=\"peers\" value=\"");
    reveal_strlit("\" />\n            ");
    reveal_strlit("torznab:attr name=\"peers\" value=\"");
    reveal_strlit("\" />\n            <enclosure url=\"");
    reveal_strlit("enclosure url=\"");
    reveal_strlit("\" type=\"application/x-bittorrent\" />\n        </item>");
    reveal_strlit("\" type=\"application/x-bittorrent\" />\n        ");
    reveal_strlit("/item>");
    assert("\n        <item>\n            <title>"@ =~= (("\n        "@.push('<') + "item>\n            "@).push('<') + "title>"@));
    assert("</title>\n            <guid>"@ =~= ((Seq::<char>::empty().push('<') + "/title>\n            "@).push('<') + "guid>"@));
    assert("</guid>\n            <link>"@ =~= ((Seq::<char>::empty().push('<') + "/guid>\n            "@).push('<') + "link>"@));
    assert("</link>\n            <pubDate>"@ =~= ((Seq::<char>::empty().push('<') + "/link>\n            "@).push('<') + "pubDate>"@));
    assert("</pubDate>\n            <size>"@ =~= ((Seq::<char>::empty().push('<') + "/pubDate>\n            "@).push('<') + "size>"@));
    assert("</size>\n            <category>4000</category>\n            <category>4050</category>\n            <torznab:attr name=\"category\" value=\"4000\" />\n            <torznab:attr name=\"category\" value=\"4050\" />\n            <torznab:attr name=\"seeders\" value=\""@ =~= ((((((((Seq::<char>::empty().push('<') + "/size>\n            "@).push('<') + "category>4000"@).push('<') + "/category>\n            "@).push('<') + "category>4050"@).push('<') + "/category>\n            "@).push('<') + "torznab:attr name=\"category\" value=\"4000\" />\n            "@).push('<') + "torznab:attr name=\"category\" value=\"4050\" />\n            "@).push('<') + "torznab:attr name=\"seeders\" value=\""@));
    assert("\" />\n            <torznab:attr name=\"peers\" value=\""@ =~= ("\" />\n            "@.push('<') + "torznab:attr name=\"peers\" value=\""@));
    assert("\" />\n            <enclosure url=\""@ =~= ("\" />\n            "@.push('<') + "enclosure url=\""@));
    assert("\" type=\"application/x-bittorrent\" />\n        </item>"@ =~= ("\" type=\"application/x-bittorrent\" />\n        "@.push('<') + "/item>"@));
}

proof fn lemma_joins_stay_free(a: Seq<char>, b: Seq<char>, c: char)
    requires
        !a.contains(c),
        !b.contains(c),
    ensures
        !(a + b).contains(c),
{
    if (a + b).contains(c) {
        let i = choose|i: int| 0 <= i < (a + b).len() && (a + b)[i] == c;
        if i < a.len() {
            assert(a[i] == c);
        } else {
            assert(b[i - a.len()] == c);
        }
    }
}

/// The front of an item, up to its size, tag by tag.
spec fn tagged_front(
    title: Seq<char>,
    id: Seq<char>,
    link: Seq<char>,
    date: Seq<char>,
    size: Seq<char>,
) -> Seq<char> {
    let t1 = "item>\n            "@;
    let h1 = "\n        "@.push('<') + t1;
    let t2 = "title>"@ + title;
    let h2 = h1.push('<') + t2;
    let t3 = "/title>\n            "@;
    let h3 = h2.push('<') + t3;
    let t4 = "guid>"@ + id;
    let h4 = h3.push('<') + t4;
    let t5 = "/guid>\n            "@;
    let h5 = h4.push('<') + t5;
    let t6 = "link>"@ + link;
    let h6 = h5.push('<') + t6;
    let t7 = "/link>\n            "@;
    let h7 = h6.push('<') + t7;
    let t8 = "pubDate>"@ + date;
    let h8 = h7.push('<') + t8;
    let t9 = "/pubDate>\n            "@;
    let h9 = h8.push('<') + t9;
    let t10 = "size>"@ + size;
    let h10 = h9.push('<') + t10;
    h10
}

/// An item up to its categories, tag by tag.
spec fn tagged_middle(
    front: Seq<char>,
) -> Seq<char> {
    let t11 = "/size>\n            "@;
    let h11 = front.push('<') + t11;
    let t12 = "category>4000"@;
    let h12 = h11.push('<') + t12;
    let t13 = "/category>\n            "@;
    let h13 = h12.push('<') + t13;
    let t14 = "category>4050"@;
    let h14 = h13.push('<') + t14;
    let t15 = "/category>\n            "@;
    let h15 = h14.push('<') + t15;
    let t16 = "torznab:attr name=\"category\" value=\"4000\" />\n            "@;
    let h16 = h15.push('<') + t16;
    let t17 = "torznab:attr name=\"category\" value=\"4050\" />\n            "@;
    let h17 = h16.push('<') + t17;
    h17
}

/// The rest of an item behind its categories, tag by tag.
spec fn tagged_back(
    front: Seq<char>,
    seeders: Seq<char>,
    peers: Seq<char>,
    url: Seq<char>,
    size: Seq<char>,
) -> Seq<char> {
    let t18 = "torznab:attr name=\"seeders\" value=\""@ + seeders + "\" />\n            "@;
    let h18 = front.push('<') + t18;
    let t19 = "torznab:attr name=\"peers\" value=\""@ + peers + "\" />\n            "@;
    let h19 = h18.push('<') + t19;
    let t20 = "enclosure url=\""@ + url + "\" length=\""@ + size + "\" type=\"application/x-bittorrent\" />\n        "@;
    let h20 = h19.push('<') + t20;
    let t21 = "/item>"@;
    let h21 = h20.push('<') + t21;
    h21
}

proof fn lemma_front_form(
    title: Seq<char>,
    id: Seq<char>,
    link: Seq<char>,
    date: Seq<char>,
    size: Seq<char>,
)
    ensures
        "\n        <item>\n            <title>"@ + title + "</title>\n            <guid>"@ + id
            + "</guid>\n            <link>"@ + link + "</link>\n            <pubDate>"@ + date
            + "</pubDate>\n            <size>"@ + size == tagged_front(title, id, link, date, size),
{
    lemma_tagged_literals();
    let t1 = "item>\n            "@;
    let h1 = "\n        "@.push('<') + t1;
    let t2 = "title>"@ + title;
    let h2 = h1.push('<') + t2;
    let t3 = "/title>\n            "@;
    let h3 = h2.push('<') + t3;
    let t4 = "guid>"@ + id;
    let h4 = h3.push('<') + t4;
    let t5 = "/guid>\n            "@;
    let h5 = h4.push('<') + t5;
    let t6 = "link>"@ + link;
    let h6 = h5.push('<') + t6;
    let t7 = "/link>\n            "@;
    let h7 = h6.push('<') + t7;
    let t8 = "pubDate>"@ + date;
    let h8 = h7.push('<') + t8;
    let t9 = "/pubDate>\n            "@;
    let h9 = h8.push('<') + t9;
    let t10 = "size>"@ + size;
    let h10 = h9.push('<') + t10;
    let x2 = "\n        <item>\n            <title>"@ + title;
    let x4 = x2 + "</title>\n            <guid>"@ + id;
    let x6 = x4 + "</guid>\n            <link>"@ + link;
    let x8 = x6 + "</link>\n            <pubDate>"@ + date;
    let x10 = x8 + "</pubDate>\n            <size>"@ + size;
    assert(x2 =~= h2);
    assert(x4 =~= h4);
    assert(x6 =~= h6);
    assert(x8 =~= h8);
    assert(x10 =~= h10);
}

proof fn lemma_back_form(
    front: Seq<char>,
    seeders: Seq<char>,
    peers: Seq<char>,
    url: Seq<char>,
    size: Seq<char>,
)
    ensures
        front + "</size>\n            <category>4000</category>\n            <category>4050</category>\n            <torznab:attr name=\"category\" value=\"4000\" />\n            <torznab:attr name=\"category\" value=\"4050\" />\n            <torznab:attr name=\"seeders\" value=\""@
            + seeders + "\" />\n            <torznab:attr name=\"peers\" value=\""@ + peers
            + "\" />\n            <enclosure url=\""@ + url + "\" length=\""@ + size
            + "\" type=\"application/x-bittorrent\" />\n        </item>"@ == tagged_back(
            tagged_middle(front),
            seeders,
            peers,
            url,
            size,
        ),
{
    lemma_tagged_literals();
    let h17 = tagged_middle(front);
    let t18 = "torznab:attr name=\"seeders\" value=\""@ + seeders + "\" />\n            "@;
    let h18 = h17.push('<') + t18;
    let t19 = "torznab:attr name=\"peers\" value=\""@ + peers + "\" />\n            "@;
    let h19 = h18.push('<') + t19;
    let t20 = "enclosure url=\""@ + url + "\" length=\""@ + size + "\" type=\"application/x-bittorrent\" />\n        "@;
    let h20 = h19.push('<') + t20;
    let t21 = "/item>"@;
    let h21 = h20.push('<') + t21;
    let x17 = front + "</size>\n            <category>4000</category>\n            <category>4050</category>\n            <torznab:attr name=\"category\" value=\"4000\" />\n            <torznab:attr name=\"category\" value=\"4050\" />\n            <torznab:attr name=\"seeders\" value=\""@;
    let x18 = x17 + seeders + "\" />\n            <torznab:attr name=\"peers\" value=\""@;
    let x19 = x18 + peers + "\" />\n            <enclosure url=\""@;
    let x20 = x19 + url + "\" length=\""@ + size;
    let xml = x20 + "\" type=\"application/x-bittorrent\" />\n        </item>"@;
    assert(x17 =~= h17.push('<') + "torznab:attr name=\"seeders\" value=\""@);
    assert(x18 =~= h18.push('<') + "torznab:attr name=\"peers\" value=\""@);
    assert(x19 =~= h19.push('<') + "enclosure url=\""@);
    assert(xml =~= h21);
}

proof fn lemma_back_parts(
    front: Seq<char>,
    seeders: Seq<char>,
    peers: Seq<char>,
    url: Seq<char>,
    size: Seq<char>,
)
    requires
        !seeders.contains('<'),
        !peers.contains('<'),
        !url.contains('<'),
        !size.contains('<'),
    ensures
        part_from_end(tagged_back(front, seeders, peers, url, size), '<', 0) == "/item>"@,
        forall|k: nat|
            k >= 4 ==> #[trigger] part_from_end(
                tagged_back(front, seeders, peers, url, size),
                '<',
                k,
            ) == part_from_end(front, '<', (k - 4) as nat),
{
    lemma_tag_free_texts();
    let t18 = "torznab:attr name=\"seeders\" value=\""@ + seeders + "\" />\n            "@;
    let h18 = front.push('<') + t18;
    let t19 = "torznab:attr name=\"peers\" value=\""@ + peers + "\" />\n            "@;
    let h19 = h18.push('<') + t19;
    let t20 = "enclosure url=\""@ + url + "\" length=\""@ + size + "\" type=\"application/x-bittorrent\" />\n        "@;
    let h20 = h19.push('<') + t20;
    let t21 = "/item>"@;
    let h21 = h20.push('<') + t21;
    lemma_joins_stay_free("torznab:attr name=\"seeders\" value=\""@, seeders, '<');
    lemma_joins_stay_free("torznab:attr name=\"seeders\" value=\""@ + seeders, "\" />\n            "@, '<');
    parts_count_from_the_end(front, t18, '<');
    lemma_joins_stay_free("torznab:attr name=\"peers\" value=\""@, peers, '<');
    lemma_joins_stay_free("torznab:attr name=\"peers\" value=\""@ + peers, "\" />\n            "@, '<');
    parts_count_from_the_end(h18, t19, '<');
    lemma_joins_stay_free("enclosure url=\""@, url, '<');
    lemma_joins_stay_free("enclosure url=\""@ + url, "\" length=\""@, '<');
    lemma_joins_stay_free("enclosure url=\""@ + url + "\" length=\""@, size, '<');
    lemma_joins_stay_free("enclosure url=\""@ + url + "\" length=\""@ + size, "\" type=\"application/x-bittorrent\" />\n        "@, '<');
    parts_count_from_the_end(h19, t20, '<');
    parts_count_from_the_end(h20, t21, '<');
    assert forall|k: nat| k >= 4 implies #[trigger] part_from_end(h21, '<', k) == part_from_end(
        front,
        '<',
        (k - 4) as nat,
    ) by {
        assert(part_from_end(h20, '<', (k - 1) as nat) == part_from_end(h19, '<', (k - 2) as nat));
        assert(part_from_end(h18, '<', (k - 3) as nat) == part_from_end(front, '<', (k - 4) as nat));
    }
}

proof fn lemma_middle_parts(front: Seq<char>)
    ensures
        part_from_end(tagged_middle(front), '<', 0)
            == "torznab:attr name=\"category\" value=\"4050\" />\n            "@,
        part_from_end(tagged_middle(front), '<', 1)
            == "torznab:attr name=\"category\" value=\"4000\" />\n            "@,
        part_from_end(tagged_middle(front), '<', 3) == "category>4050"@,
        part_from_end(tagged_middle(front), '<', 5) == "category>4000"@,
        forall|k: nat|
            k >= 7 ==> #[trigger] part_from_end(tagged_middle(front), '<', k) == part_from_end(
                front,
                '<',
                (k - 7) as nat,
            ),
{
    lemma_tag_free_texts();
    let t11 = "/size>\n            "@;
    let h11 = front.push('<') + t11;
    let t12 = "category>4000"@;
    let h12 = h11.push('<') + t12;
    let t13 = "/category>\n            "@;
    let h13 = h12.push('<') + t13;
    let t14 = "category>4050"@;
    let h14 = h13.push('<') + t14;
    let t15 = "/category>\n            "@;
    let h15 = h14.push('<') + t15;
    let t16 = "torznab:attr name=\"category\" value=\"4000\" />\n            "@;
    let h16 = h15.push('<') + t16;
    let t17 = "torznab:attr name=\"category\" value=\"4050\" />\n            "@;
    let h17 = h16.push('<') + t17;
    parts_count_from_the_end(front, t11, '<');
    parts_count_from_the_end(h11, t12, '<');
    parts_count_from_the_end(h12, t13, '<');
    parts_count_from_the_end(h13, t14, '<');
    parts_count_from_the_end(h14, t15, '<');
    parts_count_from_the_end(h15, t16, '<');
    parts_count_from_the_end(h16, t17, '<');
    assert forall|k: nat| k >= 7 implies #[trigger] part_from_end(h17, '<', k) == part_from_end(
        front,
        '<',
        (k - 7) as nat,
    ) by {
        assert(part_from_end(h16, '<', (k - 1) as nat) == part_from_end(h15, '<', (k - 2) as nat));
        assert(part_from_end(h14, '<', (k - 3) as nat) == part_from_end(h13, '<', (k - 4) as nat));
        assert(part_from_end(h12, '<', (k - 5) as nat) == part_from_end(h11, '<', (k - 6) as nat));
        assert(part_from_end(h11, '<', (k - 6) as nat) == part_from_end(front, '<', (k - 7) as nat));
    }
}

proof fn lemma_front_parts(
    title: Seq<char>,
    id: Seq<char>,
    link: Seq<char>,
    date: Seq<char>,
    size: Seq<char>,
)
    requires
        !title.contains('<'),
        !link.contains('<'),
        !size.contains('<'),
    ensures
        ({
            let all = tagged_front(title, id, link, date, size);
            &&& part_from_end(all, '<', 0) == "size>"@ + size
            &&& part_from_end(all, '<', 1) == "/pubDate>\n            "@
            &&& !date.contains('<') ==> part_from_end(all, '<', 2) == "pubDate>"@ + date
                && part_from_end(all, '<', 4) == "link>"@ + link
            &&& !date.contains('<') && !id.contains('<') ==> part_from_end(all, '<', 6)
                == "guid>"@ + id && part_from_end(all, '<', 8) == "title>"@ + title
        }),
{
    lemma_tag_free_texts();
    let h0 = "\n        "@;
    let t1 = "item>\n            "@;
    let h1 = h0.push('<') + t1;
    let t2 = "title>"@ + title;
    let h2 = h1.push('<') + t2;
    let t3 = "/title>\n            "@;
    let h3 = h2.push('<') + t3;
    let t4 = "guid>"@ + id;
    let h4 = h3.push('<') + t4;
    let t5 = "/guid>\n            "@;
    let h5 = h4.push('<') + t5;
    let t6 = "link>"@ + link;
    let h6 = h5.push('<') + t6;
    let t7 = "/link>\n            "@;
    let h7 = h6.push('<') + t7;
    let t8 = "pubDate>"@ + date;
    let h8 = h7.push('<') + t8;
    let t9 = "/pubDate>\n            "@;
    let h9 = h8.push('<') + t9;
    let t10 = "size>"@ + size;
    let h10 = h9.push('<') + t10;
    lemma_joins_stay_free("size>"@, size, '<');
    parts_count_from_the_end(h9, t10, '<');
    parts_count_from_the_end(h8, t9, '<');
    if !date.contains('<') {
        lemma_joins_stay_free("pubDate>"@, date, '<');
        parts_count_from_the_end(h7, t8, '<');
        parts_count_from_the_end(h6, t7, '<');
        lemma_joins_stay_free("link>"@, link, '<');
        parts_count_from_the_end(h5, t6, '<');
        parts_count_from_the_end(h4, t5, '<');
        if !id.contains('<') {
            lemma_joins_stay_free("guid>"@, id, '<');
            parts_count_from_the_end(h3, t4, '<');
            parts_count_from_the_end(h2, t3, '<');
            lemma_joins_stay_free("title>"@, title, '<');
            parts_count_from_the_end(h1, t2, '<');
            parts_count_from_the_end(h0, t1, '<');
        }
    }
}

/// The elements of an item are read back from its XML, between the marks that begin a tag: counted
/// from the end, the categories, the size, the date, the link, the identifier and the title, each
/// under its name. The date and the identifier are shown as they stand, so that what is in front
/// of them can be counted off where they hold no such mark.
pub proof fn elements_are_read_back(host: Seq<char>, hit: SearchHit)
    ensures
        ({
            let xml = item_xml(host, hit@);
            let size = match hit.game.size_bytes {
                Some(size) => size as int,
                None => 1073741824,
            };
            let date = shown_date(hit@.game.published_at);
            let id = hit.game.id@;
            &&& part_from_end(xml, '<', 0) == "/item>"@
            &&& part_from_end(xml, '<', 4)
                == "torznab:attr name=\"category\" value=\"4050\" />\n            "@
            &&& part_from_end(xml, '<', 5)
                == "torznab:attr name=\"category\" value=\"4000\" />\n            "@
            &&& part_from_end(xml, '<', 7) == "category>4050"@
            &&& part_from_end(xml, '<', 9) == "category>4000"@
            &&& part_from_end(xml, '<', 11) == "size>"@ + signed_decimal(size)
            &&& part_from_end(xml, '<', 12) == "/pubDate>\n            "@
            &&& !date.contains('<') ==> {
                &&& part_from_end(xml, '<', 13) == "pubDate>"@ + date
                &&& part_from_end(xml, '<', 15) == "link>"@ + escaped(hit.game.post_url@)
            }
            &&& !date.contains('<') && !id.contains('<') ==> {
                &&& part_from_end(xml, '<', 17) == "guid>"@ + id
                &&& part_from_end(xml, '<', 19) == "title>"@ + escaped(hit.game.title@)
            }
        }),
{
    let view = hit@;
    let title = escaped(view.game.title);
    let id = view.game.id;
    let link = escaped(view.game.post_url);
    let date = shown_date(view.game.published_at);
    let size = signed_decimal(shown_size(view.game.size_bytes) as int);
    let seeders = decimal(view.health.seeders as nat);
    let peers = decimal(view.health.leechers as nat);
    let url = escaped(download_url(host, view.game.id));
    lemma_escaped_is_plain(view.game.title);
    lemma_escaped_is_plain(view.game.post_url);
    lemma_escaped_is_plain(download_url(host, view.game.id));
    lemma_signed_is_plain(shown_size(view.game.size_bytes) as int);
    lemma_digits_are_plain(view.health.seeders as nat);
    lemma_digits_are_plain(view.health.leechers as nat);
    let front = tagged_front(title, id, link, date, size);
    let middle = tagged_middle(front);
    let xml = tagged_back(middle, seeders, peers, url, size);
    lemma_front_form(title, id, link, date, size);
    lemma_back_form(front, seeders, peers, url, size);
    assert(item_xml(host, view) == xml);
    lemma_back_parts(middle, seeders, peers, url, size);
    lemma_middle_parts(front);
    lemma_front_parts(title, id, link, date, size);
}

/// The title of an item is read back from the front of its XML, up to the next tag.
pub proof fn titles_are_read_back(host: Seq<char>, hit: SearchHit)
    ensures
        ({
            let xml = item_xml(host, hit@);
            let front = "\n        <item>\n            <title>"@ + escaped(hit.game.title@)
                + "</title>\n            <guid>"@ + hit.game.id@ + "</guid>"@;
            &&& xml.len() >= front.len()
            &&& xml.take(front.len() as int) == front
            &&& !escaped(hit.game.title@).contains('<')
        }),
{
    let view = hit@;
    lemma_escaped_is_plain(view.game.title);
    reveal_strlit("</guid>");
    reveal_strlit("</guid>\n            <link>");
    let front = "\n        <item>\n            <title>"@ + escaped(view.game.title)
        + "</title>\n            <guid>"@ + view.game.id;
    let link = front + "</guid>\n            <link>"@;
    assert(link.take(front.len() as int + 7) =~= front + "</guid>"@);
    lemma_item_begins_with(host, view);
    assert(item_xml(host, view).take(front.len() as int + 7) =~= link.take(front.len() as int + 7));
}

proof fn lemma_item_begins_with(host: Seq<char>, hit: HitView)
    ensures
        ({
            let front = "\n        <item>\n            <title>"@ + escaped(hit.game.title)
                + "</title>\n            <guid>"@ + hit.game.id + "</guid>\n            <link>"@;
            &&& item_xml(host, hit).len() >= front.len()
            &&& item_xml(host, hit).take(front.len() as int) == front
        }),
{
    let front = "\n        <item>\n            <title>"@ + escaped(hit.game.title)
        + "</title>\n            <guid>"@ + hit.game.id + "</guid>\n            <link>"@;
    assert(item_xml(host, hit).take(front.len() as int) =~= front);
}

/// Two hits that are shown alike have the same seeders and leechers, and the same size is shown
/// of them.
pub proof fn items_tell_hits_apart(host: Seq<char>, a: SearchHit, b: SearchHit)
    requires
        item_xml(host, a@) == item_xml(host, b@),
    ensures
        a.health.seeders == b.health.seeders,
        a.health.leechers == b.health.leechers,
        escaped("http://"@ + host + "/download/"@ + a.game.id@) == escaped(
            "http://"@ + host + "/download/"@ + b.game.id@,
        ),
        a.game.size_bytes matches Some(size) ==> (b.game.size_bytes matches Some(other) ==> size
            == other),
{
    attributes_are_read_back(host, a);
    attributes_are_read_back(host, b);
    if let Some(size) = a.game.size_bytes {
        if let Some(other) = b.game.size_bytes {
            signed_decimals_read_back(size as int);
            signed_decimals_read_back(other as int);
            let s = signed_decimal(size as int);
            if size < 0 && other >= 0 {
                assert('0' <= s[0]);
            }
            if size >= 0 && other < 0 {
                assert('0' <= s[0]);
            }
        }
    }
}

/// A feed without games names the host that was asked, and a feed with games is that feed with
/// their items behind the link of the channel. The items of a feed are those of its games: none
/// without a game, one for one game, and then one behind another.
pub proof fn feeds_hold_the_items_of_their_games(
    host: Seq<char>,
    hits: Seq<SearchHit>,
    hit: SearchHit,
)
    ensures
        ({
            let front = feed_xml(host, Seq::empty());
            let end = "\n    </channel>\n</rss>"@;
            let at = front.len() - end.len();
            &&& at >= 0
            &&& front.skip(at) == end
            &&& front.take(at)
                == "<?xml version=\"1.0\" encoding=\"UTF-8\"?>\n<rss version=\"2.0\" xmlns:torznab=\"http://torznab.com/schemas/2015/feed\">\n    <channel>\n        <title>Fitnab</title>\n        <description>FitGirl Torznab Indexer</description>\n        <link>http://"@
                + host + "/</link>"@
            &&& feed_xml(host, hit_views(hits)) == front.take(at) + items_xml(
                host,
                hit_views(hits),
            ) + end
        }),
        items_xml(host, Seq::empty()).len() == 0,
        items_xml(host, seq![hit@]) == item_xml(host, hit@),
        hits.len() > 0 ==> items_xml(host, hit_views(hits)) == items_xml(
            host,
            hit_views(hits.drop_last()),
        ) + item_xml(host, hits.last()@),
{
    let front = feed_xml(host, Seq::empty());
    let end = "\n    </channel>\n</rss>"@;
    let at = front.len() - end.len();
    let head = "<?xml version=\"1.0\" encoding=\"UTF-8\"?>\n<rss version=\"2.0\" xmlns:torznab=\"http://torznab.com/schemas/2015/feed\">\n    <channel>\n        <title>Fitnab</title>\n        <description>FitGirl Torznab Indexer</description>\n        <link>http://"@
        + host + "/</link>"@;
    assert(head + items_xml(host, Seq::empty()) =~= head);
    assert(front =~= head + end);
    assert(front.take(at) =~= head);
    assert(front.skip(at) =~= end);
    assert(seq![hit@].drop_last() =~= Seq::<HitView>::empty());
    assert(items_xml(host, seq![hit@]) =~= item_xml(host, hit@));
    if hits.len() > 0 {
        assert(hit_views(hits).drop_last() =~= hit_views(hits.drop_last()));
        assert(hit_views(hits).last() == hits.last()@);
    }
}

/// A probe is about the game that it holds.
pub proof fn probes_are_about_their_game(game: GameEntry, info_hash: [u8; 20], hit: SearchHit)
    ensures
        (Probe::Fetch { game }).subject() == game,
        (Probe::Ask { game, info_hash }).subject() == game,
        (Probe::Show { hit }).subject() == hit.game,
{
}

/// The fixed texts letter for letter.
pub proof fn answers_letter_for_letter()
    ensures
        XML@ == "application/xml"@,
        RSS@ == "application/rss+xml"@,
        UNKNOWN_TYPE@ == "<error>Unknown type</error>"@,
        STORE_ERROR@ == "<error>DB Error</error>"@,
{
}

} // verus!
