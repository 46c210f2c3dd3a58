//! The games in the store, what a provider finds out about them, and how the store changes.
use vstd::prelude::*;

use crate::magnet::extract_info_hash;
#[allow(unused_imports)]
use crate::magnet::is_magnet_link;
use crate::moment::Moment;
#[allow(unused_imports)]
use crate::moment::{four_digit_year, moment_in, rfc3339_text};
use crate::text::is_after;
#[allow(unused_imports)]
use crate::text::{comes_after, opt_text, text_order_is_strict};

verus! {

/// The name under which games of this provider are stored.
pub const PROVIDER_NAME: &'static str = "FitGirl Repacks";

/// A game in the store.
#[derive(Debug, PartialEq, Eq)]
pub struct GameEntry {
    pub id: String,
    pub provider: String,
    pub title: String,
    pub post_url: String,
    pub magnet_link: Option<String>,
    pub torrent_blob: Option<Vec<u8>>,
    pub is_indexed: bool,
    pub size_bytes: Option<i64>,
    pub published_at: Option<String>,
    pub info_hash: Option<String>,
}

/// What a deep fetch of a game's post finds.
#[derive(Debug, PartialEq, Eq)]
pub struct Metadata {
    pub magnet_link: Option<String>,
    pub size_bytes: Option<i64>,
    pub published_at: Option<String>,
    pub seeders: Option<u32>,
    pub leechers: Option<u32>,
    pub completed: Option<u32>,
}

/// A game in the list of all games.
#[derive(Debug, PartialEq, Eq)]
pub struct CatalogRow {
    pub id: String,
    pub title: String,
    pub post_url: String,
}

/// A game in the feed of latest releases.
#[derive(Debug, PartialEq, Eq)]
pub struct FeedRow {
    pub id: String,
    pub title: String,
    pub post_url: String,
    /// When the release was published, where the feed tells it.
    pub published: Option<Moment>,
}

/// A game in the store, as values.
#[verifier::ext_equal]
pub struct EntryView {
    pub id: Seq<char>,
    pub provider: Seq<char>,
    pub title: Seq<char>,
    pub post_url: Seq<char>,
    pub magnet_link: Option<Seq<char>>,
    pub torrent_blob: Option<Seq<u8>>,
    pub is_indexed: bool,
    pub size_bytes: Option<i64>,
    pub published_at: Option<Seq<char>>,
    pub info_hash: Option<Seq<char>>,
}

/// A row of the list of all games, as values.
#[verifier::ext_equal]
pub struct CatalogRowView {
    pub id: Seq<char>,
    pub title: Seq<char>,
    pub post_url: Seq<char>,
}

/// A row of the feed, as values.
#[verifier::ext_equal]
pub struct FeedRowView {
    pub id: Seq<char>,
    pub title: Seq<char>,
    pub post_url: Seq<char>,
    pub published: Option<Moment>,
}

impl FeedRowView {
    /// Whether the calendar reaches the date of the row.
    pub open spec fn valid(self) -> bool {
        self.published matches Some(at) ==> at.valid()
    }
}

/// What a deep fetch finds, as values.
#[verifier::ext_equal]
pub struct MetadataView {
    pub magnet_link: Option<Seq<char>>,
    pub size_bytes: Option<i64>,
    pub published_at: Option<Seq<char>>,
    pub seeders: Option<u32>,
    pub leechers: Option<u32>,
    pub completed: Option<u32>,
}

/// The bytes of an optional blob.
pub open spec fn opt_bytes(blob: Option<Vec<u8>>) -> Option<Seq<u8>> {
    match blob {
        Some(bytes) => Some(bytes@),
        None => None,
    }
}

impl View for GameEntry {
    type V = EntryView;

    open spec fn view(&self) -> EntryView {
        EntryView {
            id: self.id@,
            provider: self.provider@,
            title: self.title@,
            post_url: self.post_url@,
            magnet_link: opt_text(self.magnet_link),
            torrent_blob: opt_bytes(self.torrent_blob),
            is_indexed: self.is_indexed,
            size_bytes: self.size_bytes,
            published_at: opt_text(self.published_at),
            info_hash: opt_text(self.info_hash),
        }
    }
}

impl View for CatalogRow {
    type V = CatalogRowView;

    open spec fn view(&self) -> CatalogRowView {
        CatalogRowView { id: self.id@, title: self.title@, post_url: self.post_url@ }
    }
}

impl View for FeedRow {
    type V = FeedRowView;

    open spec fn view(&self) -> FeedRowView {
        FeedRowView {
            id: self.id@,
            title: self.title@,
            post_url: self.post_url@,
            published: self.published,
        }
    }
}

impl View for Metadata {
    type V = MetadataView;

    open spec fn view(&self) -> MetadataView {
        MetadataView {
            magnet_link: opt_text(self.magnet_link),
            size_bytes: self.size_bytes,
            published_at: opt_text(self.published_at),
            seeders: self.seeders,
            leechers: self.leechers,
            completed: self.completed,
        }
    }
}

/// The values of an optional game.
pub open spec fn opt_entry(entry: Option<GameEntry>) -> Option<EntryView> {
    match entry {
        Some(game) => Some(game@),
        None => None,
    }
}

/// The values of an optional deep fetch.
pub open spec fn opt_metadata(metadata: Option<Metadata>) -> Option<MetadataView> {
    match metadata {
        Some(found) => Some(found@),
        None => None,
    }
}

/// A game of which nothing is known but its post.
pub open spec fn new_entry(
    id: Seq<char>,
    title: Seq<char>,
    post_url: Seq<char>,
    published_at: Option<Seq<char>>,
) -> EntryView {
    EntryView {
        id,
        provider: PROVIDER_NAME@,
        title,
        post_url,
        magnet_link: None,
        torrent_blob: None,
        is_indexed: false,
        size_bytes: None,
        published_at,
        info_hash: None,
    }
}

/// Whether a point in time is later than a stored date tells. A stored date that cannot be read
/// is held against the text of the point in time, and any point in time is later than none.
pub open spec fn is_later(at: Moment, stored: Option<Seq<char>>) -> bool {
    match stored {
        Some(text) => match moment_in(stored) {
            Some(was) => !at.no_later(was),
            None => text.len() == 0 || comes_after(rfc3339_text(at.seconds, at.nanos), text),
        },
        None => true,
    }
}

/// Whether a date of the feed is newer than a stored one: it is another date, and a later one.
pub open spec fn is_newer(published: Option<Moment>, stored: Option<Seq<char>>) -> bool {
    match published {
        Some(at) => stored != stored_date(published) && is_later(at, stored),
        None => false,
    }
}

/// A point in time as the store keeps it: an RFC 3339 date in UTC.
pub open spec fn stored_date(published: Option<Moment>) -> Option<Seq<char>> {
    match published {
        Some(at) => Some(rfc3339_text(at.seconds, at.nanos)),
        None => None,
    }
}

/// The stored game after a row of the feed: a new one, or the one that was there with the date
/// of the row, and to be fetched again where that date is newer.
pub open spec fn after_feed(stored: Option<EntryView>, row: FeedRowView) -> EntryView {
    match stored {
        Some(entry) => EntryView {
            is_indexed: entry.is_indexed && !is_newer(row.published, entry.published_at),
            published_at: stored_date(row.published),
            ..entry
        },
        None => new_entry(row.id, row.title, row.post_url, stored_date(row.published)),
    }
}

/// The stored game after a row of the list of all games: a new one, or the one that was there.
pub open spec fn after_catalog(stored: Option<EntryView>, row: CatalogRowView) -> EntryView {
    match stored {
        Some(entry) => entry,
        None => new_entry(row.id, row.title, row.post_url, None),
    }
}

/// The stored game after a deep fetch.
pub open spec fn after_fetch(entry: EntryView, metadata: MetadataView) -> EntryView {
    EntryView {
        is_indexed: true,
        magnet_link: metadata.magnet_link,
        size_bytes: metadata.size_bytes,
        published_at: metadata.published_at,
        info_hash: match metadata.magnet_link {
            Some(magnet) => crate::magnet::info_hash_of(magnet),
            None => None,
        },
        ..entry
    }
}

/// Whether a search has to fetch a game's post first: only a search for something does, and
/// only where the post has not been fetched yet.
pub open spec fn fetch_is_due(entry: EntryView, query: Seq<char>) -> bool {
    !entry.is_indexed && query.len() > 0
}

/// Copies an optional text.
pub(crate) fn copy_text(text: &Option<String>) -> (res: Option<String>)
    ensures
        res == *text,
{
    match text {
        Some(s) => Some(s.clone()),
        None => None,
    }
}

/// Whether a point in time, `date` in RFC 3339 form, is newer than a stored date.
fn date_is_newer(at: Moment, date: &str, stored: &Option<String>) -> (res: bool)
    requires
        date@ == rfc3339_text(at.seconds, at.nanos),
        date@.len() > 0,
        moment_in(Some(date@)) matches Some(read) ==> read == at,
    ensures
        res == is_later(at, opt_text(*stored)),
        res == is_newer(Some(at), opt_text(*stored)),
{
    match stored {
        Some(text) => {
            proof {
                text_order_is_strict(date@, text@);
            }
            match Moment::from_rfc3339(text.as_str()) {
                Some(was) => !at.is_no_later(&was),
                None => text.as_str().is_empty() || is_after(date, text.as_str()),
            }
        },
        None => true,
    }
}

/// Copies a game.
pub(crate) fn copy_entry(entry: &GameEntry) -> (res: GameEntry)
    ensures
        res@ == entry@,
{
    let torrent_blob = match &entry.torrent_blob {
        Some(bytes) => {
            let copy = bytes.clone();
            assert(copy@ =~= bytes@);
            Some(copy)
        },
        None => None,
    };
    GameEntry {
        id: entry.id.clone(),
        provider: entry.provider.clone(),
        title: entry.title.clone(),
        post_url: entry.post_url.clone(),
        magnet_link: copy_text(&entry.magnet_link),
        torrent_blob,
        is_indexed: entry.is_indexed,
        size_bytes: entry.size_bytes,
        published_at: copy_text(&entry.published_at),
        info_hash: copy_text(&entry.info_hash),
    }
}

/// Makes the entry of a game of which nothing is known but its post.
fn make_entry(
    id: String,
    title: String,
    post_url: String,
    published_at: Option<String>,
) -> (res: GameEntry)
    ensures
        res@ == new_entry(id@, title@, post_url@, opt_text(published_at)),
{
    GameEntry {
        id,
        provider: PROVIDER_NAME.to_owned(),
        title,
        post_url,
        magnet_link: None,
        torrent_blob: None,
        is_indexed: false,
        size_bytes: None,
        published_at,
        info_hash: None,
    }
}

/// Brings a row of the feed into the store: what is to be stored under the row's identifier,
/// where `stored` stands there now. A fetched game stays fetched exactly where the row's point in
/// time is not later than the stored date, and bringing in the row once more changes nothing.
/// With a four-digit year the date is read back as the point in time of the row.
pub fn merge_feed_row(stored: Option<GameEntry>, row: FeedRow) -> (res: GameEntry)
    requires
        row@.valid(),
    ensures
        res@ == after_feed(opt_entry(stored), row@),
        stored matches Some(entry) ==> res.is_indexed == (entry.is_indexed && !(
        row.published matches Some(at) && is_later(at, entry@.published_at))),
        after_feed(Some(res@), row@) == res@,
        row.published matches Some(at) ==> four_digit_year(at.seconds as int) ==> moment_in(
            res@.published_at,
        ) == Some(at),
{
    proof {
        feed_rows_are_idempotent(opt_entry(stored), row@);
    }
    let mut newer = false;
    let mut published_at: Option<String> = None;
    if let Some(at) = row.published {
        let date = at.to_rfc3339();
        if let Some(entry) = &stored {
            newer = date_is_newer(at, date.as_str(), &entry.published_at);
        }
        published_at = Some(date);
    }
    match stored {
        Some(entry) => GameEntry {
            is_indexed: entry.is_indexed && !newer,
            published_at,
            ..entry
        },
        None => make_entry(row.id, row.title, row.post_url, published_at),
    }
}

/// Brings a row of the list of all games into the store: what is to be stored under the row's
/// identifier, where `stored` stands there now.
pub fn merge_catalog_row(stored: Option<GameEntry>, row: CatalogRow) -> (res: GameEntry)
    ensures
        res@ == after_catalog(opt_entry(stored), row@),
{
    match stored {
        Some(entry) => entry,
        None => make_entry(row.id, row.title, row.post_url, None),
    }
}

/// Enters what a deep fetch has found.
pub fn apply_metadata(entry: GameEntry, metadata: &Metadata) -> (res: GameEntry)
    ensures
        res@ == after_fetch(entry@, metadata@),
{
    let info_hash = match &metadata.magnet_link {
        Some(magnet) => extract_info_hash(magnet.as_str()),
        None => None,
    };
    GameEntry {
        is_indexed: true,
        magnet_link: copy_text(&metadata.magnet_link),
        size_bytes: metadata.size_bytes,
        published_at: copy_text(&metadata.published_at),
        info_hash,
        ..entry
    }
}

/// Whether a search for `query` has to fetch a game's post first.
pub fn needs_fetch(entry: &GameEntry, query: &str) -> (res: bool)
    ensures
        res == fetch_is_due(entry@, query@),
{
    !entry.is_indexed && !query.is_empty()
}

/// When the feed brings another date for a game than the stored one, and a later one, the next
/// search for something fetches its post again.
pub proof fn updated_games_are_fetched_again(
    entry: EntryView,
    row: FeedRowView,
    at: Moment,
    query: Seq<char>,
)
    requires
        row.published == Some(at),
        entry.published_at != Some(rfc3339_text(at.seconds, at.nanos)),
        is_later(at, entry.published_at),
        query.len() > 0,
    ensures
        !after_feed(Some(entry), row).is_indexed,
        after_feed(Some(entry), row).published_at == Some(rfc3339_text(at.seconds, at.nanos)),
        fetch_is_due(after_feed(Some(entry), row), query),
{
}

/// When the feed brings no date for a game, or one that is not later than the stored one, a
/// fetched game stays fetched.
pub proof fn other_games_stay_fetched(entry: EntryView, row: FeedRowView)
    requires
        row.published matches Some(at) ==> !is_later(at, entry.published_at),
    ensures
        after_feed(Some(entry), row).is_indexed == entry.is_indexed,
{
}

/// Of a stored date that can be read, and of a missing one, the points in time alone decide.
pub proof fn later_means_later_in_time(at: Moment, stored: Seq<char>, was: Moment)
    ensures
        moment_in(Some(stored)) == Some(was) ==> is_later(at, Some(stored)) == !at.no_later(was),
        is_later(at, None),
{
}

/// The feed touches nothing of a stored game but its date and whether it is to be fetched.
pub proof fn feed_keeps_the_rest(entry: EntryView, row: FeedRowView)
    ensures
        ({
            let after = after_feed(Some(entry), row);
            after == (EntryView {
                is_indexed: after.is_indexed,
                published_at: stored_date(row.published),
                ..entry
            })
        }),
        after_feed(Some(entry), row).is_indexed ==> entry.is_indexed,
{
}

/// Bringing in the same row of the feed once more changes nothing.
pub proof fn feed_rows_are_idempotent(stored: Option<EntryView>, row: FeedRowView)
    ensures
        after_feed(Some(after_feed(stored, row)), row) == after_feed(stored, row),
{
}

/// The game that a store holds under an identifier, if any.
pub open spec fn game_in(store: Map<Seq<char>, EntryView>, id: Seq<char>) -> Option<EntryView> {
    if store.contains_key(id) {
        Some(store[id])
    } else {
        None
    }
}

/// A store once the rows of a feed have been brought in, one after another.
pub open spec fn after_rows(
    store: Map<Seq<char>, EntryView>,
    rows: Seq<FeedRowView>,
) -> Map<Seq<char>, EntryView>
    decreases rows.len(),
{
    if rows.len() == 0 {
        store
    } else {
        let before = after_rows(store, rows.drop_last());
        let row = rows.last();
        before.insert(row.id, after_feed(game_in(before, row.id), row))
    }
}

/// Whether no two rows have the same identifier.
pub open spec fn have_own_ids(rows: Seq<FeedRowView>) -> bool {
    forall|i: int, j: int|
        0 <= i < j < rows.len() ==> (#[trigger] rows[i]).id != (#[trigger] rows[j]).id
}

/// A feed whose rows have identifiers of their own brings each row into the game of its
/// identifier, and leaves every other game as it was.
pub proof fn feeds_touch_their_own_games(
    store: Map<Seq<char>, EntryView>,
    rows: Seq<FeedRowView>,
    id: Seq<char>,
)
    requires
        have_own_ids(rows),
    ensures
        forall|i: int|
            0 <= i < rows.len() && (#[trigger] rows[i]).id == id ==> game_in(
                after_rows(store, rows),
                id,
            ) == Some(after_feed(game_in(store, id), rows[i])),
        (forall|i: int| 0 <= i < rows.len() ==> (#[trigger] rows[i]).id != id) ==> game_in(
            after_rows(store, rows),
            id,
        ) == game_in(store, id),
    decreases rows.len(),
{
    if rows.len() > 0 {
        let front = rows.drop_last();
        let last = rows.len() - 1;
        assert forall|i: int, j: int| 0 <= i < j < front.len() implies (#[trigger] front[i]).id != (
        #[trigger] front[j]).id by {
            assert(front[i] == rows[i] && front[j] == rows[j]);
        }
        feeds_touch_their_own_games(store, front, id);
        assert(rows[last] == rows.last());
        assert forall|i: int| 0 <= i < front.len() implies (#[trigger] front[i]).id
            != rows[last].id by {
            assert(front[i] == rows[i]);
        }
        assert forall|i: int| 0 <= i < rows.len() && (#[trigger] rows[i]).id == id implies game_in(
            after_rows(store, rows),
            id,
        ) == Some(after_feed(game_in(store, id), rows[i])) by {
            if i < last {
                assert(front[i] == rows[i]);
            }
        }
        if forall|i: int| 0 <= i < rows.len() ==> (#[trigger] rows[i]).id != id {
            assert forall|i: int| 0 <= i < front.len() implies (#[trigger] front[i]).id != id by {
                assert(front[i] == rows[i]);
            }
        }
    }
}

/// Bringing in the same feed once more leaves the whole store as it is, where its rows have
/// identifiers of their own.
pub proof fn feeds_are_idempotent(store: Map<Seq<char>, EntryView>, rows: Seq<FeedRowView>)
    requires
        have_own_ids(rows),
    ensures
        after_rows(after_rows(store, rows), rows) == after_rows(store, rows),
{
    let once = after_rows(store, rows);
    let twice = after_rows(once, rows);
    assert forall|id: Seq<char>| game_in(twice, id) == game_in(once, id) by {
        feeds_touch_their_own_games(store, rows, id);
        feeds_touch_their_own_games(once, rows, id);
        if exists|i: int| 0 <= i < rows.len() && (#[trigger] rows[i]).id == id {
            let i = choose|i: int| 0 <= i < rows.len() && (#[trigger] rows[i]).id == id;
            feed_rows_are_idempotent(game_in(store, id), rows[i]);
        }
    }
    assert forall|id: Seq<char>| #[trigger] twice.dom().contains(id) == once.dom().contains(id) by {
        assert(game_in(twice, id) == game_in(once, id));
    }
    assert forall|id: Seq<char>| twice.dom().contains(id) implies #[trigger] twice[id]
        == once[id] by {
        assert(game_in(twice, id) == game_in(once, id));
    }
    assert(twice.dom() =~= once.dom());
    assert(twice =~= once);
}

/// The list of all games leaves a stored game as it is, and bringing in the same row once more
/// changes nothing.
pub proof fn catalog_rows_never_overwrite(
    entry: EntryView,
    stored: Option<EntryView>,
    row: CatalogRowView,
)
    ensures
        after_catalog(Some(entry), row) == entry,
        after_catalog(Some(after_catalog(stored, row)), row) == after_catalog(stored, row),
{
}

/// A game that comes into the store is yet to be fetched, wherever it comes from.
pub proof fn new_games_are_yet_to_be_fetched(row: FeedRowView, listed: CatalogRowView)
    ensures
        !after_feed(None, row).is_indexed,
        !after_catalog(None, listed).is_indexed,
{
}

/// Browsing without a query fetches no post, and a game that has been fetched is not fetched
/// again.
pub proof fn fetches_are_on_demand(entry: EntryView, metadata: MetadataView, query: Seq<char>)
    ensures
        !fetch_is_due(entry, Seq::empty()),
        !fetch_is_due(after_fetch(entry, metadata), query),
{
}

/// What can happen to a game in the store.
pub enum Change {
    /// A row of the feed is brought in.
    Feed(FeedRowView),
    /// A row of the list of all games is brought in.
    Catalog(CatalogRowView),
    /// What a deep fetch has found is entered.
    Fetch(MetadataView),
}

/// What the store holds of a game after a change: a fetch needs a game to be entered in.
pub open spec fn after_change(stored: Option<EntryView>, change: Change) -> Option<EntryView> {
    match change {
        Change::Feed(row) => Some(after_feed(stored, row)),
        Change::Catalog(row) => Some(after_catalog(stored, row)),
        Change::Fetch(metadata) => match stored {
            Some(entry) => Some(after_fetch(entry, metadata)),
            None => None,
        },
    }
}

/// What a store that was empty at first holds of a game after a series of changes.
pub open spec fn after_changes(changes: Seq<Change>) -> Option<EntryView>
    decreases changes.len(),
{
    if changes.len() == 0 {
        None
    } else {
        after_change(after_changes(changes.drop_last()), changes.last())
    }
}

/// Whether a link that a fetch has found, if any, is a magnet link.
pub open spec fn brings_magnet_link(metadata: MetadataView) -> bool {
    metadata.magnet_link matches Some(link) ==> is_magnet_link(link)
}

/// Whether every fetch among some changes has found a magnet link or none.
pub open spec fn bring_magnet_links(changes: Seq<Change>) -> bool {
    forall|i: int|
        0 <= i < changes.len() ==> (#[trigger] changes[i] matches Change::Fetch(metadata)
            ==> brings_magnet_link(metadata))
}

/// Whatever the feed, the list and fetches have made of a game, the link that the store holds
/// of it is a magnet link.
pub proof fn stored_links_are_magnet_links(changes: Seq<Change>)
    requires
        bring_magnet_links(changes),
    ensures
        after_changes(changes) matches Some(entry) ==> (entry.magnet_link matches Some(link)
            ==> is_magnet_link(link)),
    decreases changes.len(),
{
    if changes.len() > 0 {
        let front = changes.drop_last();
        assert forall|i: int| 0 <= i < front.len() implies (#[trigger] front[i] matches Change::Fetch(
            metadata,
        ) ==> brings_magnet_link(metadata)) by {
            assert(front[i] == changes[i]);
        }
        stored_links_are_magnet_links(front);
        assert(changes[changes.len() - 1] == changes.last());
    }
}

/// The values of a game, of rows and of metadata are those of their fields, one by one.
pub proof fn values_are_kept(
    entry: GameEntry,
    listed: CatalogRow,
    row: FeedRow,
    metadata: Metadata,
)
    ensures
        entry@.id == entry.id@,
        entry@.provider == entry.provider@,
        entry@.title == entry.title@,
        entry@.post_url == entry.post_url@,
        entry.magnet_link matches Some(s) ==> entry@.magnet_link == Some(s@),
        entry.magnet_link is None ==> entry@.magnet_link is None,
        entry.torrent_blob matches Some(b) ==> entry@.torrent_blob == Some(b@),
        entry.torrent_blob is None ==> entry@.torrent_blob is None,
        entry@.is_indexed == entry.is_indexed,
        entry@.size_bytes == entry.size_bytes,
        entry.published_at matches Some(s) ==> entry@.published_at == Some(s@),
        entry.published_at is None ==> entry@.published_at is None,
        entry.info_hash matches Some(s) ==> entry@.info_hash == Some(s@),
        entry.info_hash is None ==> entry@.info_hash is None,
        listed@.id == listed.id@,
        listed@.title == listed.title@,
        listed@.post_url == listed.post_url@,
        row@.id == row.id@,
        row@.title == row.title@,
        row@.post_url == row.post_url@,
        row@.published == row.published,
        metadata.magnet_link matches Some(s) ==> metadata@.magnet_link == Some(s@),
        metadata.magnet_link is None ==> metadata@.magnet_link is None,
        metadata@.size_bytes == metadata.size_bytes,
        metadata.published_at matches Some(s) ==> metadata@.published_at == Some(s@),
        metadata.published_at is None ==> metadata@.published_at is None,
        metadata@.seeders == metadata.seeders,
        metadata@.leechers == metadata.leechers,
        metadata@.completed == metadata.completed,
        opt_entry(Some(entry)) == Some(entry@),
        opt_entry(None) is None,
        opt_metadata(Some(metadata)) == Some(metadata@),
        opt_metadata(None) is None,
{
}

/// A game that comes into the store has the identifier, the title and the address of its row,
/// stands under the name of this provider, and has nothing that only a fetch can tell. A row of
/// the feed gives it its date too.
pub proof fn new_games_have_what_their_row_tells(
    row: FeedRowView,
    listed: CatalogRowView,
    at: Moment,
)
    ensures
        ({
            let game = after_feed(None, row);
            &&& game.id == row.id && game.title == row.title && game.post_url == row.post_url
            &&& game.provider == "FitGirl Repacks"@
            &&& !game.is_indexed && game.magnet_link is None && game.torrent_blob is None
            &&& game.size_bytes is None && game.info_hash is None
            &&& row.published == Some(at) ==> game.published_at == Some(
                rfc3339_text(at.seconds, at.nanos),
            )
            &&& row.published is None ==> game.published_at is None
        }),
        ({
            let game = after_catalog(None, listed);
            &&& game.id == listed.id && game.title == listed.title && game.post_url
                == listed.post_url
            &&& game.provider == "FitGirl Repacks"@
            &&& !game.is_indexed && game.magnet_link is None && game.torrent_blob is None
            &&& game.size_bytes is None && game.info_hash is None && game.published_at is None
        }),
{
}

/// Of a stored game the feed keeps everything but its date and whether it is fetched, field by
/// field; the date becomes that of the row, or none.
pub proof fn feed_changes_the_date_alone(entry: EntryView, row: FeedRowView, at: Moment)
    ensures
        ({
            let game = after_feed(Some(entry), row);
            &&& game.id == entry.id && game.provider == entry.provider
            &&& game.title == entry.title && game.post_url == entry.post_url
            &&& game.magnet_link == entry.magnet_link && game.torrent_blob == entry.torrent_blob
            &&& game.size_bytes == entry.size_bytes && game.info_hash == entry.info_hash
            &&& row.published == Some(at) ==> game.published_at == Some(
                rfc3339_text(at.seconds, at.nanos),
            )
            &&& row.published is None ==> game.published_at is None
            &&& !entry.is_indexed ==> !game.is_indexed
        }),
{
}

/// A fetch marks a game as fetched and gives it the link, the size and the date that the post
/// tells, whatever it had before, with the hash in that link; who the game is stays.
pub proof fn fetches_enter_what_the_post_tells(entry: EntryView, metadata: MetadataView)
    ensures
        ({
            let game = after_fetch(entry, metadata);
            &&& game.is_indexed
            &&& game.magnet_link == metadata.magnet_link
            &&& game.size_bytes == metadata.size_bytes
            &&& game.published_at == metadata.published_at
            &&& metadata.magnet_link matches Some(link) ==> game.info_hash
                == crate::magnet::info_hash_of(link)
            &&& metadata.magnet_link is None ==> game.info_hash is None
            &&& game.id == entry.id && game.provider == entry.provider
            &&& game.title == entry.title && game.post_url == entry.post_url
            &&& game.torrent_blob == entry.torrent_blob
        }),
{
}

/// Every search for something fetches the post of every game that is not fetched yet, and of no
/// other; without a query none is fetched.
pub proof fn searches_fetch_what_is_missing(entry: EntryView, query: Seq<char>)
    ensures
        query.len() > 0 && !entry.is_indexed ==> fetch_is_due(entry, query),
        entry.is_indexed ==> !fetch_is_due(entry, query),
        query.len() == 0 ==> !fetch_is_due(entry, query),
{
}

/// A stored date that cannot be read is older exactly where it is empty or its text stands in
/// front of the new date's.
pub proof fn unreadable_dates_are_ordered_as_texts(at: Moment, stored: Seq<char>)
    requires
        moment_in(Some(stored)) is None,
    ensures
        is_later(at, Some(stored)) == (stored.len() == 0 || comes_after(
            rfc3339_text(at.seconds, at.nanos),
            stored,
        )),
{
}

} // verus!
