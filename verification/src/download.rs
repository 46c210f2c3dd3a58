//! The answer to a request for the download of a game.
use vstd::prelude::*;

use crate::provider::{apply_metadata, copy_text, GameEntry, Metadata};
#[allow(unused_imports)]
use crate::magnet::is_magnet_link;
#[allow(unused_imports)]
use crate::moment::{rfc3339_text, Moment};
#[allow(unused_imports)]
use crate::provider::{
    after_changes, after_feed, after_fetch, bring_magnet_links, brings_magnet_link, is_later,
    opt_entry, opt_metadata, stored_links_are_magnet_links, Change, EntryView, FeedRowView, MetadataView,
};

verus! {

/// The answer to a request for a download.
#[derive(Debug, PartialEq, Eq)]
pub enum DownloadReply<T> {
    /// There is no such game in the store.
    GameNotFound,
    /// The download is at this magnet link.
    Redirect(T),
    /// The post of the game holds no magnet link.
    MagnetNotFound,
    /// The post of the game could not be fetched.
    FetchFailed,
}

impl View for DownloadReply<String> {
    type V = DownloadReply<Seq<char>>;

    open spec fn view(&self) -> DownloadReply<Seq<char>> {
        match self {
            DownloadReply::GameNotFound => DownloadReply::GameNotFound,
            DownloadReply::Redirect(magnet) => DownloadReply::Redirect(magnet@),
            DownloadReply::MagnetNotFound => DownloadReply::MagnetNotFound,
            DownloadReply::FetchFailed => DownloadReply::FetchFailed,
        }
    }
}

/// What a request for a download leads to at first.
#[derive(Debug, PartialEq, Eq)]
pub enum DownloadStep {
    /// It can be answered at once.
    Answer { reply: DownloadReply<String> },
    /// The post of the game is to be fetched.
    Fetch { game: GameEntry },
}

/// The answer that the store alone gives, if it gives one: a game that it does not hold is not
/// found, and one that has been fetched is where its magnet link says.
pub open spec fn stored_answer(stored: Option<EntryView>) -> Option<DownloadReply<Seq<char>>> {
    match stored {
        None => Some(DownloadReply::GameNotFound),
        Some(game) => match game.magnet_link {
            Some(magnet) => if game.is_indexed {
                Some(DownloadReply::Redirect(magnet))
            } else {
                None
            },
            None => None,
        },
    }
}

/// The answer after the post was fetched.
pub open spec fn fetched_answer(fetched: Option<MetadataView>) -> DownloadReply<Seq<char>> {
    match fetched {
        Some(metadata) => match metadata.magnet_link {
            Some(magnet) => DownloadReply::Redirect(magnet),
            None => DownloadReply::MagnetNotFound,
        },
        None => DownloadReply::FetchFailed,
    }
}

/// What is to be stored of a game after its post was fetched: what the post tells, if it holds
/// a magnet link, and nothing otherwise.
pub open spec fn fetched_entry(
    game: EntryView,
    fetched: Option<MetadataView>,
) -> Option<EntryView> {
    match fetched {
        Some(metadata) => if metadata.magnet_link is Some {
            Some(after_fetch(game, metadata))
        } else {
            None
        },
        None => None,
    }
}

/// Begins with a request for a download, by what the store holds under its identifier.
pub fn begin(stored: Option<GameEntry>) -> (res: DownloadStep)
    ensures
        match res {
            DownloadStep::Answer { reply } => stored_answer(opt_entry(stored)) == Some(reply@),
            DownloadStep::Fetch { game } => stored_answer(opt_entry(stored)) is None && stored
                == Some(game),
        },
{
    match stored {
        None => DownloadStep::Answer { reply: DownloadReply::GameNotFound },
        Some(game) => {
            if game.is_indexed {
                if let Some(magnet) = copy_text(&game.magnet_link) {
                    return DownloadStep::Answer { reply: DownloadReply::Redirect(magnet) };
                }
            }
            DownloadStep::Fetch { game }
        },
    }
}

/// Ends a request for a download once the post was fetched or could not be: the answer, and the
/// game to store, if any.
pub fn finish(game: GameEntry, fetched: Option<Metadata>) -> (res: (
    DownloadReply<String>,
    Option<GameEntry>,
))
    ensures
        res.0@ == fetched_answer(opt_metadata(fetched)),
        opt_entry(res.1) == fetched_entry(game@, opt_metadata(fetched)),
{
    match fetched {
        Some(metadata) => match copy_text(&metadata.magnet_link) {
            Some(magnet) => {
                let entry = apply_metadata(game, &metadata);
                (DownloadReply::Redirect(magnet), Some(entry))
            },
            None => (DownloadReply::MagnetNotFound, None),
        },
        None => (DownloadReply::FetchFailed, None),
    }
}

impl DownloadReply<String> {
    /// The HTTP status of the answer.
    pub fn status(&self) -> (res: u16)
        ensures
            res == match self@ {
                DownloadReply::GameNotFound => 404,
                DownloadReply::Redirect(_) => 307,
                DownloadReply::MagnetNotFound => 404,
                DownloadReply::FetchFailed => 500u16,
            },
    {
        match self {
            DownloadReply::GameNotFound => 404,
            DownloadReply::Redirect(_) => 307,
            DownloadReply::MagnetNotFound => 404,
            DownloadReply::FetchFailed => 500,
        }
    }

    /// The text of the answer: none with a redirect.
    pub fn message(&self) -> (res: &'static str)
        ensures
            res@ == match self@ {
                DownloadReply::GameNotFound => "Game not found"@,
                DownloadReply::Redirect(_) => ""@,
                DownloadReply::MagnetNotFound => "Magnet link not found on FitGirl page"@,
                DownloadReply::FetchFailed => "Failed to scrape FitGirl"@,
            },
    {
        match self {
            DownloadReply::GameNotFound => "Game not found",
            DownloadReply::Redirect(_) => "",
            DownloadReply::MagnetNotFound => "Magnet link not found on FitGirl page",
            DownloadReply::FetchFailed => "Failed to scrape FitGirl",
        }
    }
}

/// What a fetch has stored answers the next request at once, and with the same magnet link.
pub proof fn fetched_games_are_answered_from_the_store(
    game: EntryView,
    fetched: Option<MetadataView>,
)
    ensures
        fetched_entry(game, fetched) matches Some(stored) ==> stored_answer(Some(stored)) == Some(
            fetched_answer(fetched),
        ),
{
}

/// When the feed brings another date for a game than the stored one, and a later one, the next
/// request for its download fetches its post again.
pub proof fn updated_games_are_fetched_for_download(
    entry: EntryView,
    row: FeedRowView,
    at: Moment,
)
    requires
        row.published == Some(at),
        entry.published_at != Some(rfc3339_text(at.seconds, at.nanos)),
        is_later(at, entry.published_at),
    ensures
        stored_answer(Some(after_feed(Some(entry), row))) is None,
{
}

/// Whatever the feed, the list and fetches have made of a game, every redirect leads to a magnet
/// link, whether the store answers or a fetch.
pub proof fn redirects_lead_to_magnet_links(
    changes: Seq<Change>,
    fetched: Option<MetadataView>,
)
    requires
        bring_magnet_links(changes),
        fetched matches Some(metadata) ==> brings_magnet_link(metadata),
    ensures
        stored_answer(after_changes(changes)) matches Some(DownloadReply::Redirect(link))
            ==> is_magnet_link(link),
        fetched_answer(fetched) matches DownloadReply::Redirect(link) ==> is_magnet_link(link),
{
    stored_links_are_magnet_links(changes);
}

/// A game is stored anew exactly when the answer after the fetch is a redirect.
pub proof fn only_redirects_are_stored(game: EntryView, fetched: Option<MetadataView>)
    ensures
        fetched_entry(game, fetched) is Some <==> fetched_answer(fetched) is Redirect,
{
}

/// The store answers for a game that it does not hold, and for a fetched game with a magnet link,
/// by that link; for every other game the post is fetched.
pub proof fn store_answers_for_fetched_games(game: EntryView, link: Seq<char>)
    ensures
        stored_answer(None) == Some(DownloadReply::<Seq<char>>::GameNotFound),
        game.is_indexed && game.magnet_link == Some(link) ==> stored_answer(Some(game)) == Some(
            DownloadReply::Redirect(link),
        ),
        !game.is_indexed || game.magnet_link is None ==> stored_answer(Some(game)) is None,
{
}

/// After a fetch the answer is the link that the post tells; a post without one, and a fetch that
/// failed, are answered for, each in its own way.
pub proof fn fetches_are_answered(metadata: MetadataView, link: Seq<char>)
    ensures
        metadata.magnet_link == Some(link) ==> fetched_answer(Some(metadata))
            == DownloadReply::Redirect(link),
        metadata.magnet_link is None ==> fetched_answer(Some(metadata)) is MagnetNotFound,
        fetched_answer(None) is FetchFailed,
{
}

/// What is stored after a fetch with a magnet link is the game with what the post tells.
pub proof fn fetched_games_are_stored(game: EntryView, metadata: MetadataView)
    ensures
        metadata.magnet_link is Some ==> fetched_entry(game, Some(metadata)) == Some(
            after_fetch(game, metadata),
        ),
        metadata.magnet_link is None ==> fetched_entry(game, Some(metadata)) is None,
        fetched_entry(game, None) is None,
{
}

/// The values of an answer are those of the answer.
pub proof fn answers_are_kept(reply: DownloadReply<String>)
    ensures
        reply matches DownloadReply::Redirect(link) ==> reply@ == DownloadReply::Redirect(link@),
        reply is GameNotFound <==> reply@ is GameNotFound,
        reply is MagnetNotFound <==> reply@ is MagnetNotFound,
        reply is FetchFailed <==> reply@ is FetchFailed,
{
}

} // verus!
