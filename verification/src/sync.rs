//! Keeping the store current: whether the feed reaches back to the last sync, and what is to be
//! done where it does not.
use vstd::prelude::*;

use crate::moment::Moment;
#[allow(unused_imports)]
use crate::moment::{four_digit_year, moment_in, rfc3339_text};
#[allow(unused_imports)]
use crate::text::opt_str;

verus! {

/// What came of reading the feed at the start.
#[derive(Clone, Copy, Debug, PartialEq, Eq, Structural)]
pub enum FeedOutcome {
    /// The feed could not be read.
    Failed,
    /// The feed was read, and this is the oldest date in it, if there is any.
    Read(Option<Moment>),
}

/// What is to be done next.
#[derive(Clone, Copy, Debug, PartialEq, Eq, Structural)]
pub enum SyncStep {
    /// Crawl the list of all games.
    Crawl,
    /// Record that the store is current.
    Record,
    /// Go on watching the feed.
    Watch,
}

/// Whether the feed reaches back to the last sync, so that nothing was missed since.
pub open spec fn is_continuous(last_sync: Option<Moment>, feed: FeedOutcome) -> bool {
    match (last_sync, feed) {
        (Some(last), FeedOutcome::Read(Some(oldest))) => oldest.no_later(last),
        _ => false,
    }
}

/// Whether the feed reaches back to the last sync.
pub fn feed_is_continuous(last_sync: Option<Moment>, feed: FeedOutcome) -> (res: bool)
    ensures
        res == is_continuous(last_sync, feed),
{
    match (last_sync, feed) {
        (Some(last), FeedOutcome::Read(Some(oldest))) => oldest.is_no_later(&last),
        _ => false,
    }
}

/// Decides after the feed was read at the start, by the record of the last sync: a crawl of the
/// list of all games, unless the feed reaches back to that sync.
pub fn after_first_feed(record: Option<&str>, feed: FeedOutcome) -> (res: SyncStep)
    ensures
        res == (if is_continuous(moment_in(opt_str(record)), feed) {
            SyncStep::Record
        } else {
            SyncStep::Crawl
        }),
{
    let last_sync = match record {
        Some(text) => Moment::from_rfc3339(text),
        None => None,
    };
    if feed_is_continuous(last_sync, feed) {
        SyncStep::Record
    } else {
        SyncStep::Crawl
    }
}

/// Decides after a crawl: only one that went through is recorded.
pub fn after_crawl(succeeded: bool) -> (res: SyncStep)
    ensures
        res == (if succeeded {
            SyncStep::Record
        } else {
            SyncStep::Watch
        }),
{
    if succeeded {
        SyncStep::Record
    } else {
        SyncStep::Watch
    }
}

/// The record of a sync at `now`. With a four-digit year it is read back as that point in time.
pub fn sync_record(now: &Moment) -> (res: String)
    requires
        now.valid(),
    ensures
        res@ == rfc3339_text(now.seconds, now.nanos),
        four_digit_year(now.seconds as int) ==> moment_in(Some(res@)) == Some(*now),
{
    now.to_rfc3339()
}

/// A feed whose oldest date is no later than the recorded sync leads to no crawl.
pub proof fn continuous_feed_skips_the_crawl(record: Seq<char>, last: Moment, oldest: Moment)
    requires
        moment_in(Some(record)) == Some(last),
        oldest.no_later(last),
    ensures
        is_continuous(moment_in(Some(record)), FeedOutcome::Read(Some(oldest))),
{
}

/// In every other case there is a crawl: without a record of a sync, when the feed could not be
/// read or holds no date, and when its oldest date is later than the sync.
pub proof fn every_gap_leads_to_a_crawl(last_sync: Option<Moment>, last: Moment, oldest: Moment)
    ensures
        forall|feed: FeedOutcome| !#[trigger] is_continuous(None, feed),
        !is_continuous(last_sync, FeedOutcome::Failed),
        !is_continuous(last_sync, FeedOutcome::Read(None)),
        !oldest.no_later(last) ==> !is_continuous(Some(last), FeedOutcome::Read(Some(oldest))),
{
}

/// A feed that reaches back further is continuous where another is.
pub proof fn older_feeds_stay_continuous(
    last_sync: Option<Moment>,
    oldest: Moment,
    older: Moment,
)
    requires
        older.no_later(oldest),
        is_continuous(last_sync, FeedOutcome::Read(Some(oldest))),
    ensures
        is_continuous(last_sync, FeedOutcome::Read(Some(older))),
{
}

} // verus!
