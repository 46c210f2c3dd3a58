use fitnab::moment::Moment;
use fitnab::sync::{
    after_crawl, after_first_feed, feed_is_continuous, sync_record, FeedOutcome, SyncStep,
};

fn at(seconds: i64) -> Moment {
    Moment::new(seconds, 0).unwrap()
}

#[test]
fn a_continuous_feed_skips_the_crawl() {
    let record = sync_record(&at(1000));
    assert_eq!(record, "1970-01-01T00:16:40+00:00");
    for oldest in [at(999), at(1000)] {
        let feed = FeedOutcome::Read(Some(oldest));
        assert_eq!(after_first_feed(Some(&record), feed), SyncStep::Record);
    }
}

#[test]
fn a_gap_leads_to_a_crawl() {
    let record = sync_record(&at(1000));
    let later = FeedOutcome::Read(Some(at(1001)));
    assert_eq!(after_first_feed(Some(&record), later), SyncStep::Crawl);
    assert_eq!(after_first_feed(Some(&record), FeedOutcome::Read(None)), SyncStep::Crawl);
    assert_eq!(after_first_feed(Some(&record), FeedOutcome::Failed), SyncStep::Crawl);
}

#[test]
fn without_a_record_there_is_a_crawl() {
    let feed = FeedOutcome::Read(Some(at(0)));
    assert_eq!(after_first_feed(None, feed), SyncStep::Crawl);
    assert_eq!(after_first_feed(Some("long ago"), feed), SyncStep::Crawl);
}

#[test]
fn continuity_by_itself() {
    assert!(feed_is_continuous(Some(at(5)), FeedOutcome::Read(Some(at(5)))));
    assert!(!feed_is_continuous(Some(at(5)), FeedOutcome::Read(Some(at(6)))));
    assert!(!feed_is_continuous(None, FeedOutcome::Read(Some(at(5)))));
    assert!(!feed_is_continuous(Some(at(5)), FeedOutcome::Failed));
}

#[test]
fn only_a_crawl_that_went_through_is_recorded() {
    assert_eq!(after_crawl(true), SyncStep::Record);
    assert_eq!(after_crawl(false), SyncStep::Watch);
}
