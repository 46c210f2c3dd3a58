use fitnab::scrape::{best_health, ScrapeResult, TrackerError, TrackerSession, TrackerStep};

fn connect_answer(transaction: u32, connection: [u8; 8]) -> Vec<u8> {
    let mut out = 0u32.to_be_bytes().to_vec();
    out.extend(transaction.to_be_bytes());
    out.extend(connection);
    out
}

fn scrape_answer(transaction: u32, seeders: u32, completed: u32, leechers: u32) -> Vec<u8> {
    let mut out = 2u32.to_be_bytes().to_vec();
    for n in [transaction, seeders, completed, leechers] {
        out.extend(n.to_be_bytes());
    }
    out
}

#[test]
fn connect_request() {
    let (session, packet) = TrackerSession::start_with([7; 20], 0x01020304);
    let mut expected = 0x41727101980u64.to_be_bytes().to_vec();
    expected.extend([0, 0, 0, 0, 1, 2, 3, 4]);
    assert_eq!(packet, expected);
    assert_eq!(session.transaction, 0x01020304);
    assert!(!session.scraping);
}

#[test]
fn random_transactions() {
    let (session, packet) = TrackerSession::start([7; 20]);
    assert_eq!(packet[12..], session.transaction.to_be_bytes());
    let datagram = connect_answer(session.transaction, [9; 8]);
    match session.receive(&datagram) {
        TrackerStep::Send { session: next, packet } => {
            assert_eq!(packet[12..16], next.transaction.to_be_bytes());
            assert_eq!(packet[16..], [7; 20]);
        }
        _ => panic!("expected a scrape request"),
    }
}

#[test]
fn a_whole_exchange() {
    let (session, _) = TrackerSession::start_with([7; 20], 5);
    let datagram = connect_answer(5, [1, 2, 3, 4, 5, 6, 7, 8]);
    let (session, packet) = match session.receive_with(&datagram, 6) {
        TrackerStep::Send { session, packet } => (session, packet),
        _ => panic!("expected a scrape request"),
    };
    let mut expected = vec![1, 2, 3, 4, 5, 6, 7, 8, 0, 0, 0, 2, 0, 0, 0, 6];
    expected.extend([7; 20]);
    assert_eq!(packet, expected);
    match session.receive_with(&scrape_answer(6, 0x12345678, 3, u32::MAX), 0) {
        TrackerStep::Done { result } => {
            assert_eq!(result, ScrapeResult { seeders: 0x12345678, leechers: u32::MAX });
        }
        _ => panic!("expected a result"),
    }
}

#[test]
fn invalid_connect_responses() {
    let (session, _) = TrackerSession::start_with([7; 20], 5);
    let good = connect_answer(5, [0; 8]);
    let mut wrong_action = good.clone();
    wrong_action[3] = 3;
    for datagram in [good[..15].to_vec(), connect_answer(6, [0; 8]), wrong_action, Vec::new()] {
        match session.receive_with(&datagram, 6) {
            TrackerStep::Fail { error } => {
                assert_eq!(error, TrackerError::InvalidConnectResponse);
                assert_eq!(error.message(), "Invalid connect response");
            }
            _ => panic!("expected a failure"),
        }
    }
}

#[test]
fn invalid_scrape_responses() {
    let session = TrackerSession { info_hash: [7; 20], transaction: 6, scraping: true };
    let good = scrape_answer(6, 1, 2, 3);
    for datagram in [good[..19].to_vec(), scrape_answer(7, 1, 2, 3), connect_answer(6, [0; 8])] {
        match session.receive_with(&datagram, 0) {
            TrackerStep::Fail { error } => {
                assert_eq!(error, TrackerError::InvalidScrapeResponse);
                assert_eq!(error.message(), "Invalid scrape response");
            }
            _ => panic!("expected a failure"),
        }
    }
}

#[test]
fn longer_datagrams_are_answers_too() {
    let session = TrackerSession { info_hash: [7; 20], transaction: 6, scraping: true };
    let mut datagram = scrape_answer(6, 1, 2, 3);
    datagram.extend([0; 100]);
    assert!(matches!(session.receive_with(&datagram, 0), TrackerStep::Done { .. }));
}

#[test]
fn the_most_seeders_count() {
    let replies = vec![
        ScrapeResult { seeders: 3, leechers: 90 },
        ScrapeResult { seeders: 7, leechers: 1 },
        ScrapeResult { seeders: 7, leechers: 2 },
        ScrapeResult { seeders: 0, leechers: 5 },
    ];
    assert_eq!(best_health(&replies), ScrapeResult { seeders: 7, leechers: 1 });
    assert_eq!(best_health(&Vec::new()), ScrapeResult { seeders: 0, leechers: 0 });
}
