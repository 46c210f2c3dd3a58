//! The health of a torrent: the exchange of datagrams with a UDP tracker, and the choice among
//! the trackers' answers.
use vstd::prelude::*;

verus! {

/// What a tracker says of a torrent.
#[derive(Clone, Copy, Debug, PartialEq, Eq, Structural)]
pub struct ScrapeResult {
    pub seeders: u32,
    pub leechers: u32,
}

/// Why an exchange with a tracker came to nothing.
#[derive(Clone, Copy, Debug, PartialEq, Eq, Structural)]
pub enum TrackerError {
    InvalidConnectResponse,
    InvalidScrapeResponse,
}

/// The number that opens an exchange with a UDP tracker.
pub const PROTOCOL_ID: u64 = 0x41727101980;

/// The action of a connect request.
pub const ACTION_CONNECT: u64 = 0;

/// The action of a scrape request.
pub const ACTION_SCRAPE: u64 = 2;

/// The number that bytes stand for, the most significant first.
pub open spec fn be_value(bytes: Seq<u8>) -> int
    decreases bytes.len(),
{
    if bytes.len() == 0 {
        0
    } else {
        be_value(bytes.drop_last()) * 256 + bytes.last()
    }
}

/// The last `len` bytes of a number, the most significant first.
pub open spec fn be_bytes(n: nat, len: nat) -> Seq<u8>
    decreases len,
{
    if len == 0 {
        Seq::empty()
    } else {
        be_bytes(n / 256, (len - 1) as nat).push((n % 256) as u8)
    }
}

/// The connect request of a transaction.
pub open spec fn connect_packet(transaction: u32) -> Seq<u8> {
    be_bytes(PROTOCOL_ID as nat, 8) + be_bytes(ACTION_CONNECT as nat, 4) + be_bytes(
        transaction as nat,
        4,
    )
}

/// The scrape request of a transaction for one hash.
pub open spec fn scrape_packet(connection: Seq<u8>, transaction: u32, hash: Seq<u8>) -> Seq<u8> {
    connection + be_bytes(ACTION_SCRAPE as nat, 4) + be_bytes(transaction as nat, 4) + hash
}

/// Whether a datagram has at least `len` bytes and answers `action` in `transaction`.
pub open spec fn answers(datagram: Seq<u8>, len: int, action: u64, transaction: u32) -> bool {
    &&& datagram.len() >= len
    &&& be_value(datagram.subrange(0, 4)) == action
    &&& be_value(datagram.subrange(4, 8)) == transaction
}

proof fn lemma_be_bytes_len(n: nat, len: nat)
    ensures
        be_bytes(n, len).len() == len,
    decreases len,
{
    if len > 0 {
        lemma_be_bytes_len(n / 256, (len - 1) as nat);
    }
}

/// A number below 2^32 is the one that its four bytes stand for.
pub proof fn be_round_trip(n: u32)
    ensures
        be_bytes(n as nat, 4).len() == 4,
        be_value(be_bytes(n as nat, 4)) == n,
{
    reveal_with_fuel(be_bytes, 5);
    reveal_with_fuel(be_value, 5);
    lemma_be_bytes_len(n as nat, 4);
    let b4 = be_bytes(n as nat, 4);
    let b3 = be_bytes(n as nat / 256, 3);
    let b2 = be_bytes(n as nat / 256 / 256, 2);
    let b1 = be_bytes(n as nat / 256 / 256 / 256, 1);
    assert(b4.drop_last() =~= b3);
    assert(b3.drop_last() =~= b2);
    assert(b2.drop_last() =~= b1);
    assert(b1.drop_last() =~= Seq::<u8>::empty());
}

/// Appends the last `len` bytes of `n`, the most significant first.
fn append_be(out: &mut Vec<u8>, n: u64, len: usize)
    ensures
        final(out)@ == old(out)@ + be_bytes(n as nat, len as nat),
    decreases len,
{
    if len > 0 {
        append_be(out, n / 256, len - 1);
        out.push((n % 256) as u8);
    }
    assert(out@ =~= old(out)@ + be_bytes(n as nat, len as nat));
}

/// The number that the four bytes from `at` on stand for.
fn read_be(data: &[u8], at: usize) -> (res: u32)
    requires
        at + 4 <= data@.len(),
    ensures
        res == be_value(data@.subrange(at as int, at + 4)),
{
    let a = data[at] as u32;
    let b = data[at + 1] as u32;
    let c = data[at + 2] as u32;
    let d = data[at + 3] as u32;
    proof {
        reveal_with_fuel(be_value, 5);
        let s = data@.subrange(at as int, at + 4);
        assert(s.drop_last() =~= data@.subrange(at as int, at + 3));
        assert(s.drop_last().drop_last() =~= data@.subrange(at as int, at + 2));
        assert(s.drop_last().drop_last().drop_last() =~= data@.subrange(at as int, at + 1));
        assert(s.drop_last().drop_last().drop_last().drop_last() =~= Seq::<u8>::empty());
    }
    ((a * 256 + b) * 256 + c) * 256 + d
}

/// Whether `datagram` has at least `len` bytes and answers `action` in `transaction`.
fn is_answer(datagram: &[u8], len: usize, action: u64, transaction: u32) -> (res: bool)
    requires
        len >= 8,
    ensures
        res == answers(datagram@, len as int, action, transaction),
{
    datagram.len() >= len && read_be(datagram, 0) as u64 == action && read_be(datagram, 4)
        == transaction
}

/// Appends the bytes of `data` from `from` up to `to`.
fn append_range(out: &mut Vec<u8>, data: &[u8], from: usize, to: usize)
    requires
        from <= to <= data@.len(),
    ensures
        final(out)@ == old(out)@ + data@.subrange(from as int, to as int),
{
    let mut i: usize = from;
    while i < to
        invariant
            from <= i <= to <= data@.len(),
            out@ == old(out)@ + data@.subrange(from as int, i as int),
        decreases to - i,
    {
        out.push(data[i]);
        assert(data@.subrange(from as int, i + 1) =~= data@.subrange(from as int, i as int).push(
            data@[i as int],
        ));
        i = i + 1;
    }
}

/// `rand::random`: any number at all.
#[verifier::external_body]
fn random_transaction() -> u32 {
    rand::random()
}

/// An exchange with a tracker that waits for its next datagram.
#[derive(Clone, Copy, Debug)]
pub struct TrackerSession {
    pub info_hash: [u8; 20],
    /// The transaction that the awaited datagram has to answer.
    pub transaction: u32,
    /// Whether the scrape request is out already.
    pub scraping: bool,
}

/// What follows from a datagram.
#[derive(Debug)]
pub enum TrackerStep {
    /// The packet is to be sent, and the exchange goes on.
    Send { session: TrackerSession, packet: Vec<u8> },
    /// The tracker has answered.
    Done { result: ScrapeResult },
    /// The datagram is no valid answer.
    Fail { error: TrackerError },
}

/// Whether `step` is what follows from `datagram` in `session`, where a further request gets
/// the number `transaction`.
pub open spec fn is_step(
    session: TrackerSession,
    datagram: Seq<u8>,
    transaction: u32,
    step: TrackerStep,
) -> bool {
    if !session.scraping {
        if answers(datagram, 16, ACTION_CONNECT, session.transaction) {
            match step {
                TrackerStep::Send { session: next, packet } => {
                    &&& next.info_hash == session.info_hash
                    &&& next.transaction == transaction
                    &&& next.scraping
                    &&& packet@ == scrape_packet(
                        datagram.subrange(8, 16),
                        transaction,
                        session.info_hash@,
                    )
                },
                _ => false,
            }
        } else {
            step == (TrackerStep::Fail { error: TrackerError::InvalidConnectResponse })
        }
    } else {
        if answers(datagram, 20, ACTION_SCRAPE, session.transaction) {
            match step {
                TrackerStep::Done { result } => {
                    &&& result.seeders == be_value(datagram.subrange(8, 12))
                    &&& result.leechers == be_value(datagram.subrange(16, 20))
                },
                _ => false,
            }
        } else {
            step == (TrackerStep::Fail { error: TrackerError::InvalidScrapeResponse })
        }
    }
}

impl TrackerError {
    /// The error in words.
    pub fn message(&self) -> (res: &'static str)
        ensures
            res@ == match *self {
                TrackerError::InvalidConnectResponse => "Invalid connect response"@,
                TrackerError::InvalidScrapeResponse => "Invalid scrape response"@,
            },
    {
        match self {
            TrackerError::InvalidConnectResponse => "Invalid connect response",
            TrackerError::InvalidScrapeResponse => "Invalid scrape response",
        }
    }
}

impl TrackerSession {
    /// Opens an exchange under the number `transaction`: the session, and the connect request
    /// to send.
    pub fn start_with(info_hash: [u8; 20], transaction: u32) -> (res: (TrackerSession, Vec<u8>))
        ensures
            res.0 == (TrackerSession { info_hash, transaction, scraping: false }),
            res.1@ == connect_packet(transaction),
    {
        let mut packet: Vec<u8> = Vec::new();
        append_be(&mut packet, PROTOCOL_ID, 8);
        append_be(&mut packet, ACTION_CONNECT, 4);
        append_be(&mut packet, transaction as u64, 4);
        assert(packet@ =~= connect_packet(transaction));
        (TrackerSession { info_hash, transaction, scraping: false }, packet)
    }

    /// Opens an exchange under a random number.
    pub fn start(info_hash: [u8; 20]) -> (res: (TrackerSession, Vec<u8>))
        ensures
            res.0.info_hash == info_hash,
            !res.0.scraping,
            res.1@ == connect_packet(res.0.transaction),
    {
        TrackerSession::start_with(info_hash, random_transaction())
    }

    /// Takes the next datagram; a further request gets the number `transaction`.
    pub fn receive_with(self, datagram: &[u8], transaction: u32) -> (res: TrackerStep)
        ensures
            is_step(self, datagram@, transaction, res),
    {
        if !self.scraping {
            if !is_answer(datagram, 16, ACTION_CONNECT, self.transaction) {
                return TrackerStep::Fail { error: TrackerError::InvalidConnectResponse };
            }
            let mut packet: Vec<u8> = Vec::new();
            append_range(&mut packet, datagram, 8, 16);
            append_be(&mut packet, ACTION_SCRAPE, 4);
            append_be(&mut packet, transaction as u64, 4);
            let hash = self.info_hash;
            append_range(&mut packet, hash.as_slice(), 0, 20);
            assert(hash@.subrange(0, 20) =~= hash@);
            assert(packet@ =~= scrape_packet(datagram@.subrange(8, 16), transaction, hash@));
            let session = TrackerSession { info_hash: hash, transaction, scraping: true };
            TrackerStep::Send { session, packet }
        } else {
            if !is_answer(datagram, 20, ACTION_SCRAPE, self.transaction) {
                return TrackerStep::Fail { error: TrackerError::InvalidScrapeResponse };
            }
            let seeders = read_be(datagram, 8);
            let leechers = read_be(datagram, 16);
            TrackerStep::Done { result: ScrapeResult { seeders, leechers } }
        }
    }

    /// Takes the next datagram; a further request gets a random number.
    pub fn receive(self, datagram: &[u8]) -> (res: TrackerStep)
        ensures
            exists|transaction: u32| is_step(self, datagram@, transaction, res),
    {
        let transaction = random_transaction();
        let res = self.receive_with(datagram, transaction);
        assert(is_step(self, datagram@, transaction, res));
        res
    }
}

/// Whether `best` is the answer to show: the first of those with the most seeders, and no
/// seeders and leechers at all where no tracker has answered.
pub open spec fn is_best_health(replies: Seq<ScrapeResult>, best: ScrapeResult) -> bool {
    if replies.len() == 0 {
        best == (ScrapeResult { seeders: 0, leechers: 0 })
    } else {
        exists|i: int| #[trigger] is_first_max(replies, i) && best == replies[i]
    }
}

/// Whether no answer has more seeders than the `i`th, and none before it has as many.
pub open spec fn is_first_max(replies: Seq<ScrapeResult>, i: int) -> bool {
    &&& 0 <= i < replies.len()
    &&& forall|j: int|
        0 <= j < replies.len() ==> (#[trigger] replies[j]).seeders <= replies[i].seeders
    &&& forall|j: int| 0 <= j < i ==> (#[trigger] replies[j]).seeders < replies[i].seeders
}

/// Chooses among the answers of several trackers the one with the most seeders.
pub fn best_health(replies: &Vec<ScrapeResult>) -> (res: ScrapeResult)
    ensures
        is_best_health(replies@, res),
{
    if replies.len() == 0 {
        return ScrapeResult { seeders: 0, leechers: 0 };
    }
    let mut best: usize = 0;
    let mut i: usize = 1;
    while i < replies.len()
        invariant
            best < i <= replies@.len(),
            forall|j: int|
                0 <= j < i ==> (#[trigger] replies@[j]).seeders <= replies@[best as int].seeders,
            forall|j: int|
                0 <= j < best ==> (#[trigger] replies@[j]).seeders < replies@[best as int].seeders,
        decreases replies@.len() - i,
    {
        if replies[i].seeders > replies[best].seeders {
            best = i;
        }
        i = i + 1;
    }
    assert(is_first_max(replies@, best as int));
    replies[best]
}

/// No tracker reports more seeders than are shown, and with an answer the number shown is one
/// that a tracker has reported.
pub proof fn health_is_the_highest_report(replies: Seq<ScrapeResult>, best: ScrapeResult)
    requires
        is_best_health(replies, best),
    ensures
        forall|j: int| 0 <= j < replies.len() ==> (#[trigger] replies[j]).seeders <= best.seeders,
        replies.len() > 0 ==> replies.contains(best),
{
    if replies.len() > 0 {
        let i = choose|i: int| #[trigger] is_first_max(replies, i) && best == replies[i];
        assert(replies[i] == best);
    }
}

/// The answer that a tracker sends to a connect request.
pub open spec fn connect_answer(transaction: u32, connection: Seq<u8>) -> Seq<u8> {
    be_bytes(ACTION_CONNECT as nat, 4) + be_bytes(transaction as nat, 4) + connection
}

/// The answer that a tracker sends to a scrape request for one hash.
pub open spec fn scrape_answer(
    transaction: u32,
    seeders: u32,
    completed: u32,
    leechers: u32,
) -> Seq<u8> {
    be_bytes(ACTION_SCRAPE as nat, 4) + be_bytes(transaction as nat, 4) + be_bytes(
        seeders as nat,
        4,
    ) + be_bytes(completed as nat, 4) + be_bytes(leechers as nat, 4)
}

/// The answer to the connect request leads to the scrape request, with the connection that the
/// tracker has given and the hash of the session.
pub proof fn connection_is_passed_on(
    session: TrackerSession,
    connection: Seq<u8>,
    transaction: u32,
    step: TrackerStep,
)
    requires
        !session.scraping,
        connection.len() == 8,
        is_step(session, connect_answer(session.transaction, connection), transaction, step),
    ensures
        step matches TrackerStep::Send { session: next, packet } && next.scraping
            && next.transaction == transaction && next.info_hash == session.info_hash && packet@
            == scrape_packet(connection, transaction, session.info_hash@),
{
    let datagram = connect_answer(session.transaction, connection);
    be_round_trip(0);
    be_round_trip(session.transaction);
    assert(datagram.subrange(0, 4) =~= be_bytes(0, 4));
    assert(datagram.subrange(4, 8) =~= be_bytes(session.transaction as nat, 4));
    assert(datagram.subrange(8, 16) =~= connection);
}

/// The numbers that a tracker sends are the numbers that the exchange gives.
pub proof fn health_is_what_the_tracker_sent(
    session: TrackerSession,
    seeders: u32,
    completed: u32,
    leechers: u32,
    transaction: u32,
    step: TrackerStep,
)
    requires
        session.scraping,
        is_step(
            session,
            scrape_answer(session.transaction, seeders, completed, leechers),
            transaction,
            step,
        ),
    ensures
        step == (TrackerStep::Done { result: ScrapeResult { seeders, leechers } }),
{
    let datagram = scrape_answer(session.transaction, seeders, completed, leechers);
    be_round_trip(2);
    be_round_trip(session.transaction);
    be_round_trip(seeders);
    be_round_trip(completed);
    be_round_trip(leechers);
    assert(datagram.subrange(0, 4) =~= be_bytes(2, 4));
    assert(datagram.subrange(4, 8) =~= be_bytes(session.transaction as nat, 4));
    assert(datagram.subrange(8, 12) =~= be_bytes(seeders as nat, 4));
    assert(datagram.subrange(16, 20) =~= be_bytes(leechers as nat, 4));
}

/// A datagram that answers another transaction ends the exchange with an error.
pub proof fn other_transactions_are_refused(
    session: TrackerSession,
    datagram: Seq<u8>,
    transaction: u32,
    step: TrackerStep,
)
    requires
        datagram.len() >= 8,
        be_value(datagram.subrange(4, 8)) != session.transaction,
        is_step(session, datagram, transaction, step),
    ensures
        step is Fail,
{
}

/// The number that the four bytes from `at` on stand for, the most significant first.
pub open spec fn word_at(data: Seq<u8>, at: int) -> int {
    data[at] * 16777216 + data[at + 1] * 65536 + data[at + 2] * 256 + data[at + 3]
}

/// Four bytes stand for the number that they make up, the most significant first.
pub proof fn four_bytes_make_a_number(data: Seq<u8>, at: int)
    requires
        0 <= at,
        at + 4 <= data.len(),
    ensures
        be_value(data.subrange(at, at + 4)) == word_at(data, at),
{
    reveal_with_fuel(be_value, 5);
    let s = data.subrange(at, at + 4);
    assert(s.drop_last() =~= data.subrange(at, at + 3));
    assert(s.drop_last().drop_last() =~= data.subrange(at, at + 2));
    assert(s.drop_last().drop_last().drop_last() =~= data.subrange(at, at + 1));
    assert(s.drop_last().drop_last().drop_last().drop_last() =~= Seq::<u8>::empty());
}

/// A connect request byte by byte: the eight bytes of the protocol, the action 0 and the
/// transaction.
pub proof fn connect_request_byte_by_byte(transaction: u32)
    ensures
        ({
            let packet = connect_packet(transaction);
            &&& packet.len() == 16
            &&& packet[0] == 0x00 && packet[1] == 0x00 && packet[2] == 0x04 && packet[3] == 0x17
            &&& packet[4] == 0x27 && packet[5] == 0x10 && packet[6] == 0x19 && packet[7] == 0x80
            &&& word_at(packet, 8) == 0
            &&& word_at(packet, 12) == transaction
        }),
{
    let packet = connect_packet(transaction);
    lemma_be_bytes_len(PROTOCOL_ID as nat, 8);
    be_round_trip(0);
    be_round_trip(transaction);
    assert(packet.subrange(8, 12) =~= be_bytes(0, 4));
    assert(packet.subrange(12, 16) =~= be_bytes(transaction as nat, 4));
    four_bytes_make_a_number(packet, 8);
    four_bytes_make_a_number(packet, 12);
    assert(be_bytes(PROTOCOL_ID as nat, 8) =~= seq![
        0x00u8,
        0x00u8,
        0x04u8,
        0x17u8,
        0x27u8,
        0x10u8,
        0x19u8,
        0x80u8,
    ]) by {
        reveal_with_fuel(be_bytes, 9);
    }
    assert forall|i: int| 0 <= i < 8 implies packet[i] == be_bytes(PROTOCOL_ID as nat, 8)[i] by {
    }
}

/// Whether a datagram of at least `len` bytes begins with this action and this transaction.
pub open spec fn begins_with(datagram: Seq<u8>, len: int, action: int, transaction: u32) -> bool {
    datagram.len() >= len && word_at(datagram, 0) == action && word_at(datagram, 4) == transaction
}

/// A datagram of at least 16 bytes with the action 0 and the transaction of the session leads to
/// the scrape request, byte by byte: the connection from the datagram, the action 2, the new
/// transaction, and the hash of the session as it is. Any other datagram is an invalid answer to
/// the connect request.
pub proof fn scrape_request_byte_by_byte(
    session: TrackerSession,
    datagram: Seq<u8>,
    transaction: u32,
    step: TrackerStep,
)
    requires
        !session.scraping,
        is_step(session, datagram, transaction, step),
    ensures
        begins_with(datagram, 16, 0, session.transaction) ==> (step matches TrackerStep::Send {
            session: next,
            packet,
        } && {
            &&& next.scraping
            &&& next.transaction == transaction
            &&& next.info_hash@ == session.info_hash@
            &&& packet@.len() == 36
            &&& forall|i: int| 0 <= i < 8 ==> #[trigger] packet@[i] == datagram[8 + i]
            &&& word_at(packet@, 8) == 2
            &&& word_at(packet@, 12) == transaction
            &&& forall|i: int|
                0 <= i < 20 ==> #[trigger] session.info_hash@[i] == packet@[16 + i]
        }),
        !begins_with(datagram, 16, 0, session.transaction) ==> (step matches TrackerStep::Fail {
            error,
        } && error is InvalidConnectResponse),
{
    if datagram.len() >= 16 {
        four_bytes_make_a_number(datagram, 0);
        four_bytes_make_a_number(datagram, 4);
        if let TrackerStep::Send { session: next, packet } = step {
            be_round_trip(2);
            be_round_trip(transaction);
            assert(packet@.subrange(8, 12) =~= be_bytes(2, 4));
            assert(packet@.subrange(12, 16) =~= be_bytes(transaction as nat, 4));
            four_bytes_make_a_number(packet@, 8);
            four_bytes_make_a_number(packet@, 12);
        }
    }
}

/// A datagram of at least 20 bytes with the action 2 and the transaction of the session ends the
/// exchange with the seeders from its third word and the leechers from its fifth. Any other
/// datagram is an invalid answer to the scrape request.
pub proof fn health_byte_by_byte(
    session: TrackerSession,
    datagram: Seq<u8>,
    transaction: u32,
    step: TrackerStep,
)
    requires
        session.scraping,
        is_step(session, datagram, transaction, step),
    ensures
        begins_with(datagram, 20, 2, session.transaction) ==> (step matches TrackerStep::Done {
            result,
        } && result.seeders == word_at(datagram, 8) && result.leechers == word_at(datagram, 16)),
        !begins_with(datagram, 20, 2, session.transaction) ==> (step matches TrackerStep::Fail {
            error,
        } && error is InvalidScrapeResponse),
{
    if datagram.len() >= 20 {
        four_bytes_make_a_number(datagram, 0);
        four_bytes_make_a_number(datagram, 4);
        four_bytes_make_a_number(datagram, 8);
        four_bytes_make_a_number(datagram, 16);
    }
}

/// Without an answer nobody is shown; a single answer is shown as it is; and of two lists of
/// answers, one behind the other, the best of the first counts unless the second has one with
/// more seeders.
pub proof fn answers_compete_by_seeders(
    first: Seq<ScrapeResult>,
    second: Seq<ScrapeResult>,
    best: ScrapeResult,
    left: ScrapeResult,
    right: ScrapeResult,
    single: ScrapeResult,
)
    requires
        first.len() > 0,
        second.len() > 0,
        is_best_health(first, left),
        is_best_health(second, right),
    ensures
        is_best_health(first + second, best) ==> best == (if right.seeders > left.seeders {
            right
        } else {
            left
        }),
        is_best_health(Seq::empty(), best) ==> best.seeders == 0 && best.leechers == 0,
        is_best_health(seq![single], best) ==> best == single,
{
    let all = first + second;
    let l = choose|i: int| #[trigger] is_first_max(first, i) && left == first[i];
    let r = choose|i: int| #[trigger] is_first_max(second, i) && right == second[i];
    if is_best_health(all, best) {
        let i = choose|i: int| #[trigger] is_first_max(all, i) && best == all[i];
        assert(all[l] == left);
        assert(all[first.len() + r] == right);
        assert forall|j: int| 0 <= j < first.len() implies (#[trigger] first[j]).seeders
            <= all[i].seeders by {
            assert(all[j] == first[j]);
        }
        assert forall|j: int| 0 <= j < second.len() implies (#[trigger] second[j]).seeders
            <= all[i].seeders by {
            assert(all[first.len() + j] == second[j]);
        }
        if right.seeders > left.seeders {
            assert(i >= first.len()) by {
                if i < first.len() {
                    assert(all[i] == first[i]);
                }
            }
            let k = i - first.len();
            assert(all[i] == second[k]);
            if k < r {
                assert(second[k].seeders < second[r].seeders);
            }
            if r < k {
                assert(all[first.len() + r].seeders < all[i].seeders);
            }
        } else {
            assert(i < first.len()) by {
                if i >= first.len() {
                    assert(all[i] == second[i - first.len()]);
                    assert(all[l].seeders < all[i].seeders);
                }
            }
            assert(all[i] == first[i]);
            if i < l {
                assert(first[i].seeders < first[l].seeders);
            }
            if l < i {
                assert(all[l].seeders < all[i].seeders);
            }
        }
    }
    if is_best_health(seq![single], best) {
        let one = seq![single];
        let i = choose|i: int| #[trigger] is_first_max(one, i) && best == one[i];
        assert(i == 0);
    }
}

} // verus!
