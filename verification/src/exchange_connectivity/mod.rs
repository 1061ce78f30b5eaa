//! The venue connectors: what they send, what they make of what arrives.
//!
//! A connector owns the protocol state of one streaming session: a counter
//! for correlation ids and the table of responses that wait for their
//! requests. It reads and writes no socket. The program around it reads a
//! frame and hands it in; the connector says what to send back. A request
//! for the best levels is a ticket that is polled until its response has
//! arrived or its attempts are used up.

pub mod binance;
pub mod decimal;
pub mod deribit;
pub mod json;
pub mod pending;

use crate::book_management::orders::{Ask, Bid, Level, Order};
use crate::book_management::traded_instruments::Instrument;
use binance::Binance;
use decimal::{parse_decimal, scaled};
use deribit::Deribit;
use json::{
    check_document, json_rows, json_u64, json_valid, rows_at, rows_view, u64_at, Cell, CellView,
};
use pending::PendingResponses;
use vstd::prelude::*;
use vstd::string::StringExecFns;
use vstd::utf8::encode_utf8;

verus! {

/// Which venue an order record came from.
#[derive(Clone, Copy, Debug, PartialEq, Eq, Structural)]
pub enum ExchangeType {
    Deribit,
    Binance,
}

/// Why a connector could not do what was asked of it.
#[derive(Debug)]
pub enum ConnectorError {
    /// The connection could not be made, read or written. The connector is
    /// lost.
    Transport(String),
    /// A payload did not have the expected shape.
    ProtocolDecode(String),
    /// No response came for a request within the time allowed.
    CorrelationTimeout,
}

impl Clone for ConnectorError {
    fn clone(&self) -> (r: Self)
        ensures
            r == *self,
    {
        match self {
            ConnectorError::Transport(detail) => ConnectorError::Transport(detail.clone()),
            ConnectorError::ProtocolDecode(detail) => ConnectorError::ProtocolDecode(
                detail.clone(),
            ),
            ConnectorError::CorrelationTimeout => ConnectorError::CorrelationTimeout,
        }
    }
}

/// The best levels of one venue: its bids, its asks, and the time of the
/// answer in milliseconds since the Unix epoch.
pub type TopOfBook = (Vec<Bid>, Vec<Ask>, u64);

/// The secrets that the venues ask for.
pub struct ExchangeKeys {
    pub deribit_client_id: String,
    pub deribit_api_key: String,
}

/// The correlation id with which a connector starts.
pub const FIRST_ID: u64 = 10_000;

/// The correlation id above which the counter starts over.
pub const ID_CEILING: u64 = 1_000_000;

/// How often a request looks for its response.
pub const POLL_ATTEMPTS: u32 = 5;

/// How long a request waits after each look, in milliseconds.
pub const POLL_INTERVAL_MS: u64 = 100;

/// The correlation id that follows `current`: the next number, or the first
/// id again once the ceiling has been passed.
pub open spec fn next_id(current: u64) -> u64 {
    if current > ID_CEILING {
        FIRST_ID
    } else {
        (current + 1) as u64
    }
}

/// Advances a counter of correlation ids and returns the new id.
pub fn advance_id(counter: &mut u64) -> (id: u64)
    ensures
        id == next_id(*old(counter)),
        *final(counter) == id,
{
    if *counter > ID_CEILING {
        *counter = FIRST_ID;
    } else {
        *counter = *counter + 1;
    }
    *counter
}

/// The amount that a cell writes. A venue that sends numbers has it in a
/// number cell, one that sends strings in a text cell.
pub open spec fn amount_of(cell: CellView, numeric: bool) -> Option<u64> {
    match cell {
        CellView::Text(t) => if numeric {
            None
        } else {
            scaled(encode_utf8(t))
        },
        CellView::Number(t) => if numeric {
            scaled(encode_utf8(t))
        } else {
            None
        },
        CellView::Other => None,
    }
}

/// The order record that a row writes: a row of two amounts, the price and
/// then the quantity. Any other row writes none.
pub open spec fn level_of(
    row: Option<Seq<CellView>>,
    numeric: bool,
    exchange: ExchangeType,
    instrument: Instrument,
) -> Option<Level> {
    match row {
        Some(cells) => if cells.len() == 2 {
            match (amount_of(cells[0], numeric), amount_of(cells[1], numeric)) {
                (Some(price), Some(quantity)) => Some(
                    Level { instrument, exchange, quantity, price },
                ),
                _ => None,
            }
        } else {
            None
        },
        None => None,
    }
}

/// The order records that the rows write, in the order of the rows.
pub open spec fn levels_of(
    rows: Seq<Option<Seq<CellView>>>,
    numeric: bool,
    exchange: ExchangeType,
    instrument: Instrument,
) -> Seq<Level> {
    rows.filter_map(|row: Option<Seq<CellView>>| level_of(row, numeric, exchange, instrument))
}

/// What a list of order records says.
pub open spec fn levels<T: Order>(orders: Seq<T>) -> Seq<Level> {
    Seq::new(orders.len(), |i: int| orders[i]@)
}

/// Reads the amount of a cell.
pub fn read_amount(cell: &Cell, numeric: bool) -> (r: Option<u64>)
    ensures
        r == amount_of(cell@, numeric),
{
    match cell {
        Cell::Text(t) => if numeric {
            None
        } else {
            parse_decimal(t.as_str())
        },
        Cell::Number(t) => if numeric {
            parse_decimal(t.as_str())
        } else {
            None
        },
        Cell::Other => None,
    }
}

/// Turns the rows of a response into order records. Rows that are no pair of
/// amounts are left out.
pub fn convert_rows<T: Order>(
    exchange: ExchangeType,
    rows: &Vec<Option<Vec<Cell>>>,
    instrument: Instrument,
    numeric: bool,
) -> (r: Vec<T>)
    ensures
        levels(r@) == levels_of(rows_view(rows@), numeric, exchange, instrument),
{
    let ghost all = rows_view(rows@);
    let ghost f = |row: Option<Seq<CellView>>| level_of(row, numeric, exchange, instrument);
    let mut out: Vec<T> = Vec::new();
    let mut i: usize = 0;
    assert(all.take(0) =~= Seq::<Option<Seq<CellView>>>::empty());
    assert(levels(out@) =~= all.take(0).filter_map(f));
    while i < rows.len()
        invariant
            i <= rows@.len(),
            all == rows_view(rows@),
            f == |row: Option<Seq<CellView>>| level_of(row, numeric, exchange, instrument),
            levels(out@) == all.take(i as int).filter_map(f),
        decreases rows@.len() - i,
    {
        let ghost before = levels(out@);
        proof {
            assert(all.take(i + 1).drop_last() =~= all.take(i as int));
            assert(all.take(i + 1).last() == all[i as int]);
        }
        let mut made: Option<T> = None;
        match &rows[i] {
            Some(cells) => {
                assert(all[i as int] == Some(Seq::new(cells@.len(), |j: int| cells@[j]@)));
                if cells.len() == 2 {
                    let price = read_amount(&cells[0], numeric);
                    let quantity = read_amount(&cells[1], numeric);
                    match (price, quantity) {
                        (Some(p), Some(q)) => {
                            made = Some(T::new(instrument, exchange, q, p));
                        },
                        _ => {},
                    }
                }
            },
            None => {},
        }
        assert(made is Some == f(all[i as int]) is Some);
        match made {
            Some(order) => {
                assert(order@ == f(all[i as int])->Some_0);
                out.push(order);
                assert(levels(out@) =~= before + seq![order@]);
            },
            None => {},
        }
        i += 1;
    }
    assert(all.take(i as int) =~= all);
    out
}

/// A request for the best levels that waits for its response.
#[derive(Clone, Copy, Debug, PartialEq, Eq, Structural)]
pub struct PullTicket {
    /// The correlation id of the request.
    pub id: u64,
    pub instrument: Instrument,
    /// How many looks for the response are left.
    pub attempts_left: u32,
}

/// What one look for a response led to.
pub enum PullStep {
    /// The request is over: here is what it returned.
    Done(Result<TopOfBook, ConnectorError>),
    /// Nothing yet. Wait this many milliseconds, then poll the ticket again.
    Wait(PullTicket, u64),
}

/// What a look into the table finds for a request.
pub enum Looked {
    /// No response, or one that is not complete.
    NotYet,
    /// A response that is no JSON.
    Malformed,
    /// The response: the bids, the asks, and the time of the answer.
    Ready(Seq<Level>, Seq<Level>, u64),
}

/// The time of a response: one venue states it in the response, for the
/// other it is the time at which the response is read.
pub open spec fn response_time(venue: ExchangeType, text: Seq<char>, now: Option<u64>) -> Option<
    u64,
> {
    match venue {
        ExchangeType::Binance => now,
        ExchangeType::Deribit => json_u64(text, "/result/timestamp"@),
    }
}

/// Whether the venue writes its amounts as numbers, not as strings.
pub open spec fn sends_numbers(venue: ExchangeType) -> bool {
    venue == ExchangeType::Deribit
}

/// What a request finds in the table of a venue's connector. Only the first
/// response under its id counts.
pub open spec fn looked(
    table: Map<u64, Seq<Seq<char>>>,
    venue: ExchangeType,
    ticket: PullTicket,
    now: Option<u64>,
) -> Looked {
    if !table.contains_key(ticket.id) {
        Looked::NotYet
    } else {
        let text = table[ticket.id][0];
        if !json_valid(text) {
            Looked::Malformed
        } else {
            match (
                response_time(venue, text, now),
                json_rows(text, "/result/bids"@),
                json_rows(text, "/result/asks"@),
            ) {
                (Some(time), Some(bids), Some(asks)) => Looked::Ready(
                    levels_of(bids, sends_numbers(venue), venue, ticket.instrument),
                    levels_of(asks, sends_numbers(venue), venue, ticket.instrument),
                    time,
                ),
                _ => Looked::NotYet,
            }
        }
    }
}

/// How a request goes on after a look that found nothing: with one attempt
/// less, or, where no attempt is left, not at all.
pub open spec fn after_nothing(attempts_left: u32) -> Option<u32> {
    if attempts_left == 0 {
        None
    } else {
        Some((attempts_left - 1) as u32)
    }
}

/// The text is the report of a payload that could not be read.
pub open spec fn reports_parse_failure(detail: Seq<char>) -> bool {
    let prefix = "Failed to parse message: "@;
    detail.len() >= prefix.len() && detail.subrange(0, prefix.len() as int) == prefix
}

/// How a poll of `ticket` ends, given the table before and after it.
pub open spec fn polled(
    before: Map<u64, Seq<Seq<char>>>,
    venue: ExchangeType,
    ticket: PullTicket,
    now: Option<u64>,
    after: Map<u64, Seq<Seq<char>>>,
    step: PullStep,
) -> bool {
    match after_nothing(ticket.attempts_left) {
        None => {
            &&& step matches PullStep::Done(Err(ConnectorError::CorrelationTimeout))
            &&& after == before
        },
        Some(left) => match looked(before, venue, ticket, now) {
            Looked::NotYet => {
                &&& step matches PullStep::Wait(next, millis)
                &&& next == (PullTicket {
                    id: ticket.id,
                    instrument: ticket.instrument,
                    attempts_left: left,
                })
                &&& millis == POLL_INTERVAL_MS
                &&& after == before
            },
            Looked::Malformed => {
                &&& step matches PullStep::Done(Err(ConnectorError::ProtocolDecode(detail)))
                &&& reports_parse_failure(detail@)
                &&& after == before
            },
            Looked::Ready(bids, asks, time) => {
                &&& step matches PullStep::Done(Ok(top))
                &&& levels(top.0@) == bids
                &&& levels(top.1@) == asks
                &&& top.2 == time
                &&& after == before.remove(ticket.id)
            },
        },
    }
}

/// The error of a payload that could not be read, with what the reader said
/// of it.
pub fn parse_failure(said: &str) -> (e: ConnectorError)
    ensures
        (e matches ConnectorError::ProtocolDecode(detail) && detail@
            == "Failed to parse message: "@ + said@ && reports_parse_failure(detail@)),
{
    let detail = String::from_str("Failed to parse message: ").concat(said);
    assert(detail@.subrange(0, "Failed to parse message: "@.len() as int)
        =~= "Failed to parse message: "@);
    ConnectorError::ProtocolDecode(detail)
}

/// A ticket for a request that has just been sent.
pub fn open_ticket(id: u64, instrument: Instrument) -> (ticket: PullTicket)
    ensures
        ticket == (PullTicket { id, instrument, attempts_left: POLL_ATTEMPTS }),
{
    PullTicket { id, instrument, attempts_left: POLL_ATTEMPTS }
}

/// Puts the bids and asks of a response together with its time. It takes
/// what was read from the response: the two arrays of rows, where the
/// response has them, and the time, where it is known. A response that lacks
/// one of the three is not complete.
pub fn assemble(
    venue: ExchangeType,
    instrument: Instrument,
    time: Option<u64>,
    bid_rows: &Option<Vec<Option<Vec<Cell>>>>,
    ask_rows: &Option<Vec<Option<Vec<Cell>>>>,
) -> (r: Option<TopOfBook>)
    ensures
        r is Some <==> time is Some && bid_rows is Some && ask_rows is Some,
        r matches Some(top) ==> {
            &&& top.2 == time->Some_0
            &&& levels(top.0@) == levels_of(
                rows_view(bid_rows->Some_0@),
                sends_numbers(venue),
                venue,
                instrument,
            )
            &&& levels(top.1@) == levels_of(
                rows_view(ask_rows->Some_0@),
                sends_numbers(venue),
                venue,
                instrument,
            )
        },
{
    let numeric = match venue {
        ExchangeType::Deribit => true,
        ExchangeType::Binance => false,
    };
    match (time, bid_rows, ask_rows) {
        (Some(t), Some(bids), Some(asks)) => {
            let bid_vec: Vec<Bid> = convert_rows(venue, bids, instrument, numeric);
            let ask_vec: Vec<Ask> = convert_rows(venue, asks, instrument, numeric);
            Some((bid_vec, ask_vec, t))
        },
        _ => None,
    }
}

/// One poll of a request. A ticket without attempts left has timed out.
/// Otherwise the table is searched for the first response under the ticket's
/// id. A response that is no JSON fails the request. A complete one is turned
/// into order records and taken out of the table. Anything else costs the
/// ticket one attempt and a wait.
pub fn poll_table(
    table: &mut PendingResponses,
    venue: ExchangeType,
    ticket: PullTicket,
    now: Option<u64>,
) -> (step: PullStep)
    requires
        old(table).wf(),
    ensures
        final(table).wf(),
        polled(old(table)@, venue, ticket, now, final(table)@, step),
{
    if ticket.attempts_left == 0 {
        return PullStep::Done(Err(ConnectorError::CorrelationTimeout));
    }
    let waiting = PullStep::Wait(
        PullTicket {
            id: ticket.id,
            instrument: ticket.instrument,
            attempts_left: ticket.attempts_left - 1,
        },
        POLL_INTERVAL_MS,
    );
    let text = match table.get(ticket.id) {
        Some(entry) => entry.clone(),
        None => {
            return waiting;
        },
    };
    match check_document(text.as_str()) {
        Err(detail) => {
            return PullStep::Done(Err(parse_failure(detail.as_str())));
        },
        Ok(()) => {},
    }
    let time = match venue {
        ExchangeType::Binance => now,
        ExchangeType::Deribit => u64_at(text.as_str(), "/result/timestamp"),
    };
    let bid_rows = rows_at(text.as_str(), "/result/bids");
    let ask_rows = rows_at(text.as_str(), "/result/asks");
    match assemble(venue, ticket.instrument, time, &bid_rows, &ask_rows) {
        Some(top) => {
            let _ = table.remove(ticket.id);
            PullStep::Done(Ok(top))
        },
        None => waiting,
    }
}

/// How long a request waits in all, in milliseconds, when no look finds
/// anything.
pub open spec fn unanswered_wait(attempts_left: u32) -> nat
    decreases attempts_left,
{
    match after_nothing(attempts_left) {
        None => 0,
        Some(left) => POLL_INTERVAL_MS as nat + unanswered_wait(left),
    }
}

/// A poll that finds nothing changes nothing in the table, and it either
/// costs the ticket one attempt and a wait of `POLL_INTERVAL_MS`, or, where
/// the ticket has no attempt left, ends the request with
/// `CorrelationTimeout`.
pub proof fn law_unanswered_poll(
    table: Map<u64, Seq<Seq<char>>>,
    venue: ExchangeType,
    ticket: PullTicket,
    now: Option<u64>,
    after: Map<u64, Seq<Seq<char>>>,
    step: PullStep,
)
    requires
        polled(table, venue, ticket, now, after, step),
        looked(table, venue, ticket, now) is NotYet,
    ensures
        after == table,
        ticket.attempts_left == 0 ==> step matches PullStep::Done(
            Err(ConnectorError::CorrelationTimeout),
        ),
        ticket.attempts_left > 0 ==> (step matches PullStep::Wait(next, millis) && next.id
            == ticket.id && next.instrument == ticket.instrument && next.attempts_left
            == ticket.attempts_left - 1 && millis == POLL_INTERVAL_MS),
{
}

/// A request whose response never arrives does not wait for ever: a fresh
/// ticket is out of attempts after `POLL_ATTEMPTS` waits, which come to 500
/// milliseconds, and a ticket never waits for longer than its attempts
/// allow.
pub proof fn law_unanswered_pull_times_out(attempts_left: u32)
    ensures
        unanswered_wait(attempts_left) == attempts_left * POLL_INTERVAL_MS,
        unanswered_wait(POLL_ATTEMPTS) == 500,
    decreases attempts_left,
{
    if attempts_left > 0 {
        law_unanswered_pull_times_out((attempts_left - 1) as u32);
    }
    reveal_with_fuel(unanswered_wait, 7);
}

/// What reading the next frame of a session gave.
#[derive(Debug)]
pub enum Inbound {
    /// A text frame.
    Text(String),
    /// A frame of another kind.
    NonText,
    /// The read failed.
    ReadError(String),
    /// The stream has ended.
    Closed,
}

/// What the session loop does after one turn.
#[derive(Debug)]
pub enum SessionTurn {
    /// The liveness flag is cleared: the loop ends.
    Stop,
    /// Send this text, then go on.
    Reply(String),
    /// Go on.
    Idle,
    /// The frame could not be used. Report the error and go on.
    Skipped(ConnectorError),
    /// The connection is lost. Report the error; the loop ends.
    Lost(ConnectorError),
}

/// The turn that follows from what handling a frame gave.
pub open spec fn turn_of(keep_alive: bool, handled: Result<Option<String>, ConnectorError>) -> SessionTurn {
    if !keep_alive {
        SessionTurn::Stop
    } else {
        match handled {
            Ok(Some(reply)) => SessionTurn::Reply(reply),
            Ok(None) => SessionTurn::Idle,
            Err(ConnectorError::Transport(detail)) => SessionTurn::Lost(
                ConnectorError::Transport(detail),
            ),
            Err(e) => SessionTurn::Skipped(e),
        }
    }
}

/// Decides how the session loop goes on: it ends where the liveness flag is
/// cleared or the connection is lost, and goes on after anything else.
pub fn decide_turn(keep_alive: bool, handled: Result<Option<String>, ConnectorError>) -> (turn:
    SessionTurn)
    ensures
        turn == turn_of(keep_alive, handled),
{
    if !keep_alive {
        SessionTurn::Stop
    } else {
        match handled {
            Ok(Some(reply)) => SessionTurn::Reply(reply),
            Ok(None) => SessionTurn::Idle,
            Err(ConnectorError::Transport(detail)) => SessionTurn::Lost(
                ConnectorError::Transport(detail),
            ),
            Err(e) => SessionTurn::Skipped(e),
        }
    }
}

/// The error of a read that failed.
pub fn read_failure(detail: &str) -> (e: ConnectorError)
    ensures
        (e matches ConnectorError::Transport(text) && text@ == "Error reading WebSocket stream: "@
            + detail@),
{
    ConnectorError::Transport(String::from_str("Error reading WebSocket stream: ").concat(detail))
}

/// What the aggregated book asks of the connector of a venue.
///
/// A pull of the best levels is made in turns, because sending and waiting
/// are not the connector's work: `begin_pull` makes the request and the
/// ticket that stands for it, the caller sends the request, and
/// `pull_bids_asks` polls the ticket until the pull is done.
pub trait ConnectedExchangeForBook: Sized {
    /// The venue of the connector.
    spec fn venue() -> ExchangeType;

    /// The responses that wait for their requests.
    spec fn pending(&self) -> Map<u64, Seq<Seq<char>>>;

    /// The correlation id that was given out last.
    spec fn last_id(&self) -> u64;

    /// The connector's state is valid.
    spec fn valid(&self) -> bool;

    /// The venue's name for an instrument.
    spec fn instrument_name(instrument: Instrument) -> Seq<char>;

    /// The request for up to `depth` levels that the venue expects.
    spec fn request_text(id: u64, instrument: Instrument, depth: u32) -> Seq<char>;

    /// The venue's name for an instrument.
    fn to_instrument_name(instrument: Instrument) -> (name: String)
        ensures
            name@ == Self::instrument_name(instrument),
    ;

    /// Starts a pull of up to `depth` bids and asks of `instrument`: takes a
    /// fresh correlation id and returns the ticket of the request and the
    /// text to send.
    fn begin_pull(&mut self, depth: u32, instrument: Instrument) -> (r: (PullTicket, String))
        requires
            old(self).valid(),
        ensures
            final(self).valid(),
            r.0 == (PullTicket {
                id: next_id(old(self).last_id()),
                instrument,
                attempts_left: POLL_ATTEMPTS,
            }),
            final(self).last_id() == r.0.id,
            final(self).pending() == old(self).pending(),
            r.1@ == Self::request_text(r.0.id, instrument, depth),
    ;

    /// Polls a pull once. `now` is the time in milliseconds since the Unix
    /// epoch, where the clock gives one.
    fn pull_bids_asks(&mut self, ticket: PullTicket, now: Option<u64>) -> (step: PullStep)
        requires
            old(self).valid(),
        ensures
            final(self).valid(),
            final(self).last_id() == old(self).last_id(),
            polled(old(self).pending(), Self::venue(), ticket, now, final(self).pending(), step),
    ;
}

/// The connector of one venue or the other.
pub enum Exchange {
    Deribit(Deribit),
    Binance(Binance),
}

impl Exchange {
    /// The venue of the connector.
    pub open spec fn venue(&self) -> ExchangeType {
        match self {
            Exchange::Deribit(_) => ExchangeType::Deribit,
            Exchange::Binance(_) => ExchangeType::Binance,
        }
    }

    /// The responses that wait for their requests.
    pub open spec fn pending(&self) -> Map<u64, Seq<Seq<char>>> {
        match self {
            Exchange::Deribit(deribit) => deribit.pending(),
            Exchange::Binance(binance) => binance.pending(),
        }
    }

    /// The correlation id that was given out last.
    pub open spec fn last_id(&self) -> u64 {
        match self {
            Exchange::Deribit(deribit) => deribit.last_id(),
            Exchange::Binance(binance) => binance.last_id(),
        }
    }

    /// The connector's state is valid.
    pub open spec fn valid(&self) -> bool {
        match self {
            Exchange::Deribit(deribit) => deribit.valid(),
            Exchange::Binance(binance) => binance.valid(),
        }
    }

    /// The request for up to `depth` levels that the connector's venue
    /// expects.
    pub open spec fn request_text(&self, id: u64, instrument: Instrument, depth: u32) -> Seq<char> {
        match self {
            Exchange::Deribit(_) => Deribit::request_text(id, instrument, depth),
            Exchange::Binance(_) => Binance::request_text(id, instrument, depth),
        }
    }

    /// The connector of a session with `exchange` that has just been opened.
    /// Opening the session itself is the caller's work.
    pub fn connect(exchange: ExchangeType, keys: &ExchangeKeys) -> (r: Exchange)
        ensures
            r.valid(),
            r.venue() == exchange,
            r.pending() == Map::<u64, Seq<Seq<char>>>::empty(),
            r.last_id() == FIRST_ID,
            r matches Exchange::Deribit(deribit) ==> deribit@.client_id == keys.deribit_client_id@
                && deribit@.client_secret == keys.deribit_api_key@,
    {
        match exchange {
            ExchangeType::Binance => Exchange::Binance(Binance::connect()),
            ExchangeType::Deribit => Exchange::Deribit(
                Deribit::connect(keys.deribit_client_id.clone(), keys.deribit_api_key.clone()),
            ),
        }
    }

    /// One turn of the session loop, after the next frame has been read.
    /// `now` is the time in milliseconds since the Unix epoch, where the
    /// clock gives one.
    pub fn ws_manager(&mut self, keep_alive: bool, inbound: Inbound, now: Option<u64>) -> (turn:
        SessionTurn)
        requires
            old(self).valid(),
        ensures
            final(self).valid(),
            final(self).venue() == old(self).venue(),
            final(self).last_id() == old(self).last_id(),
            !keep_alive ==> turn is Stop && final(self).pending() == old(self).pending(),
            keep_alive ==> exists|r: Result<Option<String>, ConnectorError>|
                #![trigger turn_of(keep_alive, r)]
                turn == turn_of(keep_alive, r) && match (*old(self), *final(self)) {
                    (Exchange::Deribit(before), Exchange::Deribit(after)) => deribit::processed(
                        before@,
                        inbound,
                        now,
                        after@,
                        r,
                    ),
                    (Exchange::Binance(before), Exchange::Binance(after)) => binance::processed(
                        before.table(),
                        inbound,
                        after.table(),
                        r,
                    ),
                    _ => false,
                },
    {
        match self {
            Exchange::Deribit(deribit) => {
                let ghost before = deribit@;
                let turn = deribit.ws_manager(keep_alive, inbound, now);
                proof {
                    if keep_alive {
                        let r = choose|r: Result<Option<String>, ConnectorError>|
                            #![trigger turn_of(keep_alive, r)]
                            deribit::processed(before, inbound, now, deribit@, r) && turn
                                == turn_of(keep_alive, r);
                        assert(turn == turn_of(keep_alive, r));
                    }
                }
                turn
            },
            Exchange::Binance(binance) => {
                let ghost before = binance.table();
                let turn = binance.ws_manager(keep_alive, inbound);
                proof {
                    if keep_alive {
                        let r = choose|r: Result<Option<String>, ConnectorError>|
                            #![trigger turn_of(keep_alive, r)]
                            binance::processed(before, inbound, binance.table(), r) && turn
                                == turn_of(keep_alive, r);
                        assert(turn == turn_of(keep_alive, r));
                    }
                }
                turn
            },
        }
    }

    /// What is sent when a session starts, in this order.
    pub fn initialize_ws(&self) -> (r: Vec<String>)
        ensures
            match self {
                Exchange::Deribit(deribit) => {
                    &&& r@.len() == 2
                    &&& r@[0]@ == deribit::auth_text(deribit@.client_id, deribit@.client_secret)
                    &&& r@[1]@ == deribit::heartbeat_setup_text()
                },
                Exchange::Binance(_) => r@.len() == 0,
            },
    {
        match self {
            Exchange::Deribit(deribit) => deribit.initialize_ws(),
            Exchange::Binance(_) => Vec::new(),
        }
    }

    /// One look of the check that keeps the credentials alive: the request
    /// for new credentials, where the venue asks for credentials and one is
    /// due.
    pub fn ws_refresh_auth(&self, now: Option<u64>) -> (r: Option<String>)
        ensures
            match self {
                Exchange::Deribit(deribit) => {
                    &&& r is Some == deribit::refresh_due(deribit@, now) is Some
                    &&& r matches Some(text) ==> text@ == deribit::refresh_due(
                        deribit@,
                        now,
                    )->Some_0
                },
                Exchange::Binance(_) => r is None,
            },
    {
        match self {
            Exchange::Deribit(deribit) => deribit.ws_refresh_auth(now),
            Exchange::Binance(_) => None,
        }
    }

    /// The address to connect to.
    pub fn endpoint(exchange: ExchangeType, testing: bool) -> (url: &'static str)
        ensures
            url@ == match exchange {
                ExchangeType::Deribit => if testing {
                    deribit::DERIBIT_WS_TEST_URL@
                } else {
                    deribit::DERIBIT_WS_URL@
                },
                ExchangeType::Binance => if testing {
                    binance::BINANCE_WS_TEST_URL@
                } else {
                    binance::BINANCE_WS_URL@
                },
            },
    {
        match exchange {
            ExchangeType::Deribit => Deribit::endpoint(testing),
            ExchangeType::Binance => Binance::endpoint(testing),
        }
    }

    /// The venue of the connector.
    pub fn exchange_type(&self) -> (r: ExchangeType)
        ensures
            r == self.venue(),
    {
        match self {
            Exchange::Deribit(_) => ExchangeType::Deribit,
            Exchange::Binance(_) => ExchangeType::Binance,
        }
    }

    /// Starts a pull of up to `depth` bids and asks of `instrument`.
    pub fn begin_pull(&mut self, depth: u32, instrument: Instrument) -> (r: (PullTicket, String))
        requires
            old(self).valid(),
        ensures
            final(self).valid(),
            final(self).venue() == old(self).venue(),
            r.0 == (PullTicket {
                id: next_id(old(self).last_id()),
                instrument,
                attempts_left: POLL_ATTEMPTS,
            }),
            final(self).last_id() == r.0.id,
            final(self).pending() == old(self).pending(),
            r.1@ == old(self).request_text(r.0.id, instrument, depth),
    {
        match self {
            Exchange::Deribit(deribit) => deribit.begin_pull(depth, instrument),
            Exchange::Binance(binance) => binance.begin_pull(depth, instrument),
        }
    }

    /// Polls a pull once.
    pub fn pull_bids_asks(&mut self, ticket: PullTicket, now: Option<u64>) -> (step: PullStep)
        requires
            old(self).valid(),
        ensures
            final(self).valid(),
            final(self).venue() == old(self).venue(),
            final(self).last_id() == old(self).last_id(),
            polled(old(self).pending(), old(self).venue(), ticket, now, final(self).pending(), step),
    {
        match self {
            Exchange::Deribit(deribit) => deribit.pull_bids_asks(ticket, now),
            Exchange::Binance(binance) => binance.pull_bids_asks(ticket, now),
        }
    }
}

} // verus!
