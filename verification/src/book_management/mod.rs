//! The aggregated order book of one instrument.
//!
//! A book holds the bids and the asks of every subscribed venue, each side
//! ranked towards its best price, with one record to a price. A refresh
//! empties both sides and then takes in what each venue returned, venue by
//! venue; the first venue that fails ends the refresh, leaves the book empty
//! and sets its time back to what it was before the refresh.

pub mod ladder;
pub mod multibook;
pub mod orders;
pub mod traded_instruments;

pub use orders::{Ask, Bid, Level, Order, SCALE};

use crate::exchange_connectivity::{ConnectorError, ExchangeType, TopOfBook};
use ladder::{merge, merged, ranked, total_price};
use traded_instruments::Instrument;
use vstd::prelude::*;

verus! {

/// How many levels a refresh asks of each venue.
pub const PULL_DEPTH: u32 = 10;

/// What a book holds.
pub struct BookView {
    pub instrument: Instrument,
    pub subscriptions: Seq<ExchangeType>,
    /// The time of the last venue answer taken in by a refresh that has not
    /// failed, in milliseconds since the Unix epoch.
    pub last_msg: u64,
    /// The time that the book showed when its last refresh began.
    pub time_before: u64,
    /// The bids, best first.
    pub bids: Seq<Bid>,
    /// The asks, best first.
    pub asks: Seq<Ask>,
}

/// The book at the start of a refresh: both sides are emptied, and the time
/// that the book shows is remembered.
pub open spec fn begun(book: BookView) -> BookView {
    BookView {
        instrument: book.instrument,
        subscriptions: book.subscriptions,
        last_msg: book.last_msg,
        time_before: book.last_msg,
        bids: Seq::empty(),
        asks: Seq::empty(),
    }
}

/// The book after a venue has failed: both sides are emptied, and the time is
/// the one that the book showed when the refresh began.
pub open spec fn failed(book: BookView) -> BookView {
    BookView {
        instrument: book.instrument,
        subscriptions: book.subscriptions,
        last_msg: book.time_before,
        time_before: book.time_before,
        bids: Seq::empty(),
        asks: Seq::empty(),
    }
}

/// The book after one venue's outcome: its records are merged in and its time
/// is recorded, or, where the venue failed, the refresh has failed.
pub open spec fn absorbed(book: BookView, outcome: Result<TopOfBook, ConnectorError>) -> BookView {
    match outcome {
        Ok(top) => BookView {
            instrument: book.instrument,
            subscriptions: book.subscriptions,
            last_msg: top.2,
            time_before: book.time_before,
            bids: merged(book.bids, top.0@, true),
            asks: merged(book.asks, top.1@, false),
        },
        Err(_) => failed(book),
    }
}

/// The book after the outcomes of the venues, taken in turn up to and with
/// the first failure.
pub open spec fn absorbed_all(
    book: BookView,
    outcomes: Seq<Result<TopOfBook, ConnectorError>>,
) -> BookView
    decreases outcomes.len(),
{
    if outcomes.len() == 0 {
        book
    } else if outcomes[0] is Err {
        absorbed(book, outcomes[0])
    } else {
        absorbed_all(absorbed(book, outcomes[0]), outcomes.drop_first())
    }
}

/// The error of the first venue that failed, if one did.
pub open spec fn first_failure(outcomes: Seq<Result<TopOfBook, ConnectorError>>) -> Option<
    ConnectorError,
>
    decreases outcomes.len(),
{
    if outcomes.len() == 0 {
        None
    } else {
        match outcomes[0] {
            Err(e) => Some(e),
            Ok(_) => first_failure(outcomes.drop_first()),
        }
    }
}

/// A refresh in which a venue fails leaves both sides of the book empty and
/// the time that the book shows as it was before the refresh.
pub proof fn law_failed_refresh(book: BookView, outcomes: Seq<Result<TopOfBook, ConnectorError>>)
    requires
        first_failure(outcomes) is Some,
    ensures
        absorbed_all(begun(book), outcomes).bids.len() == 0,
        absorbed_all(begun(book), outcomes).asks.len() == 0,
        absorbed_all(begun(book), outcomes).last_msg == book.last_msg,
{
    lemma_failure_restores(begun(book), outcomes);
}

/// Whatever has been taken in, a venue that fails empties the book and sets
/// its time back.
proof fn lemma_failure_restores(book: BookView, outcomes: Seq<Result<TopOfBook, ConnectorError>>)
    requires
        first_failure(outcomes) is Some,
    ensures
        absorbed_all(book, outcomes).bids.len() == 0,
        absorbed_all(book, outcomes).asks.len() == 0,
        absorbed_all(book, outcomes).last_msg == book.time_before,
        absorbed_all(book, outcomes).time_before == book.time_before,
    decreases outcomes.len(),
{
    if outcomes.len() > 0 && outcomes[0] is Ok {
        lemma_failure_restores(absorbed(book, outcomes[0]), outcomes.drop_first());
    }
}

/// The rows of a snapshot: the n-th best bid beside the n-th best ask, for
/// as long as either side lasts.
pub open spec fn paired(bids: Seq<Bid>, asks: Seq<Ask>) -> Seq<(Option<Bid>, Option<Ask>)> {
    Seq::new(
        if bids.len() >= asks.len() {
            bids.len()
        } else {
            asks.len()
        },
        |n: int|
            (
                if n < bids.len() {
                    Some(bids[n])
                } else {
                    None
                },
                if n < asks.len() {
                    Some(asks[n])
                } else {
                    None
                },
            ),
    )
}

/// The two sums of which the imbalance of a book is the quotient.
#[derive(Clone, Copy, Debug, PartialEq, Eq, Structural)]
pub struct Imbalance {
    /// The sum of the bid prices.
    pub bid_total: u128,
    /// The sum of the ask prices.
    pub ask_total: u128,
}

/// The merged bids and asks of the venues that follow one instrument.
pub struct AggregatedOrderBook {
    instrument: Instrument,
    subscriptions: Vec<ExchangeType>,
    last_msg: u64,
    time_before: u64,
    bids: Vec<Bid>,
    asks: Vec<Ask>,
}

impl View for AggregatedOrderBook {
    type V = BookView;

    closed spec fn view(&self) -> BookView {
        BookView {
            instrument: self.instrument,
            subscriptions: self.subscriptions@,
            last_msg: self.last_msg,
            time_before: self.time_before,
            bids: self.bids@,
            asks: self.asks@,
        }
    }
}

impl AggregatedOrderBook {
    /// Both sides are ranked: bids from the highest price down, asks from the
    /// lowest price up, no price twice on a side.
    pub open spec fn wf(&self) -> bool {
        ranked(self@.bids, true) && ranked(self@.asks, false)
    }

    /// An empty book for `instrument`, fed by the venues of `subscriptions`.
    pub fn new(instrument: Instrument, subscriptions: &Vec<ExchangeType>) -> (r: Self)
        ensures
            r.wf(),
            r@ == (BookView {
                instrument,
                subscriptions: subscriptions@,
                last_msg: 0,
                time_before: 0,
                bids: Seq::empty(),
                asks: Seq::empty(),
            }),
    {
        let mut new_subs: Vec<ExchangeType> = Vec::new();
        let mut i: usize = 0;
        while i < subscriptions.len()
            invariant
                i <= subscriptions@.len(),
                new_subs@ == subscriptions@.take(i as int),
            decreases subscriptions@.len() - i,
        {
            new_subs.push(subscriptions[i]);
            assert(subscriptions@.take(i + 1) =~= subscriptions@.take(i as int).push(
                subscriptions@[i as int],
            ));
            i += 1;
        }
        assert(subscriptions@.take(i as int) =~= subscriptions@);
        AggregatedOrderBook {
            instrument,
            subscriptions: new_subs,
            last_msg: 0,
            time_before: 0,
            bids: Vec::new(),
            asks: Vec::new(),
        }
    }

    /// The instrument that the book follows.
    pub fn instrument(&self) -> (r: Instrument)
        ensures
            r == self@.instrument,
    {
        self.instrument
    }

    /// The venues that feed the book, in the order in which a refresh asks
    /// them.
    pub fn subscriptions(&self) -> (r: &Vec<ExchangeType>)
        ensures
            r@ == self@.subscriptions,
    {
        &self.subscriptions
    }

    /// The bids, best first.
    pub fn bids(&self) -> (r: &Vec<Bid>)
        ensures
            r@ == self@.bids,
    {
        &self.bids
    }

    /// The asks, best first.
    pub fn asks(&self) -> (r: &Vec<Ask>)
        ensures
            r@ == self@.asks,
    {
        &self.asks
    }

    /// The venue that a refresh asks next, after `asked` venues have
    /// answered: that venue, how many levels to ask of it, and for which
    /// instrument. `None` once every venue has been asked.
    pub fn next_pull(&self, asked: usize) -> (r: Option<(ExchangeType, u32, Instrument)>)
        ensures
            r == if asked < self@.subscriptions.len() {
                Some((self@.subscriptions[asked as int], PULL_DEPTH, self@.instrument))
            } else {
                None
            },
    {
        if asked < self.subscriptions.len() {
            Some((self.subscriptions[asked], PULL_DEPTH, self.instrument))
        } else {
            None
        }
    }

    /// Starts a refresh: empties both sides and remembers the time that the
    /// book shows.
    pub fn begin_update(&mut self)
        ensures
            final(self).wf(),
            final(self)@ == begun(old(self)@),
    {
        self.bids = Vec::new();
        self.asks = Vec::new();
        self.time_before = self.last_msg;
    }

    /// Takes in what one venue returned during a refresh. Its records are
    /// merged into the two sides and its time is recorded. Where the venue
    /// failed, its error is handed back and the refresh is over: both sides
    /// are emptied, and the book shows the time again that it showed when the
    /// refresh began.
    pub fn merge_venue(&mut self, outcome: Result<TopOfBook, ConnectorError>) -> (r: Result<
        (),
        ConnectorError,
    >)
        requires
            old(self).wf(),
        ensures
            final(self).wf(),
            final(self)@ == absorbed(old(self)@, outcome),
            r == match outcome {
                Ok(_) => Ok::<(), ConnectorError>(()),
                Err(e) => Err(e),
            },
    {
        match outcome {
            Ok(top) => {
                let (new_bids, new_asks, time) = top;
                merge(&mut self.bids, &new_bids, true);
                merge(&mut self.asks, &new_asks, false);
                self.last_msg = time;
                Ok(())
            },
            Err(e) => {
                self.bids = Vec::new();
                self.asks = Vec::new();
                self.last_msg = self.time_before;
                Err(e)
            },
        }
    }

    /// Runs one refresh over the outcomes of the venues, given in the order
    /// in which they were asked: empties the book, then takes the outcomes in
    /// one by one. The first failure ends the refresh and is returned; the
    /// book is then empty, and its time is what it was before the refresh.
    pub fn update_state(&mut self, outcomes: &Vec<Result<TopOfBook, ConnectorError>>) -> (r: Result<
        (),
        ConnectorError,
    >)
        ensures
            final(self).wf(),
            final(self)@ == absorbed_all(begun(old(self)@), outcomes@),
            r == match first_failure(outcomes@) {
                Some(e) => Err::<(), ConnectorError>(e),
                None => Ok(()),
            },
            r is Err ==> final(self)@.bids.len() == 0 && final(self)@.asks.len() == 0,
            r is Err ==> final(self)@.last_msg == old(self)@.last_msg,
    {
        self.begin_update();
        let mut i: usize = 0;
        assert(outcomes@.subrange(0, outcomes@.len() as int) =~= outcomes@);
        while i < outcomes.len()
            invariant
                i <= outcomes@.len(),
                self.wf(),
                self@.time_before == old(self)@.last_msg,
                absorbed_all(begun(old(self)@), outcomes@) == absorbed_all(
                    self@,
                    outcomes@.subrange(i as int, outcomes@.len() as int),
                ),
                first_failure(outcomes@) == first_failure(
                    outcomes@.subrange(i as int, outcomes@.len() as int),
                ),
            decreases outcomes@.len() - i,
        {
            let ghost rest = outcomes@.subrange(i as int, outcomes@.len() as int);
            assert(rest[0] == outcomes@[i as int]);
            assert(rest.drop_first() =~= outcomes@.subrange(i + 1, outcomes@.len() as int));
            let outcome = copy_outcome(&outcomes[i]);
            let step = self.merge_venue(outcome);
            if let Err(e) = step {
                return Err(e);
            }
            i += 1;
        }
        Ok(())
    }

    /// The n-th best bid beside the n-th best ask, for as long as either side
    /// lasts; the shorter side is padded with `None`.
    pub fn best_levels_snapshot(&self) -> (rows: Vec<(Option<Bid>, Option<Ask>)>)
        ensures
            rows@ == paired(self@.bids, self@.asks),
    {
        let n_bids = self.bids.len();
        let n_asks = self.asks.len();
        let max_rows = if n_bids >= n_asks {
            n_bids
        } else {
            n_asks
        };
        let mut rows: Vec<(Option<Bid>, Option<Ask>)> = Vec::new();
        let mut n: usize = 0;
        while n < max_rows
            invariant
                n <= max_rows,
                n_bids == self.bids@.len(),
                n_asks == self.asks@.len(),
                max_rows == paired(self.bids@, self.asks@).len(),
                rows@.len() == n,
                forall|k: int| 0 <= k < n ==> rows@[k] == paired(self.bids@, self.asks@)[k],
            decreases max_rows - n,
        {
            let bid = if n < n_bids {
                Some(self.bids[n])
            } else {
                None
            };
            let ask = if n < n_asks {
                Some(self.asks[n])
            } else {
                None
            };
            rows.push((bid, ask));
            n += 1;
        }
        assert(rows@ =~= paired(self@.bids, self@.asks));
        rows
    }

    /// The sum of the bid prices and the sum of the ask prices. Their
    /// quotient is the imbalance of the book.
    pub fn imbalance(&self) -> (r: Imbalance)
        ensures
            r.bid_total == total_price(self@.bids),
            r.ask_total == total_price(self@.asks),
    {
        Imbalance { bid_total: sum_prices(&self.bids), ask_total: sum_prices(&self.asks) }
    }

    /// The time that the most recent refresh without a failure recorded, in
    /// milliseconds since the Unix epoch; 0 before the first. It is the time
    /// of the last venue answer that the refresh took in. A refresh that
    /// fails leaves it as it was before that refresh.
    pub fn last_time(&self) -> (r: u64)
        ensures
            r == self@.last_msg,
    {
        self.last_msg
    }
}

/// A copy of what a venue returned.
fn copy_outcome(outcome: &Result<TopOfBook, ConnectorError>) -> (r: Result<TopOfBook, ConnectorError>)
    ensures
        r is Ok == outcome is Ok,
        outcome matches Ok(top) ==> r matches Ok(copy) && copy.0@ == top.0@ && copy.1@ == top.1@
            && copy.2 == top.2,
        outcome matches Err(e) ==> r == Err::<TopOfBook, ConnectorError>(*e),
{
    match outcome {
        Ok(top) => Ok((copy_levels(&top.0), copy_levels(&top.1), top.2)),
        Err(e) => Err(e.clone()),
    }
}

/// A copy of a list of order records.
fn copy_levels<T: Order + Copy>(levels: &Vec<T>) -> (r: Vec<T>)
    ensures
        r@ == levels@,
{
    let mut out: Vec<T> = Vec::new();
    let mut i: usize = 0;
    while i < levels.len()
        invariant
            i <= levels@.len(),
            out@ == levels@.take(i as int),
        decreases levels@.len() - i,
    {
        out.push(levels[i]);
        assert(levels@.take(i + 1) =~= levels@.take(i as int).push(levels@[i as int]));
        i += 1;
    }
    assert(levels@.take(i as int) =~= levels@);
    out
}

/// The sum of the prices of a list of order records.
pub fn sum_prices<T: Order>(levels: &Vec<T>) -> (r: u128)
    ensures
        r == total_price(levels@),
{
    let mut total: u128 = 0;
    let mut i: usize = 0;
    assert(levels@.take(0) =~= Seq::<T>::empty());
    while i < levels.len()
        invariant
            i <= levels@.len(),
            total == total_price(levels@.take(i as int)),
            total <= i * 0xffff_ffff_ffff_ffff,
        decreases levels@.len() - i,
    {
        let price = levels[i].price();
        proof {
            assert(levels@.take(i + 1).drop_last() =~= levels@.take(i as int));
            assert(levels@.take(i + 1).last() == levels@[i as int]);
            assert((i + 1) * 0xffff_ffff_ffff_ffff <= 0xffff_ffff_ffff_ffff
                * 0xffff_ffff_ffff_ffff) by (nonlinear_arith)
                requires
                    i + 1 <= 0xffff_ffff_ffff_ffff,
            ;
            assert(i * 0xffff_ffff_ffff_ffff + 0xffff_ffff_ffff_ffff == (i + 1)
                * 0xffff_ffff_ffff_ffff) by (nonlinear_arith);
        }
        total = total + price as u128;
        i += 1;
    }
    assert(levels@.take(i as int) =~= levels@);
    total
}

} // verus!
