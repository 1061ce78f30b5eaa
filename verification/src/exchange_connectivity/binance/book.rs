//! The venue's requests for the best levels of a book.

use super::Binance;
use crate::book_management::orders::Order;
use crate::book_management::traded_instruments::Instrument;
use crate::exchange_connectivity::decimal::{decimal_text, unsigned_text};
use crate::exchange_connectivity::json::{
    group_view, json_render, members_view, render, rows_view, Cell, Leaf, LeafView, Member,
    MemberView,
};
use crate::exchange_connectivity::{
    convert_rows, levels, levels_of, open_ticket, poll_table, ConnectedExchangeForBook,
    ExchangeType, PullStep, PullTicket,
};
use vstd::prelude::*;
use vstd::string::StringExecFns;

verus! {

/// The largest number of levels that the venue gives.
pub const MAX_DEPTH: u32 = 5000;

/// The depth that is asked of the venue for a wanted depth.
pub open spec fn clamped(depth: u32) -> u32 {
    if depth > MAX_DEPTH {
        MAX_DEPTH
    } else {
        depth
    }
}

/// The venue's name for an instrument.
pub open spec fn symbol(instrument: Instrument) -> Seq<char> {
    match instrument {
        Instrument::BtcUsdt => "BTCUSDT"@,
        Instrument::EthUsdc => "ETHUSDC"@,
    }
}

/// The request for the best `depth` levels of an instrument.
pub open spec fn depth_request_text(id: u64, instrument_name: Seq<char>, depth: u32) -> Seq<char> {
    json_render(
        seq![
            ("id"@, MemberView::Leaf(LeafView::Text(decimal_text(id as nat)))),
            ("method"@, MemberView::Leaf(LeafView::Text("depth"@))),
            (
                "params"@,
                MemberView::Group(
                    seq![
                        ("symbol"@, LeafView::Text(instrument_name)),
                        ("limit"@, LeafView::Unsigned(depth as u64)),
                    ],
                ),
            ),
        ],
    )
}

impl Binance {
    /// The request for the best `depth` levels of an instrument, under the
    /// correlation id `id`.
    pub fn request_get_order_book(id: u64, instrument_name: &str, depth: u32) -> (r: String)
        ensures
            r@ == depth_request_text(id, instrument_name@, depth),
    {
        let params = vec![
            (String::from_str("symbol"), Leaf::Text(String::from_str(instrument_name))),
            (String::from_str("limit"), Leaf::Unsigned(depth as u64)),
        ];
        assert(group_view(params@) =~= seq![
            ("symbol"@, LeafView::Text(instrument_name@)),
            ("limit"@, LeafView::Unsigned(depth as u64)),
        ]);
        let members = vec![
            (String::from_str("id"), Member::Leaf(Leaf::Text(unsigned_text(id)))),
            (String::from_str("method"), Member::Leaf(Leaf::Text(String::from_str("depth")))),
            (String::from_str("params"), Member::Group(params)),
        ];
        assert(members_view(members@) =~= seq![
            ("id"@, MemberView::Leaf(LeafView::Text(decimal_text(id as nat)))),
            ("method"@, MemberView::Leaf(LeafView::Text("depth"@))),
            (
                "params"@,
                MemberView::Group(
                    seq![
                        ("symbol"@, LeafView::Text(instrument_name@)),
                        ("limit"@, LeafView::Unsigned(depth as u64)),
                    ],
                ),
            ),
        ]);
        render(&members)
    }

    /// Turns the rows of a response into order records. The venue writes
    /// each row as a pair of strings, the price and the quantity; rows that
    /// are anything else are left out.
    pub fn convert_vec_values_to_orders<T: Order>(
        exchange: ExchangeType,
        vec: &Vec<Option<Vec<Cell>>>,
        instrument: Instrument,
    ) -> (r: Vec<T>)
        ensures
            levels(r@) == levels_of(rows_view(vec@), false, exchange, instrument),
    {
        convert_rows(exchange, vec, instrument, false)
    }
}

impl ConnectedExchangeForBook for Binance {
    open spec fn venue() -> ExchangeType {
        ExchangeType::Binance
    }

    open spec fn pending(&self) -> Map<u64, Seq<Seq<char>>> {
        self.table()
    }

    open spec fn last_id(&self) -> u64 {
        self.counter()
    }

    open spec fn valid(&self) -> bool {
        self.wf()
    }

    open spec fn instrument_name(instrument: Instrument) -> Seq<char> {
        symbol(instrument)
    }

    open spec fn request_text(id: u64, instrument: Instrument, depth: u32) -> Seq<char> {
        depth_request_text(id, symbol(instrument), clamped(depth))
    }

    fn to_instrument_name(instrument: Instrument) -> (name: String) {
        match instrument {
            Instrument::BtcUsdt => String::from_str("BTCUSDT"),
            Instrument::EthUsdc => String::from_str("ETHUSDC"),
        }
    }

    fn begin_pull(&mut self, depth: u32, instrument: Instrument) -> (r: (PullTicket, String)) {
        let depth = if depth > MAX_DEPTH {
            MAX_DEPTH
        } else {
            depth
        };
        let req_id = self.get_new_id();
        let name = Self::to_instrument_name(instrument);
        let request = Self::request_get_order_book(req_id, name.as_str(), depth);
        (open_ticket(req_id, instrument), request)
    }

    fn pull_bids_asks(&mut self, ticket: PullTicket, now: Option<u64>) -> (step: PullStep) {
        self.poll(ticket, now)
    }
}

impl Binance {
    /// Polls a pull once.
    fn poll(&mut self, ticket: PullTicket, now: Option<u64>) -> (step: PullStep)
        requires
            old(self).wf(),
        ensures
            final(self).wf(),
            final(self).counter() == old(self).counter(),
            crate::exchange_connectivity::polled(
                old(self).table(),
                ExchangeType::Binance,
                ticket,
                now,
                final(self).table(),
                step,
            ),
    {
        poll_table(&mut self.non_main_stream, ExchangeType::Binance, ticket, now)
    }
}

} // verus!
