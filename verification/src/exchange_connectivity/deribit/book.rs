//! The venue's requests for the best levels of a book.

use super::{rpc, rpc_text, Deribit, DeribitView};
use crate::book_management::orders::Order;
use crate::book_management::traded_instruments::Instrument;
use crate::exchange_connectivity::json::{group_view, rows_view, Cell, Leaf, LeafView};
use crate::exchange_connectivity::{
    convert_rows, levels, levels_of, open_ticket, poll_table, polled, ConnectedExchangeForBook,
    ExchangeType, PullStep, PullTicket,
};
use vstd::prelude::*;
use vstd::string::StringExecFns;

verus! {

/// The depths that the venue gives.
#[derive(Clone, Copy, Debug, PartialEq, Eq, Structural)]
pub enum ValidOrderDepth {
    One,
    Five,
    Ten,
    Twenty,
    Fifty,
    OneHundered,
    OneThousand,
    TenThousand,
}

impl ValidOrderDepth {
    /// The number of levels of a depth.
    pub open spec fn levels(self) -> u32 {
        match self {
            ValidOrderDepth::One => 1,
            ValidOrderDepth::Five => 5,
            ValidOrderDepth::Ten => 10,
            ValidOrderDepth::Twenty => 20,
            ValidOrderDepth::Fifty => 50,
            ValidOrderDepth::OneHundered => 100,
            ValidOrderDepth::OneThousand => 1000,
            ValidOrderDepth::TenThousand => 10000,
        }
    }

    /// The depth for a wanted number of levels: the largest depth that does
    /// not exceed it, and the smallest depth for a number below every depth.
    pub open spec fn of(value: u32) -> ValidOrderDepth {
        if value >= 10000 {
            ValidOrderDepth::TenThousand
        } else if value >= 1000 {
            ValidOrderDepth::OneThousand
        } else if value >= 100 {
            ValidOrderDepth::OneHundered
        } else if value >= 50 {
            ValidOrderDepth::Fifty
        } else if value >= 20 {
            ValidOrderDepth::Twenty
        } else if value >= 10 {
            ValidOrderDepth::Ten
        } else if value >= 5 {
            ValidOrderDepth::Five
        } else {
            ValidOrderDepth::One
        }
    }

    /// The depth for a wanted number of levels.
    pub fn from_number(value: u32) -> (r: Self)
        ensures
            r == Self::of(value),
            r.levels() <= value || r == ValidOrderDepth::One,
            forall|d: ValidOrderDepth| d.levels() <= value ==> d.levels() <= r.levels(),
    {
        if value >= 10000 {
            ValidOrderDepth::TenThousand
        } else if value >= 1000 {
            ValidOrderDepth::OneThousand
        } else if value >= 100 {
            ValidOrderDepth::OneHundered
        } else if value >= 50 {
            ValidOrderDepth::Fifty
        } else if value >= 20 {
            ValidOrderDepth::Twenty
        } else if value >= 10 {
            ValidOrderDepth::Ten
        } else if value >= 5 {
            ValidOrderDepth::Five
        } else {
            ValidOrderDepth::One
        }
    }

    /// The number of levels of the depth.
    pub fn value(&self) -> (r: u32)
        ensures
            r == self.levels(),
    {
        match self {
            ValidOrderDepth::One => 1,
            ValidOrderDepth::Five => 5,
            ValidOrderDepth::Ten => 10,
            ValidOrderDepth::Twenty => 20,
            ValidOrderDepth::Fifty => 50,
            ValidOrderDepth::OneHundered => 100,
            ValidOrderDepth::OneThousand => 1000,
            ValidOrderDepth::TenThousand => 10000,
        }
    }
}

/// The venue's name for an instrument.
pub open spec fn symbol(instrument: Instrument) -> Seq<char> {
    match instrument {
        Instrument::BtcUsdt => "BTC_USDT"@,
        Instrument::EthUsdc => "ETH_USDC"@,
    }
}

/// The request for the best levels of an instrument.
pub open spec fn depth_request_text(id: u64, instrument_name: Seq<char>, depth: ValidOrderDepth) -> Seq<
    char,
> {
    rpc_text(
        id,
        "public/get_order_book"@,
        seq![
            ("instrument_name"@, LeafView::Text(instrument_name)),
            ("depth"@, LeafView::Unsigned(depth.levels() as u64)),
        ],
    )
}

impl Deribit {
    /// The request for the best levels of an instrument, under the
    /// correlation id `id`.
    pub fn request_get_order_book(id: u64, instrument_name: &str, depth: ValidOrderDepth) -> (r:
        String)
        ensures
            r@ == depth_request_text(id, instrument_name@, depth),
    {
        let params = vec![
            (String::from_str("instrument_name"), Leaf::Text(String::from_str(instrument_name))),
            (String::from_str("depth"), Leaf::Unsigned(depth.value() as u64)),
        ];
        assert(group_view(params@) =~= seq![
            ("instrument_name"@, LeafView::Text(instrument_name@)),
            ("depth"@, LeafView::Unsigned(depth.levels() as u64)),
        ]);
        rpc(id, "public/get_order_book", params)
    }

    /// Turns the rows of a response into order records. The venue writes
    /// each row as a pair of numbers, the price and the quantity; rows that
    /// are anything else are left out.
    pub fn convert_vec_values_to_orders<T: Order>(
        exchange: ExchangeType,
        vec: &Vec<Option<Vec<Cell>>>,
        instrument: Instrument,
    ) -> (r: Vec<T>)
        ensures
            levels(r@) == levels_of(rows_view(vec@), true, exchange, instrument),
    {
        convert_rows(exchange, vec, instrument, true)
    }

    /// Polls a pull once.
    fn poll(&mut self, ticket: PullTicket, now: Option<u64>) -> (step: PullStep)
        requires
            old(self).wf(),
        ensures
            final(self).wf(),
            final(self)@ == (DeribitView { pending: final(self)@.pending, ..old(self)@ }),
            polled(
                old(self)@.pending,
                ExchangeType::Deribit,
                ticket,
                now,
                final(self)@.pending,
                step,
            ),
    {
        poll_table(&mut self.non_main_stream, ExchangeType::Deribit, ticket, now)
    }
}

impl ConnectedExchangeForBook for Deribit {
    open spec fn venue() -> ExchangeType {
        ExchangeType::Deribit
    }

    open spec fn pending(&self) -> Map<u64, Seq<Seq<char>>> {
        self@.pending
    }

    open spec fn last_id(&self) -> u64 {
        self@.curr_msg_id
    }

    open spec fn valid(&self) -> bool {
        self.wf()
    }

    open spec fn instrument_name(instrument: Instrument) -> Seq<char> {
        symbol(instrument)
    }

    open spec fn request_text(id: u64, instrument: Instrument, depth: u32) -> Seq<char> {
        depth_request_text(id, symbol(instrument), ValidOrderDepth::of(depth))
    }

    fn to_instrument_name(instrument: Instrument) -> (name: String) {
        match instrument {
            Instrument::BtcUsdt => String::from_str("BTC_USDT"),
            Instrument::EthUsdc => String::from_str("ETH_USDC"),
        }
    }

    fn begin_pull(&mut self, depth: u32, instrument: Instrument) -> (r: (PullTicket, String)) {
        let depth = ValidOrderDepth::from_number(depth);
        let req_id = self.get_new_id();
        let name = Self::to_instrument_name(instrument);
        let request = Self::request_get_order_book(req_id, name.as_str(), depth);
        (open_ticket(req_id, instrument), request)
    }

    fn pull_bids_asks(&mut self, ticket: PullTicket, now: Option<u64>) -> (step: PullStep) {
        self.poll(ticket, now)
    }
}

} // verus!
