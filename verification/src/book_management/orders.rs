//! Order records: one resting price level of one venue.

use crate::book_management::traded_instruments::Instrument;
use crate::exchange_connectivity::ExchangeType;
use core::cmp::Ordering;
use vstd::prelude::*;
use vstd::std_specs::cmp::{PartialEqSpecImpl, PartialOrdSpecImpl};

verus! {

/// How many units of price or quantity make one whole.
pub const SCALE: u64 = 100_000_000;

/// What an order record says. Prices and quantities are counted in units of
/// `SCALE` to the whole, so a price of 1 is written `SCALE`.
pub struct Level {
    pub instrument: Instrument,
    pub exchange: ExchangeType,
    pub quantity: u64,
    pub price: u64,
}

/// What bids and asks have in common.
pub trait Order: Sized + View<V = Level> {
    fn new(instrument: Instrument, exchange: ExchangeType, quantity: u64, price: u64) -> (r: Self)
        ensures
            r@ == (Level { instrument, exchange, quantity, price }),
    ;

    fn quantity(&self) -> (r: u64)
        ensures
            r == self@.quantity,
    ;

    fn price(&self) -> (r: u64)
        ensures
            r == self@.price,
    ;

    fn instrument(&self) -> (r: Instrument)
        ensures
            r == self@.instrument,
    ;

    fn exchange(&self) -> (r: ExchangeType)
        ensures
            r == self@.exchange,
    ;
}

/// How two records of one side compare: first by price, towards the better
/// price, then by quantity, the smaller first.
pub open spec fn side_order(descending: bool, a: Level, b: Level) -> Ordering {
    if a.price != b.price {
        if (a.price > b.price) == descending {
            Ordering::Less
        } else {
            Ordering::Greater
        }
    } else if a.quantity < b.quantity {
        Ordering::Less
    } else if a.quantity > b.quantity {
        Ordering::Greater
    } else {
        Ordering::Equal
    }
}

/// How two records of one side compare by price alone, towards the better
/// price.
pub open spec fn price_order(descending: bool, a: Level, b: Level) -> Ordering {
    if a.price == b.price {
        Ordering::Equal
    } else if (a.price > b.price) == descending {
        Ordering::Less
    } else {
        Ordering::Greater
    }
}

/// An offer to buy. Bids rank from the highest price down; two bids are equal
/// when their prices are.
#[derive(Clone, Copy, Debug)]
pub struct Bid {
    instrument: Instrument,
    exchange: ExchangeType,
    quantity: u64,
    price: u64,
}

impl View for Bid {
    type V = Level;

    closed spec fn view(&self) -> Level {
        Level {
            instrument: self.instrument,
            exchange: self.exchange,
            quantity: self.quantity,
            price: self.price,
        }
    }
}

impl PartialEq for Bid {
    fn eq(&self, other: &Self) -> (r: bool) {
        self.price == other.price
    }
}

impl Eq for Bid {

}

impl PartialEqSpecImpl for Bid {
    open spec fn obeys_eq_spec() -> bool {
        true
    }

    open spec fn eq_spec(&self, other: &Self) -> bool {
        self@.price == other@.price
    }
}

impl PartialOrd for Bid {
    fn partial_cmp(&self, other: &Self) -> (r: Option<Ordering>) {
        if self.price == other.price {
            Some(Ordering::Equal)
        } else if self.price > other.price {
            Some(Ordering::Less)
        } else {
            Some(Ordering::Greater)
        }
    }
}

impl PartialOrdSpecImpl for Bid {
    open spec fn obeys_partial_cmp_spec() -> bool {
        true
    }

    open spec fn partial_cmp_spec(&self, other: &Self) -> Option<Ordering> {
        Some(price_order(true, self@, other@))
    }
}

impl Bid {
    /// The full order of bids: the higher price first, then the smaller
    /// quantity.
    pub fn cmp(&self, other: &Self) -> (r: Ordering)
        ensures
            r == side_order(true, self@, other@),
    {
        if self.price > other.price {
            Ordering::Less
        } else if self.price < other.price {
            Ordering::Greater
        } else if self.quantity < other.quantity {
            Ordering::Less
        } else if self.quantity > other.quantity {
            Ordering::Greater
        } else {
            Ordering::Equal
        }
    }
}

impl Order for Bid {
    fn new(instrument: Instrument, exchange: ExchangeType, quantity: u64, price: u64) -> (r: Self) {
        Bid { instrument, exchange, quantity, price }
    }

    fn quantity(&self) -> (r: u64) {
        self.quantity
    }

    fn price(&self) -> (r: u64) {
        self.price
    }

    fn instrument(&self) -> (r: Instrument) {
        self.instrument
    }

    fn exchange(&self) -> (r: ExchangeType) {
        self.exchange
    }
}

/// An offer to sell. Asks rank from the lowest price up; two asks are equal
/// when their prices are.
#[derive(Clone, Copy, Debug)]
pub struct Ask {
    instrument: Instrument,
    exchange: ExchangeType,
    quantity: u64,
    price: u64,
}

impl View for Ask {
    type V = Level;

    closed spec fn view(&self) -> Level {
        Level {
            instrument: self.instrument,
            exchange: self.exchange,
            quantity: self.quantity,
            price: self.price,
        }
    }
}

impl PartialEq for Ask {
    fn eq(&self, other: &Self) -> (r: bool) {
        self.price == other.price
    }
}

impl Eq for Ask {

}

impl PartialEqSpecImpl for Ask {
    open spec fn obeys_eq_spec() -> bool {
        true
    }

    open spec fn eq_spec(&self, other: &Self) -> bool {
        self@.price == other@.price
    }
}

impl PartialOrd for Ask {
    fn partial_cmp(&self, other: &Self) -> (r: Option<Ordering>) {
        if self.price == other.price {
            Some(Ordering::Equal)
        } else if self.price < other.price {
            Some(Ordering::Less)
        } else {
            Some(Ordering::Greater)
        }
    }
}

impl PartialOrdSpecImpl for Ask {
    open spec fn obeys_partial_cmp_spec() -> bool {
        true
    }

    open spec fn partial_cmp_spec(&self, other: &Self) -> Option<Ordering> {
        Some(price_order(false, self@, other@))
    }
}

impl Ask {
    /// The full order of asks: the lower price first, then the smaller
    /// quantity.
    pub fn cmp(&self, other: &Self) -> (r: Ordering)
        ensures
            r == side_order(false, self@, other@),
    {
        if self.price < other.price {
            Ordering::Less
        } else if self.price > other.price {
            Ordering::Greater
        } else if self.quantity < other.quantity {
            Ordering::Less
        } else if self.quantity > other.quantity {
            Ordering::Greater
        } else {
            Ordering::Equal
        }
    }
}

impl Order for Ask {
    fn new(instrument: Instrument, exchange: ExchangeType, quantity: u64, price: u64) -> (r: Self) {
        Ask { instrument, exchange, quantity, price }
    }

    fn quantity(&self) -> (r: u64) {
        self.quantity
    }

    fn price(&self) -> (r: u64) {
        self.price
    }

    fn instrument(&self) -> (r: Instrument) {
        self.instrument
    }

    fn exchange(&self) -> (r: ExchangeType) {
        self.exchange
    }
}

} // verus!
