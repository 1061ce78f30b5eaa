//! Aggregation of order-book data from several trading venues.
//!
//! The crate holds the decision logic of the aggregator: a bounded,
//! key-ordered time series, the merge of per-venue price levels into ranked
//! bid and ask collections, and the protocol logic of the venue connectors.
//! Sockets, timers and tasks are left to the program that drives it.

pub mod order;
pub mod time_series_array;
pub mod book_management;
pub mod exchange_connectivity;
