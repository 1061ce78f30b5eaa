use market_aggregator::book_management::ladder::{merge, place};
use market_aggregator::book_management::multibook::Multibook;
use market_aggregator::book_management::traded_instruments::Instrument;
use market_aggregator::book_management::{AggregatedOrderBook, Ask, Bid, Order, PULL_DEPTH, SCALE};
use market_aggregator::exchange_connectivity::{ConnectorError, ExchangeType, TopOfBook};
use std::cmp::Ordering;
use std::sync::Arc;

fn bid(venue: ExchangeType, price: u64, quantity: u64) -> Bid {
    Bid::new(Instrument::BtcUsdt, venue, quantity * SCALE, price * SCALE)
}

fn ask(venue: ExchangeType, price: u64, quantity: u64) -> Ask {
    Ask::new(Instrument::BtcUsdt, venue, quantity * SCALE, price * SCALE)
}

fn bid_pairs(book: &AggregatedOrderBook) -> Vec<(u64, u64)> {
    book.bids().iter().map(|b| (b.price() / SCALE, b.quantity() / SCALE)).collect()
}

fn ask_pairs(book: &AggregatedOrderBook) -> Vec<(u64, u64)> {
    book.asks().iter().map(|a| (a.price() / SCALE, a.quantity() / SCALE)).collect()
}

fn two_venue_book() -> AggregatedOrderBook {
    AggregatedOrderBook::new(
        Instrument::BtcUsdt,
        &vec![ExchangeType::Binance, ExchangeType::Deribit],
    )
}

#[test]
fn new_book_is_empty() {
    let book = two_venue_book();
    assert_eq!(book.instrument(), Instrument::BtcUsdt);
    assert_eq!(book.subscriptions(), &vec![ExchangeType::Binance, ExchangeType::Deribit]);
    assert!(book.bids().is_empty());
    assert!(book.asks().is_empty());
    assert_eq!(book.last_time(), 0);
    assert_eq!(PULL_DEPTH, 10);
}

#[test]
fn refresh_keeps_one_record_per_price() {
    let mut book = two_venue_book();
    let first: TopOfBook = (
        vec![bid(ExchangeType::Binance, 100, 1), bid(ExchangeType::Binance, 100, 2)],
        vec![],
        11,
    );
    let second: TopOfBook = (vec![bid(ExchangeType::Deribit, 105, 3)], vec![], 12);
    let outcome = book.update_state(&vec![Ok(first), Ok(second)]);
    assert!(outcome.is_ok());
    assert_eq!(book.bids().len(), 2);
    assert_eq!(bid_pairs(&book), vec![(105, 3), (100, 1)]);
    assert_eq!(book.bids()[0].exchange(), ExchangeType::Deribit);
    assert_eq!(book.bids()[1].exchange(), ExchangeType::Binance);
    assert_eq!(book.last_time(), 12);
}

#[test]
fn imbalance_is_the_quotient_of_the_price_sums() {
    let mut book = two_venue_book();
    let top: TopOfBook = (
        vec![bid(ExchangeType::Binance, 10, 1), bid(ExchangeType::Binance, 20, 1)],
        vec![ask(ExchangeType::Binance, 15, 1), ask(ExchangeType::Binance, 25, 1)],
        1,
    );
    assert!(book.update_state(&vec![Ok(top)]).is_ok());
    let sums = book.imbalance();
    assert_eq!(sums.bid_total, 30 * SCALE as u128);
    assert_eq!(sums.ask_total, 40 * SCALE as u128);
    assert_eq!(sums.bid_total as f64 / sums.ask_total as f64, 0.75);
}

#[test]
fn failed_venue_fails_the_refresh_and_empties_the_book() {
    let mut book = two_venue_book();
    let good: TopOfBook = (
        vec![bid(ExchangeType::Binance, 10, 1)],
        vec![ask(ExchangeType::Binance, 15, 1)],
        77,
    );
    assert!(book.update_state(&vec![Ok(good.clone())]).is_ok());
    assert_eq!(book.bids().len(), 1);

    let r = book.update_state(&vec![Ok(good.clone()), Err(ConnectorError::CorrelationTimeout)]);
    assert!(matches!(r, Err(ConnectorError::CorrelationTimeout)));
    assert!(book.bids().is_empty());
    assert!(book.asks().is_empty());

    let r = book.update_state(&vec![
        Err(ConnectorError::Transport("gone".to_string())),
        Ok(good),
    ]);
    match r {
        Err(ConnectorError::Transport(detail)) => assert_eq!(detail, "gone"),
        _ => panic!("the first failure is returned"),
    }
    assert!(book.bids().is_empty());
    assert!(book.asks().is_empty());
}

#[test]
fn failed_refresh_leaves_the_time_as_it_was() {
    let mut book = two_venue_book();
    let first: TopOfBook = (vec![bid(ExchangeType::Binance, 10, 1)], vec![], 77);
    let later: TopOfBook = (vec![bid(ExchangeType::Binance, 11, 1)], vec![], 99);
    assert!(book.update_state(&vec![Ok(first)]).is_ok());
    assert_eq!(book.last_time(), 77);

    let r = book.update_state(&vec![Ok(later.clone()), Err(ConnectorError::CorrelationTimeout)]);
    assert!(r.is_err());
    assert_eq!(book.last_time(), 77);
    assert!(book.bids().is_empty());

    let r = book.update_state(&vec![Err(ConnectorError::CorrelationTimeout), Ok(later.clone())]);
    assert!(r.is_err());
    assert_eq!(book.last_time(), 77);

    assert!(book.update_state(&vec![Ok(later)]).is_ok());
    assert_eq!(book.last_time(), 99);

    let mut fresh = two_venue_book();
    let only: TopOfBook = (vec![], vec![], 5);
    assert!(fresh.update_state(&vec![Ok(only), Err(ConnectorError::CorrelationTimeout)]).is_err());
    assert_eq!(fresh.last_time(), 0);
}

#[test]
fn refresh_asks_the_venues_in_their_order() {
    let book = two_venue_book();
    assert_eq!(book.next_pull(0), Some((ExchangeType::Binance, 10, Instrument::BtcUsdt)));
    assert_eq!(book.next_pull(1), Some((ExchangeType::Deribit, 10, Instrument::BtcUsdt)));
    assert_eq!(book.next_pull(2), None);
    assert_eq!(book.next_pull(usize::MAX), None);
    let alone = AggregatedOrderBook::new(Instrument::EthUsdc, &vec![]);
    assert_eq!(alone.next_pull(0), None);
}

#[test]
fn refresh_replaces_the_earlier_snapshot() {
    let mut book = two_venue_book();
    let old: TopOfBook = (vec![bid(ExchangeType::Binance, 10, 1)], vec![], 1);
    let new: TopOfBook = (vec![bid(ExchangeType::Binance, 11, 1)], vec![], 2);
    assert!(book.update_state(&vec![Ok(old)]).is_ok());
    assert!(book.update_state(&vec![Ok(new)]).is_ok());
    assert_eq!(bid_pairs(&book), vec![(11, 1)]);
    assert!(book.update_state(&vec![]).is_ok());
    assert!(book.bids().is_empty());
    assert_eq!(book.last_time(), 2);
}

#[test]
fn refresh_in_turns_is_the_same_as_in_one_go() {
    let mut book = two_venue_book();
    let first: TopOfBook = (vec![bid(ExchangeType::Binance, 10, 1)], vec![], 5);
    let second: TopOfBook = (vec![bid(ExchangeType::Deribit, 12, 1)], vec![], 6);
    book.begin_update();
    assert!(book.merge_venue(Ok(first)).is_ok());
    assert!(book.merge_venue(Ok(second)).is_ok());
    assert_eq!(bid_pairs(&book), vec![(12, 1), (10, 1)]);
    assert_eq!(book.last_time(), 6);
    let r = book.merge_venue(Err(ConnectorError::CorrelationTimeout));
    assert!(matches!(r, Err(ConnectorError::CorrelationTimeout)));
    assert!(book.bids().is_empty());
    assert_eq!(book.last_time(), 0);
}

#[test]
fn bids_rank_downwards_and_asks_upwards() {
    let mut book = two_venue_book();
    let top: TopOfBook = (
        vec![
            bid(ExchangeType::Binance, 10, 1),
            bid(ExchangeType::Binance, 30, 2),
            bid(ExchangeType::Binance, 20, 3),
        ],
        vec![
            ask(ExchangeType::Binance, 40, 1),
            ask(ExchangeType::Binance, 35, 2),
            ask(ExchangeType::Binance, 50, 3),
        ],
        1,
    );
    assert!(book.update_state(&vec![Ok(top)]).is_ok());
    assert_eq!(bid_pairs(&book), vec![(30, 2), (20, 3), (10, 1)]);
    assert_eq!(ask_pairs(&book), vec![(35, 2), (40, 1), (50, 3)]);
}

#[test]
fn snapshot_pairs_the_sides_and_pads_the_shorter() {
    let mut book = two_venue_book();
    let top: TopOfBook = (
        vec![bid(ExchangeType::Binance, 10, 1), bid(ExchangeType::Binance, 9, 1)],
        vec![ask(ExchangeType::Binance, 11, 1)],
        1,
    );
    assert!(book.update_state(&vec![Ok(top)]).is_ok());
    let rows = book.best_levels_snapshot();
    assert_eq!(rows.len(), 2);
    assert_eq!(rows[0].0.map(|b| b.price()), Some(10 * SCALE));
    assert_eq!(rows[0].1.map(|a| a.price()), Some(11 * SCALE));
    assert_eq!(rows[1].0.map(|b| b.price()), Some(9 * SCALE));
    assert!(rows[1].1.is_none());
    let empty = two_venue_book();
    assert!(empty.best_levels_snapshot().is_empty());
}

#[test]
fn place_says_whether_the_record_was_put() {
    let mut side: Vec<Ask> = Vec::new();
    assert!(place(&mut side, ask(ExchangeType::Binance, 5, 1), false));
    assert!(place(&mut side, ask(ExchangeType::Binance, 3, 1), false));
    assert!(!place(&mut side, ask(ExchangeType::Deribit, 5, 9), false));
    assert_eq!(side.len(), 2);
    assert_eq!(side[0].price(), 3 * SCALE);
    assert_eq!(side[1].quantity(), SCALE);
    let mut bids: Vec<Bid> = Vec::new();
    merge(
        &mut bids,
        &vec![bid(ExchangeType::Binance, 1, 1), bid(ExchangeType::Binance, 2, 1)],
        true,
    );
    assert_eq!(bids[0].price(), 2 * SCALE);
}

#[test]
fn order_records_are_equal_when_their_prices_are() {
    let a = bid(ExchangeType::Binance, 100, 1);
    let b = bid(ExchangeType::Deribit, 100, 2);
    let c = bid(ExchangeType::Binance, 101, 1);
    assert!(a == b);
    assert!(a != c);
    assert_eq!(a.partial_cmp(&b), Some(Ordering::Equal));
    assert_eq!(c.partial_cmp(&a), Some(Ordering::Less));
    assert_eq!(a.partial_cmp(&c), Some(Ordering::Greater));
    assert!(c < a);
    assert_eq!(a.cmp(&b), Ordering::Less);
    assert_eq!(b.cmp(&a), Ordering::Greater);
    assert_eq!(c.cmp(&a), Ordering::Less);
    assert_eq!(a.cmp(&a), Ordering::Equal);

    let x = ask(ExchangeType::Binance, 100, 1);
    let y = ask(ExchangeType::Deribit, 100, 2);
    let z = ask(ExchangeType::Binance, 101, 1);
    assert!(x == y);
    assert_eq!(x.partial_cmp(&z), Some(Ordering::Less));
    assert_eq!(z.partial_cmp(&x), Some(Ordering::Greater));
    assert_eq!(x.cmp(&y), Ordering::Less);
    assert_eq!(z.cmp(&x), Ordering::Greater);
}

#[test]
fn order_records_give_back_what_they_were_made_of() {
    let b = Bid::new(Instrument::EthUsdc, ExchangeType::Deribit, 7, 9);
    assert_eq!(b.quantity(), 7);
    assert_eq!(b.price(), 9);
    assert_eq!(b.instrument(), Instrument::EthUsdc);
    assert_eq!(b.exchange(), ExchangeType::Deribit);
    let a = Ask::new(Instrument::BtcUsdt, ExchangeType::Binance, 1, 2);
    assert_eq!(a.quantity(), 1);
    assert_eq!(a.price(), 2);
    assert_eq!(a.instrument(), Instrument::BtcUsdt);
    assert_eq!(a.exchange(), ExchangeType::Binance);
}

#[test]
fn instruments_are_shown_by_name() {
    assert_eq!(Instrument::BtcUsdt.to_string(), "BTC_USDT");
    assert_eq!(Instrument::EthUsdc.to_string(), "ETH_USDC");
}

#[test]
fn registry_hands_out_growing_handles() {
    let mut books: Multibook<AggregatedOrderBook> = Multibook::new();
    let first = Arc::new(two_venue_book());
    let second = Arc::new(AggregatedOrderBook::new(Instrument::EthUsdc, &vec![]));
    assert_eq!(books.curr_id(), 1000);
    assert!(books.get(1001).is_none());
    assert_eq!(books.insert(&first), 1001);
    assert_eq!(books.insert(&second), 1002);
    assert_eq!(books.curr_id(), 1002);
    assert!(Arc::ptr_eq(books.get(1001).unwrap(), &first));
    assert_eq!(books.get(1002).unwrap().instrument(), Instrument::EthUsdc);
    assert!(books.get(1000).is_none());
    assert!(books.get(1003).is_none());
    assert_eq!(books.subscribed.len(), 2);
    assert_eq!(books.subscribed[&1002].instrument(), Instrument::EthUsdc);
    assert!(Arc::ptr_eq(&books.subscribed[&1001], &first));
}
