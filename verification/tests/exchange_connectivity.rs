use market_aggregator::book_management::traded_instruments::Instrument;
use market_aggregator::book_management::{Ask, Bid, Order, SCALE};
use market_aggregator::exchange_connectivity::binance::{self, Binance, Dispatch};
use market_aggregator::exchange_connectivity::decimal::{parse_decimal, parse_unsigned};
use market_aggregator::exchange_connectivity::deribit::book::ValidOrderDepth;
use market_aggregator::exchange_connectivity::deribit::{self, Deribit, Frame};
use market_aggregator::exchange_connectivity::json::Cell;
use market_aggregator::exchange_connectivity::pending::PendingResponses;
use market_aggregator::exchange_connectivity::{
    advance_id, assemble, convert_rows, decide_turn, open_ticket, read_amount,
    ConnectedExchangeForBook, ConnectorError, Exchange, ExchangeKeys, ExchangeType, Inbound,
    PullStep, PullTicket, SessionTurn, FIRST_ID, ID_CEILING, POLL_ATTEMPTS, POLL_INTERVAL_MS,
};

fn object(members: Vec<(&str, serde_json::Value)>) -> serde_json::Value {
    let mut map = serde_json::Map::new();
    for (name, value) in members {
        map.insert(name.to_string(), value);
    }
    serde_json::Value::Object(map)
}

fn text(s: &str) -> serde_json::Value {
    serde_json::Value::from(s)
}

const BINANCE_DEPTH: &str = r#"{"id":"10001","status":200,"result":{"lastUpdateId":1,
    "bids":[["100.50000000","1.00000000"],["100.25","2"],["bad","1"],["1","2","3"],7],
    "asks":[["101.00000000","0.50000000"]]}}"#;

const DERIBIT_DEPTH: &str = r#"{"jsonrpc":"2.0","id":10001,"result":{"timestamp":1700000000123,
    "bids":[[50000.5,10],[49999,0.25],["50000","1"]],
    "asks":[[50001,3.0]]}}"#;

#[test]
fn decimals_are_read_in_units() {
    assert_eq!(parse_decimal("12.5"), Some(12 * SCALE + SCALE / 2));
    assert_eq!(parse_decimal("0.01379900"), Some(1_379_900));
    assert_eq!(parse_decimal("5"), Some(5 * SCALE));
    assert_eq!(parse_decimal("0"), Some(0));
    assert_eq!(parse_decimal("007.10"), Some(7 * SCALE + SCALE / 10));
    assert_eq!(parse_decimal("1.000000019"), Some(SCALE + 1));
    assert_eq!(parse_decimal("0.123456789123"), Some(12_345_678));
    assert_eq!(parse_decimal("184467440737.09551615"), Some(u64::MAX));
    assert_eq!(SCALE, 100_000_000);
}

#[test]
fn decimals_with_exponents_are_read() {
    assert_eq!(parse_decimal("1e5"), Some(100_000 * SCALE));
    assert_eq!(parse_decimal("1E3"), Some(1_000 * SCALE));
    assert_eq!(parse_decimal("1.25e1"), Some(12 * SCALE + SCALE / 2));
    assert_eq!(parse_decimal("1.25e+1"), Some(12 * SCALE + SCALE / 2));
    assert_eq!(parse_decimal("1e-6"), Some(100));
    assert_eq!(parse_decimal("1e-8"), Some(1));
    assert_eq!(parse_decimal("1e-9"), Some(0));
    assert_eq!(parse_decimal("19e-9"), Some(1));
    assert_eq!(parse_decimal("1.2345678901234567e+2"), Some(12_345_678_901));
    assert_eq!(parse_decimal("0e999"), Some(0));
    assert_eq!(parse_decimal("0.000e-999"), Some(0));
    assert_eq!(parse_decimal("1e-999"), Some(0));
    assert_eq!(parse_decimal("1e011"), Some(100_000_000_000 * SCALE));
    assert_eq!(parse_decimal("123456789012345678901234567890e-25"), Some(1_234_567_890_123));
    assert_eq!(parse_decimal("18446744073709551615e-8"), Some(u64::MAX));
    assert_eq!(parse_decimal("18446744073709551616e-8"), None);
    assert_eq!(parse_decimal("1e+16"), None);
    assert_eq!(parse_decimal("1e999"), None);
    for bad in ["1e", "1e+", "1e-", "e5", "1e1000", "1.e5", "1e5.0", "1e 5", "1ee5", "1e+-5", "1x5"] {
        assert_eq!(parse_decimal(bad), None, "{:?}", bad);
    }
}

#[test]
fn numbers_are_read_as_the_json_reader_writes_them() {
    let doc: serde_json::Value =
        serde_json::from_str("[0.5, 0.00001, 0.000001, 1e-7, 50000.5, 1E3, 12, 1.0]").unwrap();
    let read: Vec<Option<u64>> = doc
        .as_array()
        .unwrap()
        .iter()
        .map(|v| parse_decimal(&v.as_number().unwrap().to_string()))
        .collect();
    assert_eq!(
        read,
        vec![
            Some(SCALE / 2),
            Some(1_000),
            Some(100),
            Some(10),
            Some(50_000 * SCALE + SCALE / 2),
            Some(1_000 * SCALE),
            Some(12 * SCALE),
            Some(SCALE),
        ]
    );
}

#[test]
fn what_is_no_decimal_is_refused() {
    for bad in ["", ".", ".5", "5.", "-1", "+1", "1.2.3", "1,5", " 1", "1 ", "NaN", "inf", "٣"] {
        assert_eq!(parse_decimal(bad), None, "{:?}", bad);
    }
    assert_eq!(parse_decimal("184467440737.09551616"), None);
    assert_eq!(parse_decimal("184467440738"), None);
    assert_eq!(parse_decimal("99999999999999999999999999"), None);
}

#[test]
fn unsigned_integers_are_read() {
    assert_eq!(parse_unsigned("123"), Some(123));
    assert_eq!(parse_unsigned("+5"), Some(5));
    assert_eq!(parse_unsigned("0010"), Some(10));
    assert_eq!(parse_unsigned("18446744073709551615"), Some(u64::MAX));
    for bad in ["", "+", "-1", "1.0", "12a", "18446744073709551616", "++1", " 1"] {
        assert_eq!(parse_unsigned(bad), None, "{:?}", bad);
        assert_eq!(bad.parse::<u64>().ok(), None, "{:?}", bad);
    }
    for good in ["123", "+5", "0010", "18446744073709551615"] {
        assert_eq!(parse_unsigned(good), good.parse::<u64>().ok());
    }
}

#[test]
fn correlation_ids_count_up_and_start_over() {
    let mut counter = FIRST_ID;
    assert_eq!(advance_id(&mut counter), 10_001);
    assert_eq!(counter, 10_001);
    let mut at_ceiling = ID_CEILING;
    assert_eq!(advance_id(&mut at_ceiling), 1_000_001);
    assert_eq!(advance_id(&mut at_ceiling), 10_000);
    let mut far = u64::MAX;
    assert_eq!(advance_id(&mut far), 10_000);
}

#[test]
fn pending_table_keeps_every_response_of_an_id() {
    let mut table = PendingResponses::new();
    assert_eq!(table.get(1), None);
    table.insert(1, "a".to_string());
    table.insert(1, "b".to_string());
    table.insert(2, "c".to_string());
    assert_eq!(table.get(1), Some(&"a".to_string()));
    assert_eq!(table.get(2), Some(&"c".to_string()));
    assert_eq!(table.remove(1), Some(vec!["a".to_string(), "b".to_string()]));
    assert_eq!(table.remove(1), None);
    assert_eq!(table.get(1), None);
    assert_eq!(table.get(2), Some(&"c".to_string()));
}

#[test]
fn binance_answers_a_ping_with_a_pong() {
    let mut binance = Binance::connect();
    let ping = object(vec![("id", text("922bcc6e")), ("method", text("ping"))]).to_string();
    let reply = binance.handle_text_message(&ping).unwrap();
    let expected = object(vec![("id", text("922bcc6e")), ("method", text("pong"))]).to_string();
    assert_eq!(reply, Some(expected));
    assert_eq!(Binance::ws_pong("7"), r#"{"id":"7","method":"pong"}"#);
    assert_eq!(Binance::ws_request_time(), r#"{"id":"1000","method":"ping"}"#);
}

#[test]
fn binance_classifies_frames() {
    let ping = Some("ping".to_string());
    assert!(matches!(binance::classify(&ping, &Some("x".to_string())), Dispatch::Pong(id) if id == "x"));
    assert!(matches!(binance::classify(&ping, &None), Dispatch::Discard));
    assert!(matches!(binance::classify(&None, &Some("42".to_string())), Dispatch::Store(42)));
    assert!(matches!(
        binance::classify(&Some("depth".to_string()), &Some("+42".to_string())),
        Dispatch::Store(42)
    ));
    assert!(matches!(binance::classify(&None, &Some("4x".to_string())), Dispatch::Discard));
    assert!(matches!(binance::classify(&None, &None), Dispatch::Discard));
}

#[test]
fn binance_refuses_what_is_no_json() {
    let mut binance = Binance::connect();
    match binance.handle_text_message("{not json") {
        Err(ConnectorError::ProtocolDecode(detail)) => {
            assert!(detail.starts_with("Failed to parse message: "));
            assert!(detail.len() > "Failed to parse message: ".len());
        }
        _ => panic!("a frame that is no JSON is a decode error"),
    }
    assert!(matches!(binance.handle_text_message(r#"{"id":5}"#), Ok(None)));
    assert!(matches!(binance.handle_text_message(r#"[1,2]"#), Ok(None)));
}

#[test]
fn binance_request_names_symbol_and_limit() {
    let request = Binance::request_get_order_book(10_001, "BTCUSDT", 10);
    let expected = object(vec![
        ("id", text("10001")),
        ("method", text("depth")),
        (
            "params",
            object(vec![("symbol", text("BTCUSDT")), ("limit", serde_json::Value::from(10u32))]),
        ),
    ])
    .to_string();
    assert_eq!(request, expected);
    assert_eq!(
        request,
        r#"{"id":"10001","method":"depth","params":{"limit":10,"symbol":"BTCUSDT"}}"#
    );
    assert_eq!(Binance::to_instrument_name(Instrument::BtcUsdt), "BTCUSDT");
    assert_eq!(Binance::to_instrument_name(Instrument::EthUsdc), "ETHUSDC");
    assert_eq!(Binance::endpoint(false), "wss://ws-api.binance.com:9443/ws-api/v3");
    assert_eq!(Binance::endpoint(true), "wss://testnet.binance.vision/ws-api/v3");
}

#[test]
fn binance_pull_clamps_the_depth() {
    let mut binance = Binance::connect();
    let (ticket, request) = binance.begin_pull(9000, Instrument::EthUsdc);
    assert_eq!(
        ticket,
        PullTicket { id: 10_001, instrument: Instrument::EthUsdc, attempts_left: 5 }
    );
    assert_eq!(
        request,
        r#"{"id":"10001","method":"depth","params":{"limit":5000,"symbol":"ETHUSDC"}}"#
    );
    let (next, request) = binance.begin_pull(7, Instrument::BtcUsdt);
    assert_eq!(next.id, 10_002);
    assert_eq!(request, Binance::request_get_order_book(10_002, "BTCUSDT", 7));
}

#[test]
fn binance_pull_returns_the_stored_response() {
    let mut binance = Binance::connect();
    let (ticket, _) = binance.begin_pull(10, Instrument::BtcUsdt);
    assert!(matches!(binance.handle_text_message(BINANCE_DEPTH), Ok(None)));
    match binance.pull_bids_asks(ticket, Some(1234)) {
        PullStep::Done(Ok((bids, asks, time))) => {
            assert_eq!(time, 1234);
            assert_eq!(bids.len(), 2);
            assert_eq!(bids[0].price(), 100 * SCALE + SCALE / 2);
            assert_eq!(bids[0].quantity(), SCALE);
            assert_eq!(bids[0].exchange(), ExchangeType::Binance);
            assert_eq!(bids[0].instrument(), Instrument::BtcUsdt);
            assert_eq!(bids[1].price(), 100 * SCALE + SCALE / 4);
            assert_eq!(bids[1].quantity(), 2 * SCALE);
            assert_eq!(asks.len(), 1);
            assert_eq!(asks[0].price(), 101 * SCALE);
            assert_eq!(asks[0].quantity(), SCALE / 2);
        }
        _ => panic!("the response is there and complete"),
    }
    assert!(matches!(binance.pull_bids_asks(ticket, Some(1235)), PullStep::Wait(_, 100)));
}

#[test]
fn binance_pull_waits_without_a_clock() {
    let mut binance = Binance::connect();
    let (ticket, _) = binance.begin_pull(10, Instrument::BtcUsdt);
    assert!(matches!(binance.handle_text_message(BINANCE_DEPTH), Ok(None)));
    match binance.pull_bids_asks(ticket, None) {
        PullStep::Wait(next, millis) => {
            assert_eq!(next, PullTicket { attempts_left: 4, ..ticket });
            assert_eq!(millis, POLL_INTERVAL_MS);
        }
        _ => panic!("without the time the response is not complete"),
    }
    assert!(matches!(binance.pull_bids_asks(ticket, Some(1)), PullStep::Done(Ok(_))));
}

#[test]
fn unanswered_pull_times_out_after_five_waits() {
    let mut binance = Binance::connect();
    let (mut ticket, _) = binance.begin_pull(10, Instrument::BtcUsdt);
    assert_eq!(ticket.attempts_left, POLL_ATTEMPTS);
    let mut waited = 0;
    let mut looks = 0;
    loop {
        match binance.pull_bids_asks(ticket, Some(1)) {
            PullStep::Wait(next, millis) => {
                waited += millis;
                looks += 1;
                ticket = next;
            }
            PullStep::Done(Err(ConnectorError::CorrelationTimeout)) => break,
            PullStep::Done(_) => panic!("nothing arrived"),
        }
    }
    assert_eq!(looks, 5);
    assert_eq!(waited, 500);
    let late = BINANCE_DEPTH;
    assert!(matches!(binance.handle_text_message(late), Ok(None)));
    assert!(matches!(
        binance.pull_bids_asks(ticket, Some(1)),
        PullStep::Done(Err(ConnectorError::CorrelationTimeout))
    ));
}

#[test]
fn pull_fails_on_a_response_that_is_no_json() {
    let mut table = PendingResponses::new();
    table.insert(5, "not json".to_string());
    let ticket = open_ticket(5, Instrument::BtcUsdt);
    let step = market_aggregator::exchange_connectivity::poll_table(
        &mut table,
        ExchangeType::Binance,
        ticket,
        Some(1),
    );
    assert!(matches!(step, PullStep::Done(Err(ConnectorError::ProtocolDecode(_)))));
    assert_eq!(table.get(5), Some(&"not json".to_string()));
}

#[test]
fn pull_leaves_an_incomplete_response_in_the_table() {
    let mut table = PendingResponses::new();
    table.insert(5, r#"{"id":"5","result":{"bids":[]}}"#.to_string());
    let ticket = open_ticket(5, Instrument::BtcUsdt);
    let step = market_aggregator::exchange_connectivity::poll_table(
        &mut table,
        ExchangeType::Binance,
        ticket,
        Some(1),
    );
    assert!(matches!(step, PullStep::Wait(next, 100) if next.attempts_left == 4));
    assert!(table.get(5).is_some());
}

#[test]
fn rows_become_order_records() {
    let rows = vec![
        Some(vec![Cell::Text("1.5".to_string()), Cell::Text("2".to_string())]),
        None,
        Some(vec![Cell::Number("1.5".to_string()), Cell::Text("2".to_string())]),
        Some(vec![Cell::Text("3".to_string())]),
        Some(vec![Cell::Text("4".to_string()), Cell::Other]),
        Some(vec![Cell::Text("5".to_string()), Cell::Text("6".to_string())]),
    ];
    let asks: Vec<Ask> = convert_rows(ExchangeType::Binance, &rows, Instrument::EthUsdc, false);
    assert_eq!(asks.len(), 2);
    assert_eq!(asks[0].price(), SCALE + SCALE / 2);
    assert_eq!(asks[0].quantity(), 2 * SCALE);
    assert_eq!(asks[1].price(), 5 * SCALE);
    assert_eq!(asks[1].instrument(), Instrument::EthUsdc);
    let none: Vec<Bid> = convert_rows(ExchangeType::Deribit, &rows, Instrument::EthUsdc, true);
    assert!(none.is_empty());
    let same: Vec<Ask> =
        Binance::convert_vec_values_to_orders(ExchangeType::Binance, &rows, Instrument::EthUsdc);
    assert_eq!(same.len(), 2);
    let numbers = vec![Some(vec![Cell::Number("7".to_string()), Cell::Number("0.5".to_string())])];
    let bids: Vec<Bid> =
        Deribit::convert_vec_values_to_orders(ExchangeType::Deribit, &numbers, Instrument::BtcUsdt);
    assert_eq!(bids.len(), 1);
    assert_eq!(bids[0].price(), 7 * SCALE);
    assert_eq!(bids[0].exchange(), ExchangeType::Deribit);
    assert_eq!(read_amount(&Cell::Text("2".to_string()), false), Some(2 * SCALE));
    assert_eq!(read_amount(&Cell::Text("2".to_string()), true), None);
    assert_eq!(read_amount(&Cell::Other, true), None);
}

#[test]
fn a_response_needs_time_bids_and_asks() {
    let rows = Some(vec![Some(vec![Cell::Number("7".to_string()), Cell::Number("1".to_string())])]);
    let none = None;
    assert!(assemble(ExchangeType::Deribit, Instrument::BtcUsdt, None, &rows, &rows).is_none());
    assert!(assemble(ExchangeType::Deribit, Instrument::BtcUsdt, Some(1), &none, &rows).is_none());
    assert!(assemble(ExchangeType::Deribit, Instrument::BtcUsdt, Some(1), &rows, &none).is_none());
    let (bids, asks, time) =
        assemble(ExchangeType::Deribit, Instrument::BtcUsdt, Some(9), &rows, &rows).unwrap();
    assert_eq!((bids.len(), asks.len(), time), (1, 1, 9));
    let (bids, _, _) =
        assemble(ExchangeType::Binance, Instrument::BtcUsdt, Some(9), &rows, &rows).unwrap();
    assert!(bids.is_empty());
}

#[test]
fn session_loop_ends_on_a_cleared_flag_or_a_lost_connection() {
    assert!(matches!(decide_turn(false, Ok(None)), SessionTurn::Stop));
    assert!(matches!(decide_turn(true, Ok(None)), SessionTurn::Idle));
    assert!(matches!(decide_turn(true, Ok(Some("x".to_string()))), SessionTurn::Reply(t) if t == "x"));
    assert!(matches!(
        decide_turn(true, Err(ConnectorError::ProtocolDecode("d".to_string()))),
        SessionTurn::Skipped(ConnectorError::ProtocolDecode(_))
    ));
    assert!(matches!(
        decide_turn(true, Err(ConnectorError::Transport("t".to_string()))),
        SessionTurn::Lost(ConnectorError::Transport(_))
    ));

    let mut binance = Binance::connect();
    assert!(matches!(binance.ws_manager(false, Inbound::Text("{}".to_string())), SessionTurn::Stop));
    assert!(matches!(binance.ws_manager(true, Inbound::NonText), SessionTurn::Idle));
    assert!(matches!(binance.ws_manager(true, Inbound::Closed), SessionTurn::Idle));
    assert!(matches!(
        binance.ws_manager(true, Inbound::Text("nonsense".to_string())),
        SessionTurn::Skipped(_)
    ));
    match binance.ws_manager(true, Inbound::ReadError("reset".to_string())) {
        SessionTurn::Lost(ConnectorError::Transport(detail)) => {
            assert_eq!(detail, "Error reading WebSocket stream: reset")
        }
        _ => panic!("a failed read loses the connection"),
    }
    let ping = r#"{"id":"ab","method":"ping"}"#.to_string();
    assert!(matches!(
        binance.ws_manager(true, Inbound::Text(ping)),
        SessionTurn::Reply(t) if t == r#"{"id":"ab","method":"pong"}"#
    ));
}

#[test]
fn deribit_messages_have_the_venue_envelope() {
    let deribit = Deribit::connect("me".to_string(), "wordless".to_string());
    assert_eq!(
        deribit.ws_auth(),
        object(vec![
            ("jsonrpc", text("2.0")),
            ("id", serde_json::Value::from(9929u64)),
            ("method", text("public/auth")),
            (
                "params",
                object(vec![
                    ("grant_type", text("client_credentials")),
                    ("client_id", text("me")),
                    ("client_secret", text("wordless")),
                ]),
            ),
        ])
        .to_string()
    );
    assert_eq!(
        Deribit::establish_heartbeat(),
        r#"{"id":9098,"jsonrpc":"2.0","method":"public/set_heartbeat","params":{"interval":30}}"#
    );
    assert_eq!(
        Deribit::heartbeat_response(),
        r#"{"id":8212,"jsonrpc":"2.0","method":"public/test","params":{}}"#
    );
    assert_eq!(
        deribit::rpc(1, "m", vec![]),
        r#"{"id":1,"jsonrpc":"2.0","method":"m","params":{}}"#
    );
    let first = deribit.initialize_ws();
    assert_eq!(first, vec![deribit.ws_auth(), Deribit::establish_heartbeat()]);
    assert_eq!(Deribit::endpoint(false), "wss://www.deribit.com/ws/api/v2");
    assert_eq!(Deribit::endpoint(true), "wss://test.deribit.com/ws/api/v2");
    assert_eq!(deribit::REFRESH_CHECK_INTERVAL_MS, 150_000);
}

#[test]
fn deribit_depth_snaps_to_a_tier() {
    let cases = [
        (0, 1),
        (1, 1),
        (4, 1),
        (5, 5),
        (9, 5),
        (10, 10),
        (19, 10),
        (20, 20),
        (50, 50),
        (99, 50),
        (100, 100),
        (999, 100),
        (1000, 1000),
        (9999, 1000),
        (10000, 10000),
        (u32::MAX, 10000),
    ];
    for (wanted, given) in cases {
        assert_eq!(ValidOrderDepth::from_number(wanted).value(), given);
    }
    assert_eq!(ValidOrderDepth::from_number(10), ValidOrderDepth::Ten);
    assert_eq!(
        Deribit::request_get_order_book(7, "BTC_USDT", ValidOrderDepth::Twenty),
        object(vec![
            ("jsonrpc", text("2.0")),
            ("id", serde_json::Value::from(7u64)),
            ("method", text("public/get_order_book")),
            (
                "params",
                object(vec![
                    ("instrument_name", text("BTC_USDT")),
                    ("depth", serde_json::Value::from(20u32)),
                ]),
            ),
        ])
        .to_string()
    );
    assert_eq!(Deribit::to_instrument_name(Instrument::BtcUsdt), "BTC_USDT");
    assert_eq!(Deribit::to_instrument_name(Instrument::EthUsdc), "ETH_USDC");
}

#[test]
fn deribit_classifies_frames() {
    let heartbeat = Some("heartbeat".to_string());
    assert!(matches!(deribit::classify(Some(9929), &heartbeat), Frame::Auth));
    assert!(matches!(deribit::classify(Some(8212), &heartbeat), Frame::Heartbeat));
    assert!(matches!(deribit::classify(None, &heartbeat), Frame::Heartbeat));
    assert!(matches!(deribit::classify(Some(8212), &None), Frame::HeartbeatAck));
    assert!(matches!(deribit::classify(Some(17), &Some("x".to_string())), Frame::Response(17)));
    assert!(matches!(deribit::classify(None, &None), Frame::Unknown));
}

#[test]
fn deribit_keeps_the_refresh_token_and_renews_in_time() {
    let mut deribit = Deribit::connect("me".to_string(), "wordless".to_string());
    assert_eq!(deribit.ws_refresh_auth(Some(10)), None);
    let answer = r#"{"jsonrpc":"2.0","id":9929,"result":{"refresh_token":"tok","expires_in":900}}"#;
    assert!(matches!(deribit.handle_text_message(answer, Some(1_000_000)), Ok(None)));
    let due_from = 1_000_000 + (900 - 240) * 1000;
    assert_eq!(deribit.ws_refresh_auth(Some(due_from)), None);
    assert_eq!(deribit.ws_refresh_auth(None), None);
    assert_eq!(
        deribit.ws_refresh_auth(Some(due_from + 1)),
        Some(
            object(vec![
                ("jsonrpc", text("2.0")),
                ("id", serde_json::Value::from(9929u64)),
                ("method", text("public/auth")),
                (
                    "params",
                    object(vec![("grant_type", text("refresh_token")), ("refresh_token", text("tok"))]),
                ),
            ])
            .to_string()
        )
    );
}

#[test]
fn deribit_takes_the_default_validity_where_none_is_given() {
    let mut deribit = Deribit::connect("me".to_string(), "wordless".to_string());
    assert!(deribit.update_auth_tokens(Some("tok".to_string()), None, Some(5)).is_ok());
    let due_from = 5 + (540 - 240) * 1000;
    assert_eq!(deribit.ws_refresh_auth(Some(due_from)), None);
    assert!(deribit.ws_refresh_auth(Some(due_from + 1)).is_some());
    assert_eq!(deribit::usable_window(None), Some(300_000));
    assert_eq!(deribit::usable_window(Some(240)), Some(0));
    assert_eq!(deribit::usable_window(Some(239)), None);
    assert_eq!(deribit::usable_window(Some(u64::MAX)), None);
}

#[test]
fn deribit_refuses_an_authentication_it_cannot_use() {
    let mut deribit = Deribit::connect("me".to_string(), "wordless".to_string());
    let no_token = r#"{"jsonrpc":"2.0","id":9929,"result":{"expires_in":900}}"#;
    match deribit.handle_text_message(no_token, Some(1)) {
        Err(ConnectorError::ProtocolDecode(detail)) => assert_eq!(detail, "Missing refresh token"),
        _ => panic!("an answer without a token is a decode error"),
    }
    assert!(deribit.update_auth_tokens(Some("t".to_string()), Some(100), Some(1)).is_err());
    assert!(deribit.update_auth_tokens(Some("t".to_string()), Some(900), Some(u64::MAX)).is_err());
    assert_eq!(deribit.ws_refresh_auth(Some(u64::MAX)), None);

    match deribit.update_auth_tokens(Some("t".to_string()), Some(900), None) {
        Err(ConnectorError::ProtocolDecode(detail)) => {
            assert_eq!(detail, "Failed to get system time")
        }
        _ => panic!("without the time the renewal cannot be worked out"),
    }
    assert_eq!(deribit.ws_refresh_auth(Some(u64::MAX)), None);
    assert!(deribit.update_auth_tokens(Some("u".to_string()), Some(240), Some(7)).is_ok());
    assert!(deribit.ws_refresh_auth(Some(8)).unwrap().contains(r#""refresh_token":"u""#));
}

#[test]
fn deribit_answers_heartbeats() {
    let mut deribit = Deribit::connect("me".to_string(), "wordless".to_string());
    let beat = r#"{"jsonrpc":"2.0","method":"heartbeat","params":{"type":"test_request"}}"#;
    assert_eq!(
        deribit.handle_text_message(beat, Some(1)).unwrap(),
        Some(Deribit::heartbeat_response())
    );
    let ack = r#"{"jsonrpc":"2.0","id":8212,"result":{"version":"1.2.26"}}"#;
    assert_eq!(deribit.handle_text_message(ack, Some(1)).unwrap(), None);
    assert!(matches!(
        deribit.handle_text_message("][", Some(1)),
        Err(ConnectorError::ProtocolDecode(_))
    ));
    assert!(matches!(
        deribit.ws_manager(true, Inbound::Text(beat.to_string()), Some(1)),
        SessionTurn::Reply(_)
    ));
    assert!(matches!(deribit.ws_manager(false, Inbound::Closed, None), SessionTurn::Stop));
    assert!(matches!(
        deribit.process_next_message(Inbound::ReadError("x".to_string()), None),
        Err(ConnectorError::Transport(_))
    ));
}

#[test]
fn deribit_pull_returns_the_stored_response() {
    let mut deribit = Deribit::connect("me".to_string(), "wordless".to_string());
    let (ticket, request) = deribit.begin_pull(12, Instrument::BtcUsdt);
    assert_eq!(ticket, PullTicket { id: 10_001, instrument: Instrument::BtcUsdt, attempts_left: 5 });
    assert_eq!(request, Deribit::request_get_order_book(10_001, "BTC_USDT", ValidOrderDepth::Ten));
    assert!(matches!(deribit.pull_bids_asks(ticket, Some(5)), PullStep::Wait(_, 100)));
    assert!(matches!(deribit.handle_text_message(DERIBIT_DEPTH, Some(5)), Ok(None)));
    match deribit.pull_bids_asks(ticket, None) {
        PullStep::Done(Ok((bids, asks, time))) => {
            assert_eq!(time, 1_700_000_000_123);
            assert_eq!(bids.len(), 2);
            assert_eq!(bids[0].price(), 50_000 * SCALE + SCALE / 2);
            assert_eq!(bids[0].quantity(), 10 * SCALE);
            assert_eq!(bids[0].exchange(), ExchangeType::Deribit);
            assert_eq!(bids[1].price(), 49_999 * SCALE);
            assert_eq!(bids[1].quantity(), SCALE / 4);
            assert_eq!(asks.len(), 1);
            assert_eq!(asks[0].price(), 50_001 * SCALE);
            assert_eq!(asks[0].quantity(), 3 * SCALE);
        }
        _ => panic!("the response is there and complete"),
    }
    assert!(matches!(deribit.pull_bids_asks(ticket, None), PullStep::Wait(_, 100)));
}

#[test]
fn deribit_pull_waits_for_a_response_with_a_time() {
    let mut deribit = Deribit::connect("me".to_string(), "wordless".to_string());
    let (ticket, _) = deribit.begin_pull(12, Instrument::BtcUsdt);
    let untimed = r#"{"jsonrpc":"2.0","id":10001,"result":{"bids":[],"asks":[]}}"#;
    assert!(matches!(deribit.handle_text_message(untimed, Some(5)), Ok(None)));
    assert!(matches!(deribit.pull_bids_asks(ticket, Some(5)), PullStep::Wait(_, 100)));
}

#[test]
fn connectors_are_made_for_their_venue() {
    let keys = ExchangeKeys {
        deribit_client_id: "me".to_string(),
        deribit_api_key: "wordless".to_string(),
    };
    let mut binance = Exchange::connect(ExchangeType::Binance, &keys);
    let mut deribit = Exchange::connect(ExchangeType::Deribit, &keys);
    assert_eq!(binance.exchange_type(), ExchangeType::Binance);
    assert_eq!(deribit.exchange_type(), ExchangeType::Deribit);
    let (ticket, request) = binance.begin_pull(10, Instrument::BtcUsdt);
    assert_eq!(request, Binance::request_get_order_book(10_001, "BTCUSDT", 10));
    assert!(matches!(binance.pull_bids_asks(ticket, Some(1)), PullStep::Wait(_, 100)));
    let (ticket, request) = deribit.begin_pull(10, Instrument::EthUsdc);
    assert_eq!(request, Deribit::request_get_order_book(10_001, "ETH_USDC", ValidOrderDepth::Ten));
    assert!(matches!(deribit.pull_bids_asks(ticket, Some(1)), PullStep::Wait(_, 100)));
    if let Exchange::Deribit(inner) = &deribit {
        assert!(inner.ws_auth().contains(r#""client_id":"me""#));
    } else {
        panic!("a connector for the venue that was asked for");
    }
}
