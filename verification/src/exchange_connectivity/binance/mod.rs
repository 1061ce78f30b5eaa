//! The connector of the venue that asks for no credentials.
//!
//! Its session has one duty besides storing responses: the venue sends pings,
//! and each is answered with a pong that repeats the ping's id.

pub mod book;

use crate::exchange_connectivity::decimal::{parse_unsigned, unsigned_of};
use crate::exchange_connectivity::json::{
    check_document, json_render, json_str, json_valid, members_view, render, str_at, Leaf,
    LeafView, Member, MemberView,
};
use crate::exchange_connectivity::pending::{stored, PendingResponses};
use crate::exchange_connectivity::{
    advance_id, decide_turn, next_id, parse_failure, read_failure, reports_parse_failure, turn_of, ConnectorError, Inbound,
    SessionTurn, FIRST_ID,
};
use vstd::prelude::*;
use vstd::string::StringExecFns;
use vstd::utf8::encode_utf8;

verus! {

/// Where the venue listens.
pub const BINANCE_WS_URL: &'static str = "wss://ws-api.binance.com:9443/ws-api/v3";

/// Where the venue's test system listens.
pub const BINANCE_WS_TEST_URL: &'static str = "wss://testnet.binance.vision/ws-api/v3";

/// What a frame asks of the session.
pub enum Dispatch {
    /// A ping of the venue: answer it under this id.
    Pong(String),
    /// A response: store it under this correlation id.
    Store(u64),
    /// Nothing that the session knows.
    Discard,
}

/// What a dispatch holds.
pub enum DispatchView {
    Pong(Seq<char>),
    Store(u64),
    Discard,
}

impl View for Dispatch {
    type V = DispatchView;

    open spec fn view(&self) -> DispatchView {
        match self {
            Dispatch::Pong(id) => DispatchView::Pong(id@),
            Dispatch::Store(id) => DispatchView::Store(*id),
            Dispatch::Discard => DispatchView::Discard,
        }
    }
}

/// What a frame with this method and this id asks of the session. A frame
/// with the method `ping` and a string for an id is a ping. Any other frame
/// whose id is a string that writes an unsigned integer is a response.
pub open spec fn dispatch_of(method: Option<Seq<char>>, id: Option<Seq<char>>) -> DispatchView {
    if method == Some("ping"@) && id is Some {
        DispatchView::Pong(id->Some_0)
    } else if id is Some && unsigned_of(encode_utf8(id->Some_0)) is Some {
        DispatchView::Store(unsigned_of(encode_utf8(id->Some_0))->Some_0)
    } else {
        DispatchView::Discard
    }
}

/// The pong that answers the ping with this id.
pub open spec fn pong_text(id: Seq<char>) -> Seq<char> {
    json_render(
        seq![
            ("id"@, MemberView::Leaf(LeafView::Text(id))),
            ("method"@, MemberView::Leaf(LeafView::Text("pong"@))),
        ],
    )
}

/// The ping with which the venue is asked for a sign of life.
pub open spec fn time_request_text() -> Seq<char> {
    json_render(
        seq![
            ("id"@, MemberView::Leaf(LeafView::Text("1000"@))),
            ("method"@, MemberView::Leaf(LeafView::Text("ping"@))),
        ],
    )
}

/// What handling a text frame gives, and what it makes of the table.
pub open spec fn handled(
    before: Map<u64, Seq<Seq<char>>>,
    text: Seq<char>,
    after: Map<u64, Seq<Seq<char>>>,
    r: Result<Option<String>, ConnectorError>,
) -> bool {
    if !json_valid(text) {
        &&& r matches Err(ConnectorError::ProtocolDecode(detail))
        &&& reports_parse_failure(detail@)
        &&& after == before
    } else {
        match dispatch_of(json_str(text, "/method"@), json_str(text, "/id"@)) {
            DispatchView::Pong(id) => {
                &&& r matches Ok(Some(reply))
                &&& reply@ == pong_text(id)
                &&& after == before
            },
            DispatchView::Store(id) => {
                &&& r matches Ok(None)
                &&& after == stored(before, id, text)
            },
            DispatchView::Discard => {
                &&& r matches Ok(None)
                &&& after == before
            },
        }
    }
}

/// The protocol state of one session with the venue.
pub struct Binance {
    non_main_stream: PendingResponses,
    curr_msg_id: u64,
}

impl Binance {
    /// The responses that wait for their requests.
    pub closed spec fn table(&self) -> Map<u64, Seq<Seq<char>>> {
        self.non_main_stream@
    }

    /// The correlation id that was given out last.
    pub closed spec fn counter(&self) -> u64 {
        self.curr_msg_id
    }

    /// The state is valid.
    pub closed spec fn wf(&self) -> bool {
        self.non_main_stream.wf()
    }

    /// The address to connect to.
    pub fn endpoint(testing: bool) -> (url: &'static str)
        ensures
            url@ == if testing {
                BINANCE_WS_TEST_URL@
            } else {
                BINANCE_WS_URL@
            },
    {
        if testing {
            BINANCE_WS_TEST_URL
        } else {
            BINANCE_WS_URL
        }
    }

    /// The connector of a session that has just been opened. Opening the
    /// session itself is the caller's work.
    pub fn connect() -> (r: Self)
        ensures
            r.wf(),
            r.table() == Map::<u64, Seq<Seq<char>>>::empty(),
            r.counter() == FIRST_ID,
    {
        Binance { non_main_stream: PendingResponses::new(), curr_msg_id: FIRST_ID }
    }

    /// One turn of the session loop, after the next frame has been read.
    pub fn ws_manager(&mut self, keep_alive: bool, inbound: Inbound) -> (turn: SessionTurn)
        requires
            old(self).wf(),
        ensures
            final(self).wf(),
            final(self).counter() == old(self).counter(),
            !keep_alive ==> turn is Stop && final(self).table() == old(self).table(),
            keep_alive ==> exists|r: Result<Option<String>, ConnectorError>|
                #![trigger turn_of(keep_alive, r)]
                processed(old(self).table(), inbound, final(self).table(), r) && turn == turn_of(
                    keep_alive,
                    r,
                ),
    {
        if !keep_alive {
            return SessionTurn::Stop;
        }
        let r = self.process_next_message(inbound);
        let ghost shown = r;
        let turn = decide_turn(keep_alive, r);
        assert(turn == turn_of(keep_alive, shown));
        turn
    }

    /// The pong that answers the ping with this id.
    pub fn ws_pong(id: &str) -> (r: String)
        ensures
            r@ == pong_text(id@),
    {
        let members = vec![
            (String::from_str("id"), Member::Leaf(Leaf::Text(String::from_str(id)))),
            (String::from_str("method"), Member::Leaf(Leaf::Text(String::from_str("pong")))),
        ];
        assert(members_view(members@) =~= seq![
            ("id"@, MemberView::Leaf(LeafView::Text(id@))),
            ("method"@, MemberView::Leaf(LeafView::Text("pong"@))),
        ]);
        render(&members)
    }

    /// Takes in what reading the next frame gave. A text frame is handled;
    /// a failed read is an error of the transport; anything else is passed
    /// over.
    pub fn process_next_message(&mut self, inbound: Inbound) -> (r: Result<
        Option<String>,
        ConnectorError,
    >)
        requires
            old(self).wf(),
        ensures
            final(self).wf(),
            final(self).counter() == old(self).counter(),
            processed(old(self).table(), inbound, final(self).table(), r),
    {
        match inbound {
            Inbound::Text(text) => self.handle_text_message(text.as_str()),
            Inbound::NonText => Ok(None),
            Inbound::ReadError(detail) => Err(read_failure(detail.as_str())),
            Inbound::Closed => Ok(None),
        }
    }

    /// Handles a text frame: answers a ping, stores a response under its
    /// correlation id, passes over anything else. A frame that is no JSON is
    /// an error.
    pub fn handle_text_message(&mut self, text: &str) -> (r: Result<Option<String>, ConnectorError>)
        requires
            old(self).wf(),
        ensures
            final(self).wf(),
            final(self).counter() == old(self).counter(),
            handled(old(self).table(), text@, final(self).table(), r),
    {
        match check_document(text) {
            Err(detail) => {
                return Err(parse_failure(detail.as_str()));
            },
            Ok(()) => {},
        }
        let method = str_at(text, "/method");
        let id = str_at(text, "/id");
        match classify(&method, &id) {
            Dispatch::Pong(id) => Ok(Some(Self::ws_pong(id.as_str()))),
            Dispatch::Store(id) => {
                self.non_main_stream.insert(id, String::from_str(text));
                Ok(None)
            },
            Dispatch::Discard => Ok(None),
        }
    }

    /// A ping of our own, to ask the venue for a sign of life.
    pub fn ws_request_time() -> (r: String)
        ensures
            r@ == time_request_text(),
    {
        let members = vec![
            (String::from_str("id"), Member::Leaf(Leaf::Text(String::from_str("1000")))),
            (String::from_str("method"), Member::Leaf(Leaf::Text(String::from_str("ping")))),
        ];
        assert(members_view(members@) =~= seq![
            ("id"@, MemberView::Leaf(LeafView::Text("1000"@))),
            ("method"@, MemberView::Leaf(LeafView::Text("ping"@))),
        ]);
        render(&members)
    }

    /// A fresh correlation id.
    pub fn get_new_id(&mut self) -> (id: u64)
        requires
            old(self).wf(),
        ensures
            final(self).wf(),
            id == next_id(old(self).counter()),
            final(self).counter() == id,
            final(self).table() == old(self).table(),
    {
        advance_id(&mut self.curr_msg_id)
    }
}

/// What taking in the outcome of a read gives, and what it makes of the
/// table.
pub open spec fn processed(
    before: Map<u64, Seq<Seq<char>>>,
    inbound: Inbound,
    after: Map<u64, Seq<Seq<char>>>,
    r: Result<Option<String>, ConnectorError>,
) -> bool {
    match inbound {
        Inbound::Text(text) => handled(before, text@, after, r),
        Inbound::ReadError(detail) => {
            &&& r matches Err(ConnectorError::Transport(said))
            &&& said@ == "Error reading WebSocket stream: "@ + detail@
            &&& after == before
        },
        _ => {
            &&& r matches Ok(None)
            &&& after == before
        },
    }
}

/// Decides what a frame asks of the session, from its method and its id
/// where they are strings.
pub fn classify(method: &Option<String>, id: &Option<String>) -> (d: Dispatch)
    ensures
        d@ == dispatch_of(
            match method {
                Some(m) => Some(m@),
                None => None,
            },
            match id {
                Some(i) => Some(i@),
                None => None,
            },
        ),
{
    let is_ping = match method {
        Some(m) => *m == String::from_str("ping"),
        None => false,
    };
    match id {
        Some(i) => {
            if is_ping {
                Dispatch::Pong(i.clone())
            } else {
                match parse_unsigned(i.as_str()) {
                    Some(n) => Dispatch::Store(n),
                    None => Dispatch::Discard,
                }
            }
        },
        None => Dispatch::Discard,
    }
}

} // verus!
