//! The connector of the venue that asks for credentials.
//!
//! On top of storing responses its session keeps the credentials alive: the
//! answer to an authentication carries a refresh token and the time for which
//! it holds, the venue's heartbeats are answered with a test request, and a
//! check that runs beside the session asks for new credentials once the old
//! ones are inside their safety margin.

pub mod book;

use crate::exchange_connectivity::json::{
    check_document, group_view, json_render, json_str, json_u64, json_valid, members_view,
    render, str_at, u64_at, Leaf, LeafView, Member, MemberView,
};
use crate::exchange_connectivity::pending::{stored, PendingResponses};
use crate::exchange_connectivity::{
    advance_id, decide_turn, next_id, parse_failure, read_failure, reports_parse_failure, turn_of, ConnectorError, Inbound,
    SessionTurn, FIRST_ID,
};
use vstd::prelude::*;
use vstd::string::StringExecFns;

verus! {

/// Where the venue listens.
pub const DERIBIT_WS_URL: &'static str = "wss://www.deribit.com/ws/api/v2";

/// Where the venue's test system listens.
pub const DERIBIT_WS_TEST_URL: &'static str = "wss://test.deribit.com/ws/api/v2";

/// The id of every authentication request.
pub const AUTH_ID: u64 = 9929;

/// The id of the request that sets the heartbeat up.
pub const HEARTBEAT_SETUP_ID: u64 = 9098;

/// The id of every answer to a heartbeat.
pub const HEARTBEAT_REPLY_ID: u64 = 8212;

/// The heartbeat interval that is asked for, in seconds.
pub const HEARTBEAT_INTERVAL: u64 = 30;

/// For how long credentials are taken to hold where the venue does not say,
/// in seconds.
pub const DEFAULT_VALIDITY: u64 = 540;

/// How long before their end credentials are renewed, in seconds.
pub const SAFETY_MARGIN: u64 = 240;

/// How long the check of the credentials sleeps between two looks, in
/// milliseconds.
pub const REFRESH_CHECK_INTERVAL_MS: u64 = 150_000;

/// A request in the venue's envelope.
pub open spec fn rpc_text(id: u64, method: Seq<char>, params: Seq<(Seq<char>, LeafView)>) -> Seq<
    char,
> {
    json_render(
        seq![
            ("jsonrpc"@, MemberView::Leaf(LeafView::Text("2.0"@))),
            ("id"@, MemberView::Leaf(LeafView::Unsigned(id))),
            ("method"@, MemberView::Leaf(LeafView::Text(method))),
            ("params"@, MemberView::Group(params)),
        ],
    )
}

/// The authentication with the client's credentials.
pub open spec fn auth_text(client_id: Seq<char>, client_secret: Seq<char>) -> Seq<char> {
    rpc_text(
        AUTH_ID,
        "public/auth"@,
        seq![
            ("grant_type"@, LeafView::Text("client_credentials"@)),
            ("client_id"@, LeafView::Text(client_id)),
            ("client_secret"@, LeafView::Text(client_secret)),
        ],
    )
}

/// The authentication with a refresh token.
pub open spec fn reauth_text(refresh_token: Seq<char>) -> Seq<char> {
    rpc_text(
        AUTH_ID,
        "public/auth"@,
        seq![
            ("grant_type"@, LeafView::Text("refresh_token"@)),
            ("refresh_token"@, LeafView::Text(refresh_token)),
        ],
    )
}

/// The request that sets the heartbeat up.
pub open spec fn heartbeat_setup_text() -> Seq<char> {
    rpc_text(
        HEARTBEAT_SETUP_ID,
        "public/set_heartbeat"@,
        seq![("interval"@, LeafView::Unsigned(HEARTBEAT_INTERVAL))],
    )
}

/// The answer to a heartbeat.
pub open spec fn heartbeat_reply_text() -> Seq<char> {
    rpc_text(HEARTBEAT_REPLY_ID, "public/test"@, Seq::empty())
}

/// What a frame is to the session.
pub enum Frame {
    /// The answer to an authentication.
    Auth,
    /// A heartbeat of the venue.
    Heartbeat,
    /// The answer to one of our answers to a heartbeat.
    HeartbeatAck,
    /// A response, with its correlation id.
    Response(u64),
    /// Nothing that the session knows.
    Unknown,
}

/// What a frame with this id and this method is to the session.
pub open spec fn frame_of(id: Option<u64>, method: Option<Seq<char>>) -> Frame {
    if id == Some(AUTH_ID) {
        Frame::Auth
    } else if method == Some("heartbeat"@) {
        Frame::Heartbeat
    } else if id == Some(HEARTBEAT_REPLY_ID) {
        Frame::HeartbeatAck
    } else if id is Some {
        Frame::Response(id->Some_0)
    } else {
        Frame::Unknown
    }
}

/// What the connector holds.
pub struct DeribitView {
    pub client_id: Seq<char>,
    pub client_secret: Seq<char>,
    /// The responses that wait for their requests.
    pub pending: Map<u64, Seq<Seq<char>>>,
    /// The refresh token of the last authentication.
    pub refresh_token: Option<Seq<char>>,
    /// From when on the credentials are to be renewed, in milliseconds since
    /// the Unix epoch.
    pub refresh_token_expiry_time: Option<u64>,
    /// The correlation id that was given out last.
    pub curr_msg_id: u64,
}

/// For how long, in milliseconds, credentials are used before they are
/// renewed, where the venue gives them `expires_in` seconds: that time, or
/// the default, less the safety margin. `None` where the time is shorter
/// than the margin or the result does not fit in 64 bits.
pub open spec fn usable_for(expires_in: Option<u64>) -> Option<u64> {
    let validity = match expires_in {
        Some(secs) => secs,
        None => DEFAULT_VALIDITY,
    };
    if validity >= SAFETY_MARGIN && (validity - SAFETY_MARGIN) * 1000 <= u64::MAX {
        Some(((validity - SAFETY_MARGIN) * 1000) as u64)
    } else {
        None
    }
}

/// Whether the answer to an authentication can be taken in: it has a refresh
/// token, and the times that follow from it fit.
pub open spec fn tokens_usable(
    refresh_token: Option<Seq<char>>,
    expires_in: Option<u64>,
    now: Option<u64>,
) -> bool {
    &&& refresh_token is Some
    &&& usable_for(expires_in) is Some
    &&& now is Some ==> now->Some_0 + usable_for(expires_in)->Some_0 <= u64::MAX
}

/// Why the answer to an authentication is an error, where it is one: it has
/// no token, its times do not fit, or the clock gives no time.
pub open spec fn token_refusal(
    refresh_token: Option<Seq<char>>,
    expires_in: Option<u64>,
    now: Option<u64>,
) -> Option<Seq<char>> {
    if refresh_token is None {
        Some("Missing refresh token"@)
    } else if !tokens_usable(refresh_token, expires_in, now) {
        Some("Unusable validity of the credentials"@)
    } else if now is None {
        Some("Failed to get system time"@)
    } else {
        None
    }
}

/// The connector after the answer to an authentication has been taken in.
/// The token is kept in any case; the time of renewal only where the clock
/// gives the time.
pub open spec fn with_tokens(
    state: DeribitView,
    refresh_token: Option<Seq<char>>,
    expires_in: Option<u64>,
    now: Option<u64>,
) -> DeribitView {
    if !tokens_usable(refresh_token, expires_in, now) {
        state
    } else {
        DeribitView {
            client_id: state.client_id,
            client_secret: state.client_secret,
            pending: state.pending,
            refresh_token,
            refresh_token_expiry_time: match now {
                Some(time) => Some((time + usable_for(expires_in)->Some_0) as u64),
                None => state.refresh_token_expiry_time,
            },
            curr_msg_id: state.curr_msg_id,
        }
    }
}

/// The connector with a response stored.
pub open spec fn with_response(state: DeribitView, id: u64, text: Seq<char>) -> DeribitView {
    DeribitView {
        client_id: state.client_id,
        client_secret: state.client_secret,
        pending: stored(state.pending, id, text),
        refresh_token: state.refresh_token,
        refresh_token_expiry_time: state.refresh_token_expiry_time,
        curr_msg_id: state.curr_msg_id,
    }
}

/// What handling a text frame gives, and what it makes of the connector.
pub open spec fn handled(
    before: DeribitView,
    text: Seq<char>,
    now: Option<u64>,
    after: DeribitView,
    r: Result<Option<String>, ConnectorError>,
) -> bool {
    if !json_valid(text) {
        &&& r matches Err(ConnectorError::ProtocolDecode(detail))
        &&& reports_parse_failure(detail@)
        &&& after == before
    } else {
        match frame_of(json_u64(text, "/id"@), json_str(text, "/method"@)) {
            Frame::Auth => {
                let token = json_str(text, "/result/refresh_token"@);
                let expires_in = json_u64(text, "/result/expires_in"@);
                &&& after == with_tokens(before, token, expires_in, now)
                &&& match token_refusal(token, expires_in, now) {
                    None => r matches Ok(None),
                    Some(why) => r matches Err(ConnectorError::ProtocolDecode(detail)) && detail@
                        == why,
                }
            },
            Frame::Heartbeat => {
                &&& r matches Ok(Some(reply))
                &&& reply@ == heartbeat_reply_text()
                &&& after == before
            },
            Frame::HeartbeatAck => {
                &&& r matches Ok(None)
                &&& after == before
            },
            Frame::Response(id) => {
                &&& r matches Ok(None)
                &&& after == with_response(before, id, text)
            },
            Frame::Unknown => {
                &&& r matches Ok(None)
                &&& after == before
            },
        }
    }
}

/// What taking in the outcome of a read gives, and what it makes of the
/// connector.
pub open spec fn processed(
    before: DeribitView,
    inbound: Inbound,
    now: Option<u64>,
    after: DeribitView,
    r: Result<Option<String>, ConnectorError>,
) -> bool {
    match inbound {
        Inbound::Text(text) => handled(before, text@, now, after, r),
        Inbound::ReadError(detail) => {
            &&& r matches Err(ConnectorError::Transport(said))
            &&& said@ == "Error reading WebSocket stream: "@ + detail@
            &&& after == before
        },
        _ => {
            &&& r matches Ok(None)
            &&& after == before
        },
    }
}

/// The request for new credentials that is due: one is due when a token and
/// its time of renewal are known and that time has passed.
pub open spec fn refresh_due(state: DeribitView, now: Option<u64>) -> Option<Seq<char>> {
    match (state.refresh_token_expiry_time, state.refresh_token, now) {
        (Some(expiry), Some(token), Some(time)) => if time > expiry {
            Some(reauth_text(token))
        } else {
            None
        },
        _ => None,
    }
}

/// The protocol state of one session with the venue.
pub struct Deribit {
    client_id: String,
    client_secret: String,
    non_main_stream: PendingResponses,
    refresh_token: Option<String>,
    refresh_token_expiry_time: Option<u64>,
    curr_msg_id: u64,
}

impl View for Deribit {
    type V = DeribitView;

    closed spec fn view(&self) -> DeribitView {
        DeribitView {
            client_id: self.client_id@,
            client_secret: self.client_secret@,
            pending: self.non_main_stream@,
            refresh_token: match self.refresh_token {
                Some(token) => Some(token@),
                None => None,
            },
            refresh_token_expiry_time: self.refresh_token_expiry_time,
            curr_msg_id: self.curr_msg_id,
        }
    }
}

/// Writes a request in the venue's envelope.
pub fn rpc(id: u64, method: &str, params: Vec<(String, Leaf)>) -> (r: String)
    ensures
        r@ == rpc_text(id, method@, group_view(params@)),
{
    let ghost shown = group_view(params@);
    let members = vec![
        (String::from_str("jsonrpc"), Member::Leaf(Leaf::Text(String::from_str("2.0")))),
        (String::from_str("id"), Member::Leaf(Leaf::Unsigned(id))),
        (String::from_str("method"), Member::Leaf(Leaf::Text(String::from_str(method)))),
        (String::from_str("params"), Member::Group(params)),
    ];
    assert(members_view(members@) =~= seq![
        ("jsonrpc"@, MemberView::Leaf(LeafView::Text("2.0"@))),
        ("id"@, MemberView::Leaf(LeafView::Unsigned(id))),
        ("method"@, MemberView::Leaf(LeafView::Text(method@))),
        ("params"@, MemberView::Group(shown)),
    ]);
    render(&members)
}

/// Decides what a frame is to the session, from its id where that is a
/// number and its method where that is a string.
pub fn classify(id: Option<u64>, method: &Option<String>) -> (frame: Frame)
    ensures
        frame == frame_of(
            id,
            match method {
                Some(m) => Some(m@),
                None => None,
            },
        ),
{
    let is_heartbeat = match method {
        Some(m) => *m == String::from_str("heartbeat"),
        None => false,
    };
    match id {
        Some(n) => {
            if n == AUTH_ID {
                Frame::Auth
            } else if is_heartbeat {
                Frame::Heartbeat
            } else if n == HEARTBEAT_REPLY_ID {
                Frame::HeartbeatAck
            } else {
                Frame::Response(n)
            }
        },
        None => {
            if is_heartbeat {
                Frame::Heartbeat
            } else {
                Frame::Unknown
            }
        },
    }
}

/// For how long credentials are used before they are renewed, in
/// milliseconds.
pub fn usable_window(expires_in: Option<u64>) -> (r: Option<u64>)
    ensures
        r == usable_for(expires_in),
{
    let validity = match expires_in {
        Some(secs) => secs,
        None => DEFAULT_VALIDITY,
    };
    if validity < SAFETY_MARGIN {
        None
    } else {
        (validity - SAFETY_MARGIN).checked_mul(1000)
    }
}

impl Deribit {
    /// The state is valid.
    pub closed spec fn wf(&self) -> bool {
        self.non_main_stream.wf()
    }

    /// The address to connect to.
    pub fn endpoint(testing: bool) -> (url: &'static str)
        ensures
            url@ == if testing {
                DERIBIT_WS_TEST_URL@
            } else {
                DERIBIT_WS_URL@
            },
    {
        if testing {
            DERIBIT_WS_TEST_URL
        } else {
            DERIBIT_WS_URL
        }
    }

    /// The connector of a session that has just been opened for these
    /// credentials. Opening the session itself is the caller's work.
    pub fn connect(client_id: String, client_secret: String) -> (r: Self)
        ensures
            r.wf(),
            r@ == (DeribitView {
                client_id: client_id@,
                client_secret: client_secret@,
                pending: Map::empty(),
                refresh_token: None,
                refresh_token_expiry_time: None,
                curr_msg_id: FIRST_ID,
            }),
    {
        Deribit {
            client_id,
            client_secret,
            non_main_stream: PendingResponses::new(),
            refresh_token: None,
            refresh_token_expiry_time: None,
            curr_msg_id: FIRST_ID,
        }
    }

    /// One turn of the session loop, after the next frame has been read.
    pub fn ws_manager(&mut self, keep_alive: bool, inbound: Inbound, now: Option<u64>) -> (turn:
        SessionTurn)
        requires
            old(self).wf(),
        ensures
            final(self).wf(),
            !keep_alive ==> turn is Stop && final(self)@ == old(self)@,
            keep_alive ==> exists|r: Result<Option<String>, ConnectorError>|
                #![trigger turn_of(keep_alive, r)]
                processed(old(self)@, inbound, now, final(self)@, r) && turn == turn_of(
                    keep_alive,
                    r,
                ),
    {
        if !keep_alive {
            return SessionTurn::Stop;
        }
        let r = self.process_next_message(inbound, now);
        let ghost shown = r;
        let turn = decide_turn(keep_alive, r);
        assert(turn == turn_of(keep_alive, shown));
        turn
    }

    /// What is sent when a session starts: the authentication, then the
    /// request that sets the heartbeat up.
    pub fn initialize_ws(&self) -> (r: Vec<String>)
        ensures
            r@.len() == 2,
            r@[0]@ == auth_text(self@.client_id, self@.client_secret),
            r@[1]@ == heartbeat_setup_text(),
    {
        vec![self.ws_auth(), Self::establish_heartbeat()]
    }

    /// The authentication with the client's credentials.
    pub fn ws_auth(&self) -> (r: String)
        ensures
            r@ == auth_text(self@.client_id, self@.client_secret),
    {
        let params = vec![
            (String::from_str("grant_type"), Leaf::Text(String::from_str("client_credentials"))),
            (String::from_str("client_id"), Leaf::Text(self.client_id.clone())),
            (String::from_str("client_secret"), Leaf::Text(self.client_secret.clone())),
        ];
        assert(group_view(params@) =~= seq![
            ("grant_type"@, LeafView::Text("client_credentials"@)),
            ("client_id"@, LeafView::Text(self@.client_id)),
            ("client_secret"@, LeafView::Text(self@.client_secret)),
        ]);
        rpc(AUTH_ID, "public/auth", params)
    }

    /// Takes in what reading the next frame gave. A text frame is handled;
    /// a failed read is an error of the transport; anything else is passed
    /// over.
    pub fn process_next_message(&mut self, inbound: Inbound, now: Option<u64>) -> (r: Result<
        Option<String>,
        ConnectorError,
    >)
        requires
            old(self).wf(),
        ensures
            final(self).wf(),
            processed(old(self)@, inbound, now, final(self)@, r),
    {
        match inbound {
            Inbound::Text(text) => self.handle_text_message(text.as_str(), now),
            Inbound::NonText => Ok(None),
            Inbound::ReadError(detail) => Err(read_failure(detail.as_str())),
            Inbound::Closed => Ok(None),
        }
    }

    /// Handles a text frame: takes in the answer to an authentication,
    /// answers a heartbeat, stores a response under its correlation id,
    /// passes over anything else. A frame that is no JSON is an error, and so
    /// is an answer to an authentication that cannot be taken in.
    pub fn handle_text_message(&mut self, text: &str, now: Option<u64>) -> (r: Result<
        Option<String>,
        ConnectorError,
    >)
        requires
            old(self).wf(),
        ensures
            final(self).wf(),
            handled(old(self)@, text@, now, final(self)@, r),
    {
        match check_document(text) {
            Err(detail) => {
                return Err(parse_failure(detail.as_str()));
            },
            Ok(()) => {},
        }
        let id = u64_at(text, "/id");
        let method = str_at(text, "/method");
        match classify(id, &method) {
            Frame::Auth => {
                let token = str_at(text, "/result/refresh_token");
                let expires_in = u64_at(text, "/result/expires_in");
                match self.update_auth_tokens(token, expires_in, now) {
                    Ok(()) => Ok(None),
                    Err(e) => Err(e),
                }
            },
            Frame::Heartbeat => Ok(Some(Self::heartbeat_response())),
            Frame::HeartbeatAck => Ok(None),
            Frame::Response(id) => {
                self.non_main_stream.insert(id, String::from_str(text));
                Ok(None)
            },
            Frame::Unknown => Ok(None),
        }
    }

    /// Takes in the answer to an authentication: keeps its refresh token and
    /// works out from when on the credentials are to be renewed. An answer
    /// without a token, or with times that do not fit, changes nothing and is
    /// an error. Without the time of the clock the token is kept, the time of
    /// renewal is not, and that is an error too.
    pub fn update_auth_tokens(
        &mut self,
        refresh_token: Option<String>,
        expires_in: Option<u64>,
        now: Option<u64>,
    ) -> (r: Result<(), ConnectorError>)
        requires
            old(self).wf(),
        ensures
            final(self).wf(),
            final(self)@ == with_tokens(
                old(self)@,
                match refresh_token {
                    Some(t) => Some(t@),
                    None => None,
                },
                expires_in,
                now,
            ),
            match token_refusal(
                match refresh_token {
                    Some(t) => Some(t@),
                    None => None,
                },
                expires_in,
                now,
            ) {
                None => r is Ok,
                Some(why) => r matches Err(ConnectorError::ProtocolDecode(detail)) && detail@
                    == why,
            },
    {
        let token = match refresh_token {
            Some(t) => t,
            None => {
                return Err(
                    ConnectorError::ProtocolDecode(String::from_str("Missing refresh token")),
                );
            },
        };
        let window = match usable_window(expires_in) {
            Some(w) => w,
            None => {
                return Err(
                    ConnectorError::ProtocolDecode(
                        String::from_str("Unusable validity of the credentials"),
                    ),
                );
            },
        };
        let expiry = match now {
            Some(time) => match time.checked_add(window) {
                Some(e) => Some(e),
                None => {
                    return Err(
                        ConnectorError::ProtocolDecode(
                            String::from_str("Unusable validity of the credentials"),
                        ),
                    );
                },
            },
            None => None,
        };
        self.refresh_token = Some(token);
        match expiry {
            Some(e) => {
                self.refresh_token_expiry_time = Some(e);
                Ok(())
            },
            None => Err(
                ConnectorError::ProtocolDecode(String::from_str("Failed to get system time")),
            ),
        }
    }

    /// The request that sets the heartbeat up.
    pub fn establish_heartbeat() -> (r: String)
        ensures
            r@ == heartbeat_setup_text(),
    {
        let params = vec![(String::from_str("interval"), Leaf::Unsigned(HEARTBEAT_INTERVAL))];
        assert(group_view(params@) =~= seq![("interval"@, LeafView::Unsigned(HEARTBEAT_INTERVAL))]);
        rpc(HEARTBEAT_SETUP_ID, "public/set_heartbeat", params)
    }

    /// The answer to a heartbeat.
    pub fn heartbeat_response() -> (r: String)
        ensures
            r@ == heartbeat_reply_text(),
    {
        let params: Vec<(String, Leaf)> = Vec::new();
        assert(group_view(params@) =~= Seq::empty());
        rpc(HEARTBEAT_REPLY_ID, "public/test", params)
    }

    /// One look of the check that keeps the credentials alive: the request
    /// for new credentials, where one is due. The check sleeps for
    /// `REFRESH_CHECK_INTERVAL_MS` between two looks.
    pub fn ws_refresh_auth(&self, now: Option<u64>) -> (r: Option<String>)
        ensures
            r is Some == refresh_due(self@, now) is Some,
            r matches Some(text) ==> text@ == refresh_due(self@, now)->Some_0,
    {
        match (self.refresh_token_expiry_time, &self.refresh_token, now) {
            (Some(expiry), Some(token), Some(time)) => {
                if time > expiry {
                    let params = vec![
                        (
                            String::from_str("grant_type"),
                            Leaf::Text(String::from_str("refresh_token")),
                        ),
                        (String::from_str("refresh_token"), Leaf::Text(token.clone())),
                    ];
                    assert(group_view(params@) =~= seq![
                        ("grant_type"@, LeafView::Text("refresh_token"@)),
                        ("refresh_token"@, LeafView::Text(token@)),
                    ]);
                    Some(rpc(AUTH_ID, "public/auth", params))
                } else {
                    None
                }
            },
            _ => None,
        }
    }

    /// A fresh correlation id.
    pub fn get_new_id(&mut self) -> (id: u64)
        requires
            old(self).wf(),
        ensures
            final(self).wf(),
            id == next_id(old(self)@.curr_msg_id),
            final(self)@ == (DeribitView { curr_msg_id: id, ..old(self)@ }),
    {
        advance_id(&mut self.curr_msg_id)
    }
}

} // verus!
