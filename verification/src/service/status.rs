//! Presence: what is written to the presence cache and what the presence
//! service is told when a user connects, starts to play or disconnects.
//!
//! Nothing here touches the cache or the network. Each function returns a
//! [`StatusUpdate`], the cache entry and the request as plain values, for the
//! caller to carry out.

use crate::decimal::{decimal, decimal_text};
use crate::json::{json_quote, quote};
use vstd::prelude::*;
use vstd::string::*;

verus! {

/// The text that chrono prints for the date and time, in UTC, that lies
/// `secs` seconds and `nanos` nanoseconds after the Unix epoch; `None` where
/// chrono has no such date.
pub uninterp spec fn utc_text(secs: i64, nanos: u32) -> Option<Seq<char>>;

/// Calls `DateTime::from_timestamp` of chrono and prints the `naive_utc` of
/// what it returns in its `Debug` form, the form in which chrono serialises a
/// `NaiveDateTime`.
///
/// Assumed, not proved: the outcome is a function of the two numbers alone,
/// named [`utc_text`]. `None` is chrono's answer to a number out of its range.
#[verifier::external_body]
fn format_utc(secs: i64, nanos: u32) -> (text: Option<String>)
    ensures
        match text {
            Some(t) => utc_text(secs, nanos) == Some(t@),
            None => utc_text(secs, nanos) is None,
        },
{
    match chrono::DateTime::from_timestamp(secs, nanos) {
        Some(moment) => Some(format!("{:?}", moment.naive_utc())),
        None => None,
    }
}

/// A date and time in UTC, held in the form in which it is written to the
/// cache.
#[derive(Debug)]
pub struct Timestamp {
    text: String,
    literal: String,
}

impl View for Timestamp {
    type V = Seq<char>;

    /// The date and time as text.
    closed spec fn view(&self) -> Seq<char> {
        self.text@
    }
}

impl Timestamp {
    #[verifier::type_invariant]
    spec fn quoted(&self) -> bool {
        self.literal@ == json_quote(self.text@)
    }

    /// The moment `secs` seconds and `nanos` nanoseconds after the Unix epoch,
    /// or `None` where that is no date chrono can name.
    pub fn from_unix(secs: i64, nanos: u32) -> (stamp: Option<Timestamp>)
        ensures
            match stamp {
                Some(t) => utc_text(secs, nanos) == Some(t@),
                None => utc_text(secs, nanos) is None,
            },
    {
        match format_utc(secs, nanos) {
            Some(text) => match quote(text.as_str()) {
                Ok(literal) => Some(Timestamp { text, literal }),
                Err(_) => None,
            },
            None => None,
        }
    }

    /// The date and time as text.
    pub fn as_str(&self) -> (text: &str)
        ensures
            text@ == self@,
    {
        self.text.as_str()
    }
}

/// The coarse state of a user.
#[derive(Debug, PartialEq, Eq)]
pub enum PresenceState {
    /// Connected, on no server.
    Online,
    /// Not connected since the given moment.
    Offline { last_seen: String },
    /// Connected and playing on a server.
    Playing { server: i32 },
}

/// The mathematical content of a [`PresenceState`].
pub enum PresenceStateView {
    Online,
    Offline { last_seen: Seq<char> },
    Playing { server: i32 },
}

impl View for PresenceState {
    type V = PresenceStateView;

    open spec fn view(&self) -> PresenceStateView {
        match self {
            PresenceState::Online => PresenceStateView::Online,
            PresenceState::Offline { last_seen } => PresenceStateView::Offline {
                last_seen: last_seen@,
            },
            PresenceState::Playing { server } => PresenceStateView::Playing { server: *server },
        }
    }
}

/// The kind of request that tells the presence service of a change.
#[derive(Debug, Clone, Copy, PartialEq, Eq)]
pub enum Method {
    /// A user arrived.
    Post,
    /// A user changed server.
    Patch,
    /// A user left.
    Delete,
}

/// One change of presence: the cache entry to write, and the request to send
/// to the presence service without waiting for its answer.
#[derive(Debug, PartialEq, Eq)]
pub struct StatusUpdate {
    /// The state the user is in from now on.
    pub state: PresenceState,
    /// The key of the cache entry.
    pub key: String,
    /// The JSON text to store under the key.
    pub payload: String,
    /// The kind of the request.
    pub method: Method,
    /// Path and query of the request, to follow the address of the service.
    pub path: String,
}

/// The mathematical content of a [`StatusUpdate`].
pub struct StatusUpdateView {
    pub state: PresenceStateView,
    pub key: Seq<char>,
    pub payload: Seq<char>,
    pub method: Method,
    pub path: Seq<char>,
}

impl View for StatusUpdate {
    type V = StatusUpdateView;

    open spec fn view(&self) -> StatusUpdateView {
        StatusUpdateView {
            state: self.state@,
            key: self.key@,
            payload: self.payload@,
            method: self.method,
            path: self.path@,
        }
    }
}

/// The cache key of a user: `status:` and the user's number.
pub open spec fn status_key(user: int) -> Seq<char> {
    "status:"@ + decimal_text(user)
}

/// The path under which the presence service knows a user: `/status/` and the
/// user's number.
pub open spec fn status_path(user: int) -> Seq<char> {
    "/status/"@ + decimal_text(user)
}

/// The JSON text stored for a state. Its members stand in the order of their
/// names.
pub open spec fn state_text(state: PresenceStateView) -> Seq<char> {
    match state {
        PresenceStateView::Online => "{\"status\":\"Online\"}"@,
        PresenceStateView::Offline { last_seen } => "{\"last_seen_at\":"@ + json_quote(last_seen)
            + ",\"status\":\"Offline\"}"@,
        PresenceStateView::Playing { server } => "{\"server\":"@ + decimal_text(server as int)
            + ",\"status\":\"Online\"}"@,
    }
}

/// The state of a user who reported the server `server`: server 0 stands for
/// no server.
pub open spec fn playing_state(server: i32) -> PresenceStateView {
    if server == 0 {
        PresenceStateView::Online
    } else {
        PresenceStateView::Playing { server }
    }
}

/// The update for a user who connected.
pub open spec fn online_update(user: i32) -> StatusUpdateView {
    StatusUpdateView {
        state: PresenceStateView::Online,
        key: status_key(user as int),
        payload: state_text(PresenceStateView::Online),
        method: Method::Post,
        path: status_path(user as int),
    }
}

/// The update for a user who reported a server. The request names the server
/// as it was reported, 0 included.
pub open spec fn playing_update(user: i32, server: i32) -> StatusUpdateView {
    StatusUpdateView {
        state: playing_state(server),
        key: status_key(user as int),
        payload: state_text(playing_state(server)),
        method: Method::Patch,
        path: status_path(user as int) + "?server_id="@ + decimal_text(server as int),
    }
}

/// The update for a user who disconnected at `last_seen`.
pub open spec fn offline_update(user: i32, last_seen: Seq<char>) -> StatusUpdateView {
    StatusUpdateView {
        state: PresenceStateView::Offline { last_seen },
        key: status_key(user as int),
        payload: state_text(PresenceStateView::Offline { last_seen }),
        method: Method::Delete,
        path: status_path(user as int),
    }
}

/// The presence coordinator.
pub struct StatusService;

impl StatusService {
    /// The cache key of a user.
    pub fn key(user_id: i32) -> (key: String)
        ensures
            key@ == status_key(user_id as int),
    {
        let mut key = String::from_str("status:");
        key.append(decimal(user_id).as_str());
        key
    }

    /// The request path of a user.
    pub fn path(user_id: i32) -> (path: String)
        ensures
            path@ == status_path(user_id as int),
    {
        let mut path = String::from_str("/status/");
        path.append(decimal(user_id).as_str());
        path
    }

    /// A user connected: the user is online, and the presence service hears of
    /// an arrival.
    pub fn online(user_id: i32) -> (update: StatusUpdate)
        ensures
            update@ == online_update(user_id),
    {
        StatusUpdate {
            state: PresenceState::Online,
            key: Self::key(user_id),
            payload: String::from_str("{\"status\":\"Online\"}"),
            method: Method::Post,
            path: Self::path(user_id),
        }
    }

    /// A user reported the server they play on. Server 0 means that the user
    /// is online and on no server; any other number means that the user plays
    /// there.
    pub fn playing(user_id: i32, server_id: i32) -> (update: StatusUpdate)
        ensures
            update@ == playing_update(user_id, server_id),
    {
        let number = decimal(server_id);
        let mut path = Self::path(user_id);
        path.append("?server_id=");
        path.append(number.as_str());
        if server_id == 0 {
            StatusUpdate {
                state: PresenceState::Online,
                key: Self::key(user_id),
                payload: String::from_str("{\"status\":\"Online\"}"),
                method: Method::Patch,
                path,
            }
        } else {
            let mut payload = String::from_str("{\"server\":");
            payload.append(number.as_str());
            payload.append(",\"status\":\"Online\"}");
            StatusUpdate {
                state: PresenceState::Playing { server: server_id },
                key: Self::key(user_id),
                payload,
                method: Method::Patch,
                path,
            }
        }
    }

    /// A user disconnected at `last_seen`: the user is offline since then, and
    /// the presence service hears of a departure.
    pub fn offline(user_id: i32, last_seen: &Timestamp) -> (update: StatusUpdate)
        ensures
            update@ == offline_update(user_id, last_seen@),
    {
        proof {
            use_type_invariant(last_seen);
        }
        let mut payload = String::from_str("{\"last_seen_at\":");
        payload.append(last_seen.literal.as_str());
        payload.append(",\"status\":\"Offline\"}");
        StatusUpdate {
            state: PresenceState::Offline { last_seen: last_seen.text.clone() },
            key: Self::key(user_id),
            payload,
            method: Method::Delete,
            path: Self::path(user_id),
        }
    }
}

} // verus!
