//! Event distribution: building the wire form of an event, fanning it out to
//! the connections of one or many users, and reading what clients send.

use crate::json::{compact, json_compact, json_quote, quote, Payload, PayloadView};
use crate::service::registry::{tokens, tokens_of, Connection, ConnectionRegistry};
use crate::service::registry::{deregistered, registered};
use crate::service::status::{offline_update, online_update, playing_update};
use crate::service::status::{StatusService, StatusUpdate, StatusUpdateView, Timestamp};
use tokio::sync::mpsc::UnboundedSender;
use vstd::prelude::*;
use vstd::string::*;

verus! {

/// Why a call of this module did not do its work.
#[derive(Debug, Clone, Copy, PartialEq, Eq)]
pub enum WssError {
    /// The data of an envelope is no JSON.
    Serialize,
    /// The client closed the connection.
    Closed,
}

/// The data of a client's `play` message.
#[derive(Debug, Clone, Copy, PartialEq, Eq)]
pub struct EventPlay {
    pub server: i32,
}

/// A message from a client, as far as the gateway reads it: its tag, and the
/// `play` data where the message's data has that form.
#[derive(Debug, PartialEq, Eq)]
pub struct WssMessage {
    pub kind: String,
    pub play: Option<EventPlay>,
}

/// What a client's message asks for.
#[derive(Debug, Clone, Copy, PartialEq, Eq)]
pub enum ClientEvent {
    /// The client plays on a server, or on none where the server is 0.
    Play { server: i32 },
    /// Anything else. It is accepted and has no effect.
    Ignored,
}

/// What the transport handed over.
#[derive(Debug, PartialEq, Eq)]
pub enum Frame {
    /// A text frame that holds an envelope.
    Message(WssMessage),
    /// A text frame that holds no envelope.
    Malformed,
    /// A binary frame, a ping or a pong.
    Other,
    /// A close frame.
    Close,
}

/// One attempt to put a frame on a connection's outbound queue.
#[derive(Debug, Clone, Copy, PartialEq, Eq)]
pub struct Delivery {
    /// The user the frame was meant for.
    pub user: i32,
    /// The connection it was offered to.
    pub token: u64,
    /// Whether the queue took it. A queue whose session has gone takes
    /// nothing.
    pub accepted: bool,
}

/// The view of what the JSON reader answered.
pub open spec fn answer(read: Option<String>) -> Option<Seq<char>> {
    match read {
        Some(t) => Some(t@),
        None => None,
    }
}

/// The text of a payload that the JSON reader is asked about.
pub open spec fn source(data: PayloadView) -> Seq<char> {
    match data {
        PayloadView::Text(s) => s,
        PayloadView::Encoded(t) => t,
    }
}

/// The data of an envelope after normalization, given what the JSON reader
/// made of its text: a bare string that the reader could read becomes the
/// value that the reader found; everything else stays.
pub open spec fn normalized_by(data: PayloadView, read: Option<Seq<char>>) -> PayloadView {
    match (data, read) {
        (PayloadView::Text(_), Some(t)) => PayloadView::Encoded(t),
        _ => data,
    }
}

/// The data of an envelope after normalization: a bare string that is a JSON
/// document becomes the value it spells out; everything else stays.
pub open spec fn normalized(data: PayloadView) -> PayloadView {
    match data {
        PayloadView::Text(s) => normalized_by(data, json_compact(s)),
        PayloadView::Encoded(_) => data,
    }
}

/// The data of an envelope as it may go on the wire, given what the JSON
/// reader made of its text. A bare string is normalized. An encoded value
/// goes as it is, provided that the reader could read it: where it could
/// not, the data is refused.
pub open spec fn accepted_by(data: PayloadView, read: Option<Seq<char>>) -> Result<
    PayloadView,
    WssError,
> {
    match data {
        PayloadView::Text(_) => Ok(normalized_by(data, read)),
        PayloadView::Encoded(_) => if read is Some {
            Ok(data)
        } else {
            Err(WssError::Serialize)
        },
    }
}

/// The JSON text of a payload: a bare string as a JSON string literal, an
/// encoded value as it is.
pub open spec fn payload_text(data: PayloadView) -> Seq<char> {
    match data {
        PayloadView::Text(s) => json_quote(s),
        PayloadView::Encoded(t) => t,
    }
}

/// The data of an envelope as it goes on the wire. A bare string is normalized
/// and written. An encoded value is written as it is, provided that it is
/// JSON: where it is not, there is nothing to send.
pub open spec fn wire_data(data: PayloadView) -> Option<Seq<char>> {
    match accepted_by(data, json_compact(source(data))) {
        Ok(payload) => Some(payload_text(payload)),
        Err(_) => None,
    }
}

/// The wire form of an event: the envelope around its data, or the error of
/// data that is no JSON.
pub open spec fn wire_text(kind: Seq<char>, data: PayloadView) -> Result<Seq<char>, WssError> {
    match wire_data(data) {
        Some(d) => Ok(envelope_text(kind, d)),
        None => Err(WssError::Serialize),
    }
}

/// The wire form of an envelope: a JSON object with the member `type`, then
/// the member `data`, and no white space.
pub open spec fn envelope_text(kind: Seq<char>, data: Seq<char>) -> Seq<char> {
    "{\"type\":"@ + json_quote(kind) + ",\"data\":"@ + data + "}"@
}

/// The connections of `user`, each with the user's number, oldest first.
pub open spec fn targets(m: Map<i32, Seq<u64>>, user: i32) -> Seq<(i32, u64)> {
    tokens_of(m, user).map_values(|t: u64| (user, t))
}

/// The connections that a broadcast to `ids` addresses: those of the first
/// user, then those of the second, and so on. A user named twice is served
/// twice, a user without connections not at all.
pub open spec fn fanout(m: Map<i32, Seq<u64>>, ids: Seq<i32>) -> Seq<(i32, u64)>
    decreases ids.len(),
{
    if ids.len() == 0 {
        Seq::empty()
    } else {
        fanout(m, ids.drop_last()) + targets(m, ids.last())
    }
}

/// Whom the deliveries of a report were addressed to, in order.
pub open spec fn addressed(report: Seq<Delivery>) -> Seq<(i32, u64)> {
    report.map_values(|d: Delivery| (d.user, d.token))
}

/// A user without an entry has no connection to send to.
pub proof fn lemma_absent_user_has_no_target(m: Map<i32, Seq<u64>>, user: i32)
    requires
        !m.contains_key(user),
    ensures
        targets(m, user) == Seq::<(i32, u64)>::empty(),
{
    assert(targets(m, user) =~= Seq::<(i32, u64)>::empty());
}

/// A broadcast to users of whom none has an entry addresses nobody.
pub proof fn lemma_fanout_absent_users(m: Map<i32, Seq<u64>>, ids: Seq<i32>)
    requires
        forall|i: int| 0 <= i < ids.len() ==> !m.contains_key(#[trigger] ids[i]),
    ensures
        fanout(m, ids) == Seq::<(i32, u64)>::empty(),
    decreases ids.len(),
{
    if ids.len() > 0 {
        lemma_fanout_absent_users(m, ids.drop_last());
        assert(!m.contains_key(ids[ids.len() - 1]));
        lemma_absent_user_has_no_target(m, ids.last());
        assert(fanout(m, ids) =~= Seq::<(i32, u64)>::empty());
    }
}

/// What a message asks for, given its tag as it came: a message with the tag
/// `play`, letter for letter, and well-formed data is a
/// [`ClientEvent::Play`]; all else is ignored.
pub open spec fn event_of(tag: Seq<char>, play: Option<EventPlay>) -> ClientEvent {
    match play {
        Some(body) if tag == "play"@ => ClientEvent::Play { server: body.server },
        _ => ClientEvent::Ignored,
    }
}

/// Tells what a message asks for from its tag and its `play` data.
pub fn classify(tag: &str, play: Option<EventPlay>) -> (event: ClientEvent)
    ensures
        event == event_of(tag@, play),
{
    let tag = String::from_str(tag);
    let known = String::from_str("play");
    match play {
        Some(body) => {
            if tag == known {
                ClientEvent::Play { server: body.server }
            } else {
                ClientEvent::Ignored
            }
        },
        None => ClientEvent::Ignored,
    }
}

impl WssMessage {
    /// What the message asks for. The tag counts as it came: `PLAY` is not
    /// `play`.
    pub fn event(&self) -> (event: ClientEvent)
        ensures
            event == event_of(self.kind@, self.play),
    {
        classify(self.kind.as_str(), self.play)
    }
}

/// What a frame from the client of `user` leads to: the end of the session
/// for a close frame, a presence update for a `play` message, and nothing
/// for any other frame, a malformed one too.
pub open spec fn reply(user: i32, message: Frame) -> Result<Option<StatusUpdateView>, WssError> {
    match message {
        Frame::Close => Err(WssError::Closed),
        Frame::Message(m) => match event_of(m.kind@, m.play) {
            ClientEvent::Play { server } => Ok(Some(playing_update(user, server))),
            ClientEvent::Ignored => Ok(None),
        },
        _ => Ok(None),
    }
}

/// Handles one frame from the client of `user_id`.
///
/// A close frame ends the session: the answer is [`WssError::Closed`]. A
/// `play` message changes the user's presence, and the update to carry out is
/// returned. Every other frame, a malformed one too, is accepted without
/// effect.
pub fn handle_message(user_id: i32, message: Frame) -> (outcome: Result<
    Option<StatusUpdate>,
    WssError,
>)
    ensures
        match outcome {
            Ok(Some(update)) => reply(user_id, message) == Ok::<
                Option<StatusUpdateView>,
                WssError,
            >(Some(update@)),
            Ok(None) => reply(user_id, message) == Ok::<Option<StatusUpdateView>, WssError>(None),
            Err(e) => reply(user_id, message) == Err::<Option<StatusUpdateView>, WssError>(e),
        },
{
    match message {
        Frame::Message(m) => match m.event() {
            ClientEvent::Play { server } => Ok(Some(StatusService::playing(user_id, server))),
            ClientEvent::Ignored => Ok(None),
        },
        Frame::Close => Err(WssError::Closed),
        _ => Ok(None),
    }
}

/// The event distributor.
pub struct WssService;

impl WssService {
    /// Normalizes a payload, given what the JSON reader made of its text: a
    /// bare string that the reader could read is replaced by what the reader
    /// found, any other data is kept.
    pub fn normalize(val: Payload, read: Option<String>) -> (fixed: Payload)
        ensures
            fixed@ == normalized_by(val@, answer(read)),
    {
        match val {
            Payload::Text(s) => match read {
                Some(t) => Payload::Encoded(t),
                None => Payload::Text(s),
            },
            Payload::Encoded(t) => Payload::Encoded(t),
        }
    }

    /// Decides whether a payload may go on the wire, given what the JSON
    /// reader made of its text. A bare string always may, normalized. An
    /// encoded value may as it is if the reader could read it, and is refused
    /// with [`WssError::Serialize`] if not.
    pub fn accept(val: Payload, read: Option<String>) -> (outcome: Result<Payload, WssError>)
        ensures
            match outcome {
                Ok(payload) => accepted_by(val@, answer(read)) == Ok::<PayloadView, WssError>(
                    payload@,
                ),
                Err(e) => accepted_by(val@, answer(read)) == Err::<PayloadView, WssError>(e),
            },
    {
        match val {
            Payload::Text(s) => Ok(Self::normalize(Payload::Text(s), read)),
            Payload::Encoded(t) => match read {
                Some(_) => Ok(Payload::Encoded(t)),
                None => Err(WssError::Serialize),
            },
        }
    }

    /// Normalizes the data of an envelope: a bare string that parses as JSON
    /// is replaced by the value it spells out, any other data is kept.
    pub fn fix_json_value(val: Payload) -> (fixed: Payload)
        ensures
            fixed@ == normalized(val@),
    {
        match val {
            Payload::Text(s) => {
                let read = compact(s.as_str());
                Self::normalize(Payload::Text(s), read)
            },
            Payload::Encoded(t) => Payload::Encoded(t),
        }
    }

    /// Puts the two members of an envelope, each already JSON text, into the
    /// wire form.
    pub fn frame(kind: &str, data: &str) -> (text: String)
        ensures
            text@ == "{\"type\":"@ + kind@ + ",\"data\":"@ + data@ + "}"@,
    {
        let mut text = String::from_str("{\"type\":");
        text.append(kind);
        text.append(",\"data\":");
        text.append(data);
        text.append("}");
        text
    }

    /// Builds the wire form of an event from its tag and its data. A bare
    /// string is normalized first. Encoded data that is no JSON is refused
    /// with [`WssError::Serialize`]; nothing else fails.
    pub fn serialize(kind: String, data: Payload) -> (message: Result<String, WssError>)
        ensures
            match message {
                Ok(text) => wire_text(kind@, data@) == Ok::<Seq<char>, WssError>(text@),
                Err(e) => wire_text(kind@, data@) == Err::<Seq<char>, WssError>(e),
            },
    {
        let read = match &data {
            Payload::Text(s) => compact(s.as_str()),
            Payload::Encoded(t) => compact(t.as_str()),
        };
        let written = match Self::accept(data, read) {
            Ok(Payload::Text(s)) => match quote(s.as_str()) {
                Ok(literal) => literal,
                Err(_) => {
                    return Err(WssError::Serialize);
                },
            },
            Ok(Payload::Encoded(t)) => t,
            Err(e) => {
                return Err(e);
            },
        };
        match quote(kind.as_str()) {
            Ok(tag) => Ok(Self::frame(tag.as_str(), written.as_str())),
            Err(_) => Err(WssError::Serialize),
        }
    }

    /// Offers a copy of `message` to each of the connections `conns` of the
    /// user `id`, in their order, and reports each attempt.
    pub fn deliver(id: i32, conns: &Vec<Connection>, message: &str) -> (report: Vec<Delivery>)
        ensures
            addressed(report@) == tokens(conns@).map_values(|t: u64| (id, t)),
    {
        let mut report: Vec<Delivery> = Vec::new();
        let mut at: usize = 0;
        while at < conns.len()
            invariant
                at <= conns.len(),
                addressed(report@) == tokens(conns@).map_values(|t: u64| (id, t)).subrange(
                    0,
                    at as int,
                ),
            decreases conns.len() - at,
        {
            let accepted = conns[at].enqueue(String::from_str(message)).is_none();
            let ghost before = addressed(report@);
            report.push(Delivery { user: id, token: conns[at].token(), accepted });
            at += 1;
            assert(addressed(report@) =~= before.push((id, conns@[at - 1]@)));
            assert(addressed(report@) =~= tokens(conns@).map_values(|t: u64| (id, t)).subrange(
                0,
                at as int,
            ));
        }
        assert(addressed(report@) =~= tokens(conns@).map_values(|t: u64| (id, t)));
        report
    }

    /// Offers a copy of `message` to every connection that the user `id` has
    /// open, oldest first, and reports each attempt. The registry stays as it
    /// is. A user without connections is no error: the report is then empty.
    pub fn send(registry: &ConnectionRegistry, id: i32, message: &str) -> (outcome: Result<
        Vec<Delivery>,
        WssError,
    >)
        ensures
            outcome is Ok,
            outcome matches Ok(report) ==> addressed(report@) == targets(registry@, id),
            outcome matches Ok(report) ==> (!registry@.contains_key(id) ==> report@.len() == 0),
    {
        let conns = registry.snapshot(id);
        let report = Self::deliver(id, &conns, message);
        assert(addressed(report@).len() == report@.len());
        Ok(report)
    }

    /// Builds the event once and sends it to each of `ids` in turn. Users
    /// without connections are passed over; they keep nothing from the
    /// others. Data that is no JSON is refused before anything is sent.
    pub fn fan_out(
        registry: &ConnectionRegistry,
        ids: Vec<i32>,
        kind: String,
        data: Payload,
    ) -> (outcome: Result<Vec<Delivery>, WssError>)
        ensures
            match outcome {
                Ok(report) => wire_data(data@) is Some && addressed(report@) == fanout(
                    registry@,
                    ids@,
                ),
                Err(e) => wire_data(data@) is None && e == WssError::Serialize,
            },
            outcome matches Ok(report) ==> ((forall|i: int|
                0 <= i < ids@.len() ==> !registry@.contains_key(#[trigger] ids@[i]))
                ==> report@.len() == 0),
    {
        let message = match Self::serialize(kind, data) {
            Ok(message) => message,
            Err(e) => {
                return Err(e);
            },
        };
        let mut report: Vec<Delivery> = Vec::new();
        let mut at: usize = 0;
        while at < ids.len()
            invariant
                at <= ids.len(),
                addressed(report@) == fanout(registry@, ids@.subrange(0, at as int)),
            decreases ids.len() - at,
        {
            let ghost before = addressed(report@);
            match Self::send(registry, ids[at], message.as_str()) {
                Ok(mut part) => {
                    let ghost added = addressed(part@);
                    report.append(&mut part);
                    assert(addressed(report@) =~= before + added);
                },
                Err(e) => {
                    return Err(e);
                },
            }
            at += 1;
            assert(ids@.subrange(0, at as int).drop_last() =~= ids@.subrange(0, at - 1));
        }
        proof {
            assert(ids@.subrange(0, at as int) =~= ids@);
            assert(addressed(report@).len() == report@.len());
            if forall|i: int| 0 <= i < ids@.len() ==> !registry@.contains_key(#[trigger] ids@[i]) {
                lemma_fanout_absent_users(registry@, ids@);
            }
        }
        Ok(report)
    }

    /// Sends one event to each of `ids`: [`WssService::fan_out`] under the
    /// name by which callers know it.
    pub fn broadcast(
        registry: &ConnectionRegistry,
        ids: Vec<i32>,
        kind: String,
        data: Payload,
    ) -> (outcome: Result<Vec<Delivery>, WssError>)
        ensures
            match outcome {
                Ok(report) => wire_data(data@) is Some && addressed(report@) == fanout(
                    registry@,
                    ids@,
                ),
                Err(e) => wire_data(data@) is None && e == WssError::Serialize,
            },
            outcome matches Ok(report) ==> ((forall|i: int|
                0 <= i < ids@.len() ==> !registry@.contains_key(#[trigger] ids@[i]))
                ==> report@.len() == 0),
    {
        Self::fan_out(registry, ids, kind, data)
    }

    /// Registers a new connection of the user `id` and says what its arrival
    /// means for the user's presence. The answer holds the connection's token,
    /// under which the registry holds the queue `connection`. It is `None`,
    /// and nothing has changed, when the registry has no token left.
    pub fn connect(
        registry: &mut ConnectionRegistry,
        id: i32,
        connection: UnboundedSender<String>,
    ) -> (opened: Option<(u64, StatusUpdate)>)
        ensures
            final(registry).wf(),
            old(registry).issued() < u64::MAX ==> {
                &&& opened matches Some((token, update))
                &&& token == old(registry).issued()
                &&& update@ == online_update(id)
                &&& final(registry)@ == registered(old(registry)@, id, token)
                &&& final(registry).issued() == old(registry).issued() + 1
                &&& final(registry).queue(id, token) == connection
            },
            old(registry).issued() >= u64::MAX ==> {
                &&& opened is None
                &&& final(registry)@ == old(registry)@
                &&& final(registry).issued() == old(registry).issued()
            },
            old(registry).queues_kept(final(registry)),
    {
        match registry.register(id, connection) {
            Some(token) => Some((token, StatusService::online(id))),
            None => None,
        }
    }

    /// Takes the connection `token` of the user `id` out of the registry and
    /// says what its departure means for the user's presence. The user's
    /// other connections stay registered.
    pub fn disconnect(
        registry: &mut ConnectionRegistry,
        id: i32,
        token: u64,
        last_seen: &Timestamp,
    ) -> (update: StatusUpdate)
        ensures
            final(registry).wf(),
            final(registry)@ == deregistered(old(registry)@, id, token),
            final(registry).issued() == old(registry).issued(),
            old(registry).queues_kept(final(registry)),
            update@ == offline_update(id, last_seen@),
    {
        registry.deregister(id, token);
        StatusService::offline(id, last_seen)
    }
}

} // verus!
