//! The session of one connection, as a state machine.
//!
//! A session is `Connecting` until the handshake is done, `Open` while frames
//! come and go, `Closing` once the transport has closed or failed, and
//! `Closed` when the connection has left the registry. The caller owns the
//! transport: it reports what happened as a [`SessionEvent`] and carries out
//! the [`SessionAction`] it gets back.
//!
//! Presence follows the single connection, not the number of connections a
//! user has: every session that opens reports its user online, and every
//! session that closes reports its user offline, also while another session
//! of the same user is open.

use crate::service::registry::{deregistered, registered, ConnectionRegistry};
use crate::service::status::{offline_update, online_update, StatusUpdate, StatusUpdateView};
use crate::service::status::Timestamp;
use crate::service::wss::{handle_message, reply, Frame, WssService};
use tokio::sync::mpsc::UnboundedSender;
use vstd::prelude::*;

verus! {

/// Where a session stands.
#[derive(Debug, Clone, Copy, PartialEq, Eq)]
pub enum SessionState {
    /// The handshake is under way.
    Connecting,
    /// The connection is registered under the token.
    Open { token: u64 },
    /// The transport is gone; the connection is still registered.
    Closing { token: u64 },
    /// The connection has left the registry. Nothing follows.
    Closed,
}

/// What the caller reports to a session.
pub enum SessionEvent {
    /// The handshake succeeded. The value is the producing half of the queue
    /// from which the session's writer feeds the transport.
    Accepted(UnboundedSender<String>),
    /// The transport delivered a frame.
    Received(Frame),
    /// The transport failed or came to its end.
    Lost,
    /// The writer has stopped, at the given time.
    Stopped(Timestamp),
}

/// What the caller is to do after a report.
#[derive(Debug, PartialEq, Eq)]
pub enum SessionAction {
    /// Nothing.
    Nothing,
    /// Carry out the presence update.
    Update(StatusUpdate),
    /// Stop the writer and let go of the transport, then report
    /// [`SessionEvent::Stopped`].
    Stop,
}

/// The mathematical content of a [`SessionAction`].
pub enum SessionActionView {
    Nothing,
    Update(StatusUpdateView),
    Stop,
}

impl View for SessionAction {
    type V = SessionActionView;

    open spec fn view(&self) -> SessionActionView {
        match self {
            SessionAction::Nothing => SessionActionView::Nothing,
            SessionAction::Update(update) => SessionActionView::Update(update@),
            SessionAction::Stop => SessionActionView::Stop,
        }
    }
}

/// The session of one connection of one user.
pub struct ConnectionSession {
    user: i32,
    state: SessionState,
}

impl ConnectionSession {
    /// The user the session belongs to.
    pub closed spec fn spec_user(&self) -> i32 {
        self.user
    }

    /// Where the session stands.
    pub closed spec fn spec_state(&self) -> SessionState {
        self.state
    }

    /// A session whose handshake is under way.
    pub fn new(user: i32) -> (session: Self)
        ensures
            session.spec_user() == user,
            session.spec_state() == SessionState::Connecting,
    {
        ConnectionSession { user, state: SessionState::Connecting }
    }

    /// The user the session belongs to.
    #[verifier::when_used_as_spec(spec_user)]
    pub fn user(&self) -> (user: i32)
        ensures
            user == self.spec_user(),
    {
        self.user
    }

    /// Where the session stands.
    #[verifier::when_used_as_spec(spec_state)]
    pub fn state(&self) -> (state: SessionState)
        ensures
            state == self.spec_state(),
    {
        self.state
    }
}

/// One step of a session: the state it is in after an event, the registry
/// after it, and what the caller is to do.
pub struct Step {
    pub state: SessionState,
    pub registry: Map<i32, Seq<u64>>,
    pub issued: nat,
    pub action: SessionActionView,
}

/// The step that the session of `user` takes from `state` on `event`, with
/// the registry holding `registry` after `issued` tokens.
///
/// - `Connecting`, handshake done: the connection is registered, the session
///   is `Open` and the user online. With no token left the session is
///   `Closed` at once and the caller stops.
/// - `Open`, a frame: a close frame makes the session `Closing` and the
///   caller stop; a `play` message updates the presence; any other frame
///   changes nothing.
/// - `Open`, transport lost: the session is `Closing` and the caller stops.
/// - `Closing`, writer stopped: the connection leaves the registry, the
///   session is `Closed` and the user offline.
/// - Any other pair changes nothing.
pub open spec fn step(
    user: i32,
    state: SessionState,
    registry: Map<i32, Seq<u64>>,
    issued: nat,
    event: SessionEvent,
) -> Step {
    let stay = Step { state, registry, issued, action: SessionActionView::Nothing };
    match (state, event) {
        (SessionState::Connecting, SessionEvent::Accepted(_)) => if issued < u64::MAX {
            Step {
                state: SessionState::Open { token: issued as u64 },
                registry: registered(registry, user, issued as u64),
                issued: issued + 1,
                action: SessionActionView::Update(online_update(user)),
            }
        } else {
            Step { state: SessionState::Closed, registry, issued, action: SessionActionView::Stop }
        },
        (SessionState::Open { token }, SessionEvent::Received(frame)) => match reply(user, frame) {
            Ok(Some(update)) => Step {
                state,
                registry,
                issued,
                action: SessionActionView::Update(update),
            },
            Ok(None) => stay,
            Err(_) => Step {
                state: SessionState::Closing { token },
                registry,
                issued,
                action: SessionActionView::Stop,
            },
        },
        (SessionState::Open { token }, SessionEvent::Lost) => Step {
            state: SessionState::Closing { token },
            registry,
            issued,
            action: SessionActionView::Stop,
        },
        (SessionState::Closing { token }, SessionEvent::Stopped(at)) => Step {
            state: SessionState::Closed,
            registry: deregistered(registry, user, token),
            issued,
            action: SessionActionView::Update(offline_update(user, at@)),
        },
        _ => stay,
    }
}

/// What a step left behind, put together for comparison with [`step`].
pub open spec fn left_behind(
    session: ConnectionSession,
    registry: ConnectionRegistry,
    action: SessionAction,
) -> Step {
    Step {
        state: session.state(),
        registry: registry@,
        issued: registry.issued(),
        action: action@,
    }
}

/// Whether a session that the handshake has just opened is registered with
/// the queue that came with the handshake. It says nothing of any other
/// step.
pub open spec fn queue_registered(
    before: SessionState,
    event: SessionEvent,
    session: ConnectionSession,
    registry: ConnectionRegistry,
) -> bool {
    match (before, event, session.state()) {
        (
            SessionState::Connecting,
            SessionEvent::Accepted(sender),
            SessionState::Open { token },
        ) => registry.queue(session.user(), token) == sender,
        _ => true,
    }
}

impl WssService {
    /// Takes one event of a session and says what to do next. The session
    /// and the registry change as [`step`] says. A session that opens has its
    /// queue registered under its token, and no step changes the queue of
    /// another connection.
    pub fn socket_handler(
        session: &mut ConnectionSession,
        registry: &mut ConnectionRegistry,
        event: SessionEvent,
    ) -> (action: SessionAction)
        ensures
            final(registry).wf(),
            final(session).user() == old(session).user(),
            left_behind(*final(session), *final(registry), action) == step(
                old(session).user(),
                old(session).state(),
                old(registry)@,
                old(registry).issued(),
                event,
            ),
            old(registry).queues_kept(final(registry)),
            queue_registered(old(session).state(), event, *final(session), *final(registry)),
    {
        proof {
            use_type_invariant(&*registry);
        }
        match (session.state, event) {
            (SessionState::Connecting, SessionEvent::Accepted(sender)) => {
                match Self::connect(registry, session.user, sender) {
                    Some((token, update)) => {
                        session.state = SessionState::Open { token };
                        SessionAction::Update(update)
                    },
                    None => {
                        session.state = SessionState::Closed;
                        SessionAction::Stop
                    },
                }
            },
            (SessionState::Open { token }, SessionEvent::Received(frame)) => {
                match handle_message(session.user, frame) {
                    Ok(Some(update)) => SessionAction::Update(update),
                    Ok(None) => SessionAction::Nothing,
                    Err(_) => {
                        session.state = SessionState::Closing { token };
                        SessionAction::Stop
                    },
                }
            },
            (SessionState::Open { token }, SessionEvent::Lost) => {
                session.state = SessionState::Closing { token };
                SessionAction::Stop
            },
            (SessionState::Closing { token }, SessionEvent::Stopped(at)) => {
                let update = Self::disconnect(registry, session.user, token, &at);
                session.state = SessionState::Closed;
                SessionAction::Update(update)
            },
            _ => SessionAction::Nothing,
        }
    }
}

} // verus!
