//! Laws of the gateway: what holds of the registry, of fan-out and of a
//! session whatever the order in which things happen.

use crate::decimal::{decimal_text, lemma_decimal_injective};
use crate::json::{json_compact, json_quote, PayloadView};
use crate::service::registry::{deregistered, registered, registry_wf, tokens_of, without};
use crate::service::registry::{lemma_deregister_undoes_register, lemma_deregistered_wf};
use crate::service::registry::{lemma_registered_wf, lemma_without_contains};
use crate::service::registry::lemma_without_is_remove;
use crate::service::session::{step, SessionActionView, SessionEvent, SessionState, Step};
use crate::service::status::{playing_update, status_key, PresenceStateView, StatusUpdateView};
use crate::service::wss::{envelope_text, fanout, lemma_fanout_absent_users, reply};
use crate::service::wss::{targets, wire_text, EventPlay, Frame, WssError, WssMessage};
use vstd::prelude::*;

verus! {

/// One thing that happens to the registry.
pub enum Change {
    /// A connection of the user opens and is registered.
    Connect(i32),
    /// The connection of the user with this token closes and is deregistered.
    Disconnect(i32, u64),
}

/// The registry, and the number of tokens issued, after one change.
pub open spec fn changed(m: Map<i32, Seq<u64>>, issued: nat, change: Change) -> (
    Map<i32, Seq<u64>>,
    nat,
) {
    match change {
        Change::Connect(user) => if issued < u64::MAX {
            (registered(m, user, issued as u64), issued + 1)
        } else {
            (m, issued)
        },
        Change::Disconnect(user, token) => (deregistered(m, user, token), issued),
    }
}

/// The registry after a series of changes, one after the other.
pub open spec fn replayed(m: Map<i32, Seq<u64>>, issued: nat, changes: Seq<Change>) -> (
    Map<i32, Seq<u64>>,
    nat,
)
    decreases changes.len(),
{
    if changes.len() == 0 {
        (m, issued)
    } else {
        let (before, n) = replayed(m, issued, changes.drop_last());
        changed(before, n, changes.last())
    }
}

/// The connections of `user` that are open after a series of changes: a
/// connection is open from the change that opened it to the change that
/// closes it. `open` holds those that were open before, `issued` the token
/// that the next connection gets, whoever opens it.
pub open spec fn still_open(user: i32, open: Set<u64>, issued: nat, changes: Seq<Change>) -> (
    Set<u64>,
    nat,
)
    decreases changes.len(),
{
    if changes.len() == 0 {
        (open, issued)
    } else {
        let (before, n) = still_open(user, open, issued, changes.drop_last());
        match changes.last() {
            Change::Connect(who) => if n < u64::MAX {
                (
                    if who == user {
                        before.insert(n as u64)
                    } else {
                        before
                    },
                    n + 1,
                )
            } else {
                (before, n)
            },
            Change::Disconnect(who, token) => (
                if who == user {
                    before.remove(token)
                } else {
                    before
                },
                n,
            ),
        }
    }
}

/// The connections of `user` that are open after a series of changes to the
/// registry `m`, and the token that the next connection gets.
pub open spec fn open_after(m: Map<i32, Seq<u64>>, issued: nat, user: i32, changes: Seq<Change>) -> (
    Set<u64>,
    nat,
) {
    still_open(user, tokens_of(m, user).to_set(), issued, changes)
}

/// After any series of connects and disconnects, of one user or of many and
/// in any order, the registry holds for each user exactly the connections of
/// that user that are still open, and it has an entry for the user if and
/// only if at least one of them is.
pub proof fn lemma_entry_iff_open(m: Map<i32, Seq<u64>>, issued: nat, user: i32, changes: Seq<Change>)
    requires
        registry_wf(m, issued),
    ensures
        registry_wf(replayed(m, issued, changes).0, replayed(m, issued, changes).1),
        replayed(m, issued, changes).1 == open_after(m, issued, user, changes).1,
        tokens_of(replayed(m, issued, changes).0, user).to_set() == open_after(
            m,
            issued,
            user,
            changes,
        ).0,
        replayed(m, issued, changes).0.contains_key(user) <==> exists|t: u64|
            open_after(m, issued, user, changes).0.contains(t),
    decreases changes.len(),
{
    if changes.len() == 0 {
        let listed = tokens_of(m, user);
        if m.contains_key(user) {
            assert(listed.to_set().contains(listed[0]));
        }
    } else {
        lemma_entry_iff_open(m, issued, user, changes.drop_last());
        let (before, n) = replayed(m, issued, changes.drop_last());
        let (after, _) = replayed(m, issued, changes);
        let (open_before, _) = open_after(m, issued, user, changes.drop_last());
        let (open, _) = open_after(m, issued, user, changes);
        let listed = tokens_of(before, user);
        match changes.last() {
            Change::Connect(who) => {
                if n < u64::MAX {
                    let token = n as u64;
                    lemma_registered_wf(before, n, who);
                    if who == user {
                        let grown = listed.push(token);
                        assert(grown[grown.len() - 1] == token);
                        assert forall|t: u64| grown.contains(t) <==> listed.contains(t) || t
                            == token by {
                            if listed.contains(t) {
                                let i = choose|i: int| 0 <= i < listed.len() && listed[i] == t;
                                assert(grown[i] == t);
                            }
                        }
                        assert(tokens_of(after, user).to_set() =~= open);
                        assert(open.contains(token));
                    } else {
                        assert(tokens_of(after, user) == listed);
                        assert(open == open_before);
                        assert(after.contains_key(user) == before.contains_key(user));
                    }
                } else {
                    assert(after == before);
                    assert(open == open_before);
                }
            },
            Change::Disconnect(who, token) => {
                lemma_deregistered_wf(before, n, who, token);
                if who == user {
                    let rest = without(listed, token);
                    assert(tokens_of(after, user) == rest);
                    assert forall|t: u64| rest.contains(t) <==> listed.contains(t) && t
                        != token by {
                        lemma_without_contains(listed, token, t);
                    }
                    assert(tokens_of(after, user).to_set() =~= open);
                    if after.contains_key(user) {
                        assert(open.contains(rest[0]));
                    }
                } else {
                    assert(tokens_of(after, user) == listed);
                    assert(open == open_before);
                    assert(after.contains_key(user) == before.contains_key(user));
                }
            },
        }
    }
}

/// Taking one connection of a user out of the registry leaves every other
/// connection of the user registered, whichever came first.
pub proof fn lemma_other_connection_stays(
    m: Map<i32, Seq<u64>>,
    issued: nat,
    user: i32,
    gone: u64,
    other: u64,
)
    requires
        registry_wf(m, issued),
        tokens_of(m, user).contains(other),
        other != gone,
    ensures
        deregistered(m, user, gone).contains_key(user),
        tokens_of(deregistered(m, user, gone), user).contains(other),
        targets(deregistered(m, user, gone), user).contains((user, other)),
{
    let after = deregistered(m, user, gone);
    let rest = without(tokens_of(m, user), gone);
    lemma_without_contains(tokens_of(m, user), gone, other);
    let i = choose|i: int| 0 <= i < rest.len() && rest[i] == other;
    assert(after.contains_key(user));
    assert(tokens_of(after, user) == rest);
    assert(targets(after, user)[i] == (user, other));
}

/// A broadcast to two lists of users, one after the other, addresses what a
/// broadcast to the first addresses and then what a broadcast to the second
/// does: no user stands in the way of another.
pub proof fn lemma_fanout_concat(m: Map<i32, Seq<u64>>, first: Seq<i32>, second: Seq<i32>)
    ensures
        fanout(m, first + second) == fanout(m, first) + fanout(m, second),
    decreases second.len(),
{
    if second.len() == 0 {
        assert(first + second =~= first);
        assert(fanout(m, first) + fanout(m, second) =~= fanout(m, first));
    } else {
        lemma_fanout_concat(m, first, second.drop_last());
        assert((first + second).drop_last() =~= first + second.drop_last());
        assert((first + second).last() == second.last());
        assert(fanout(m, first + second) =~= fanout(m, first) + fanout(m, second));
    }
}

/// In a broadcast, a user without an entry changes nothing for the others:
/// with the user or without, the same connections are addressed.
pub proof fn lemma_fanout_passes_over_absent(
    m: Map<i32, Seq<u64>>,
    first: Seq<i32>,
    absent: i32,
    second: Seq<i32>,
)
    requires
        !m.contains_key(absent),
    ensures
        fanout(m, first + seq![absent] + second) == fanout(m, first + second),
{
    lemma_fanout_concat(m, first + seq![absent], second);
    lemma_fanout_concat(m, first, seq![absent]);
    lemma_fanout_concat(m, first, second);
    lemma_fanout_absent_users(m, seq![absent]);
    assert(fanout(m, first) + Seq::<(i32, u64)>::empty() =~= fanout(m, first));
}

/// An event for one user addresses the connections of that user.
pub proof fn lemma_fanout_single(m: Map<i32, Seq<u64>>, user: i32)
    ensures
        fanout(m, seq![user]) == targets(m, user),
{
    reveal_with_fuel(fanout, 2);
    assert(seq![user].drop_last() =~= Seq::<i32>::empty());
    assert(seq![user].last() == user);
    assert(fanout(m, seq![user]) =~= targets(m, user));
}

/// With one user who has one connection and another who has none, an event
/// for the two addresses that one connection once, whichever user is named
/// first.
pub proof fn lemma_fanout_one_present_one_absent(
    m: Map<i32, Seq<u64>>,
    present: i32,
    token: u64,
    absent: i32,
)
    requires
        tokens_of(m, present) == seq![token],
        !m.contains_key(absent),
    ensures
        fanout(m, seq![present, absent]) == seq![(present, token)],
        fanout(m, seq![absent, present]) == seq![(present, token)],
{
    let none = Seq::<i32>::empty();
    lemma_fanout_passes_over_absent(m, seq![present], absent, none);
    lemma_fanout_passes_over_absent(m, none, absent, seq![present]);
    assert(seq![present] + seq![absent] + none =~= seq![present, absent]);
    assert(none + seq![absent] + seq![present] =~= seq![absent, present]);
    assert(seq![present] + none =~= seq![present]);
    assert(none + seq![present] =~= seq![present]);
    lemma_fanout_single(m, present);
    assert(targets(m, present) =~= seq![(present, token)]);
}

/// After two connections of a user were opened and the first was closed, an
/// event for the user addresses the second connection and not the first.
pub proof fn lemma_fanout_after_disconnect(m: Map<i32, Seq<u64>>, issued: nat, user: i32)
    requires
        registry_wf(m, issued),
        !m.contains_key(user),
        issued + 1 < u64::MAX,
    ensures
        ({
            let first = issued as u64;
            let second = (issued + 1) as u64;
            let opened = registered(registered(m, user, first), user, second);
            fanout(deregistered(opened, user, first), seq![user]) == seq![(user, second)]
        }),
{
    let first = issued as u64;
    let second = (issued + 1) as u64;
    let opened = registered(registered(m, user, first), user, second);
    let listed = tokens_of(opened, user);
    assert(listed =~= seq![first, second]);
    assert(listed.no_duplicates());
    lemma_without_is_remove(listed, first, 0);
    assert(listed.remove(0) =~= seq![second]);
    let after = deregistered(opened, user, first);
    assert(tokens_of(after, user) =~= seq![second]);
    lemma_fanout_single(after, user);
    assert(targets(after, user) =~= seq![(user, second)]);
}

/// A bare string that spells out a JSON document goes on the wire as that
/// document, not as a string around it. Any other bare string goes as a JSON
/// string. Neither fails.
pub proof fn lemma_string_payload_on_the_wire(kind: Seq<char>, text: Seq<char>)
    ensures
        wire_text(kind, PayloadView::Text(text)) == Ok::<Seq<char>, WssError>(
            envelope_text(
                kind,
                match json_compact(text) {
                    Some(document) => document,
                    None => json_quote(text),
                },
            ),
        ),
{
}

/// A message with the tag `play` that names a server makes the cache entry of
/// the session's user say that the user plays there.
pub proof fn lemma_play_sets_presence(user: i32, message: WssMessage, server: i32)
    requires
        message.kind@ == "play"@,
        message.play == Some(EventPlay { server }),
        server != 0,
    ensures
        reply(user, Frame::Message(message)) == Ok::<Option<StatusUpdateView>, WssError>(
            Some(playing_update(user, server)),
        ),
        playing_update(user, server).key == status_key(user as int),
        playing_update(user, server).state == (PresenceStateView::Playing { server }),
{
}

/// A message with any other tag than `play`, a tag that differs from it in
/// case too, is accepted and changes nothing.
pub proof fn lemma_other_tags_are_ignored(user: i32, message: WssMessage)
    requires
        message.kind@ != "play"@,
    ensures
        reply(user, Frame::Message(message)) == Ok::<Option<StatusUpdateView>, WssError>(None),
{
}

/// No two users share a cache entry: users with the same key are the same
/// user.
pub proof fn lemma_one_key_one_user(a: i32, b: i32)
    requires
        status_key(a as int) == status_key(b as int),
    ensures
        a == b,
{
    let prefix = "status:"@;
    let ka = status_key(a as int);
    let kb = status_key(b as int);
    assert(decimal_text(a as int) =~= ka.subrange(prefix.len() as int, ka.len() as int));
    assert(decimal_text(b as int) =~= kb.subrange(prefix.len() as int, kb.len() as int));
    lemma_decimal_injective(a as int, b as int);
}

/// A session that is `Closed` stays so, whatever is reported to it: it
/// touches the registry no more and asks for nothing.
pub proof fn lemma_closed_is_final(
    user: i32,
    registry: Map<i32, Seq<u64>>,
    issued: nat,
    event: SessionEvent,
)
    ensures
        step(user, SessionState::Closed, registry, issued, event).state == SessionState::Closed,
        step(user, SessionState::Closed, registry, issued, event).registry == registry,
        step(user, SessionState::Closed, registry, issued, event).issued == issued,
        step(user, SessionState::Closed, registry, issued, event).action
            == SessionActionView::Nothing,
{
}

/// A session changes the registry in two steps only: when it opens, and when
/// it is closed for good. While it is `Open` or `Closing`, its connection
/// stays registered as far as the session is concerned.
pub proof fn lemma_registry_changes_at_the_ends(
    user: i32,
    state: SessionState,
    registry: Map<i32, Seq<u64>>,
    issued: nat,
    event: SessionEvent,
)
    ensures
        ({
            let next = step(user, state, registry, issued, event);
            let opens = state == SessionState::Connecting && next.state is Open;
            let closes = state is Closing && next.state == SessionState::Closed;
            !opens && !closes ==> next.registry == registry && next.issued == issued
        }),
{
}

/// No connection outlives its transport: once the transport of an open
/// session is lost and its writer has stopped, the session is `Closed` and
/// its token is in the registry no more.
pub proof fn lemma_lost_session_leaves(
    user: i32,
    token: u64,
    registry: Map<i32, Seq<u64>>,
    issued: nat,
    stopped: SessionEvent,
)
    requires
        stopped is Stopped,
    ensures
        ({
            let lost = step(user, SessionState::Open { token }, registry, issued, SessionEvent::Lost);
            let last = step(user, lost.state, lost.registry, lost.issued, stopped);
            &&& lost.state == SessionState::Closing { token }
            &&& lost.action == SessionActionView::Stop
            &&& last.state == SessionState::Closed
            &&& last.registry == deregistered(registry, user, token)
            &&& !tokens_of(last.registry, user).contains(token)
        }),
{
    let after = deregistered(registry, user, token);
    lemma_without_contains(tokens_of(registry, user), token, token);
    assert(tokens_of(after, user) =~= without(tokens_of(registry, user), token));
}

/// Where a session that starts `Connecting` stands after a series of events,
/// and what it has made of the registry. The action is that of the last
/// event.
pub open spec fn run(
    user: i32,
    registry: Map<i32, Seq<u64>>,
    issued: nat,
    events: Seq<SessionEvent>,
) -> Step
    decreases events.len(),
{
    if events.len() == 0 {
        Step {
            state: SessionState::Connecting,
            registry,
            issued,
            action: SessionActionView::Nothing,
        }
    } else {
        let before = run(user, registry, issued, events.drop_last());
        step(user, before.state, before.registry, before.issued, events.last())
    }
}

/// What holds between a session and the registry at every point of the
/// session's life, `registry` and `issued` being what the session found.
/// Before the handshake the registry is as the session found it. While the
/// session is `Open` or `Closing`, its connection is registered, under the
/// one token that the registry issued for it. Once it is `Closed`, the
/// registry is again as the session found it.
pub open spec fn in_order(user: i32, registry: Map<i32, Seq<u64>>, issued: nat, now: Step) -> bool {
    &&& registry_wf(now.registry, now.issued)
    &&& match now.state {
        SessionState::Connecting => now.registry == registry && now.issued == issued,
        SessionState::Open { token } | SessionState::Closing { token } => {
            &&& token == issued
            &&& issued < u64::MAX
            &&& now.registry == registered(registry, user, token)
            &&& tokens_of(now.registry, user).contains(token)
            &&& now.issued == issued + 1
        },
        SessionState::Closed => now.registry == registry && issued <= now.issued <= issued + 1,
    }
}

/// The life of a session, whatever is reported to it and in whatever order,
/// as long as nothing else touches the registry: the session and the
/// registry are [`in_order`] all along. In particular a session leaves
/// nothing behind.
pub proof fn lemma_session_life(
    user: i32,
    registry: Map<i32, Seq<u64>>,
    issued: nat,
    events: Seq<SessionEvent>,
)
    requires
        registry_wf(registry, issued),
    ensures
        in_order(user, registry, issued, run(user, registry, issued, events)),
    decreases events.len(),
{
    if events.len() > 0 {
        lemma_session_life(user, registry, issued, events.drop_last());
        let before = run(user, registry, issued, events.drop_last());
        let after = run(user, registry, issued, events);
        match (before.state, events.last()) {
            (SessionState::Connecting, SessionEvent::Accepted(_)) => {
                if issued < u64::MAX {
                    lemma_registered_wf(registry, issued, user);
                    let grown = tokens_of(registry, user).push(issued as u64);
                    assert(grown[grown.len() - 1] == issued as u64);
                }
            },
            (SessionState::Closing { token }, SessionEvent::Stopped(_)) => {
                lemma_deregister_undoes_register(registry, issued, user);
            },
            _ => {},
        }
    }
}

} // verus!
