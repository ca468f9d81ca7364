//! The connection registry: which connections each user has open.
//!
//! A connection is known by the token that the registry issued for it. Tokens
//! are issued in increasing order and never reused, so removing a connection
//! by its token can never evict another one.

use std::collections::HashMap;
use tokio::sync::mpsc::UnboundedSender;
use vstd::prelude::*;

verus! {

broadcast use vstd::std_specs::hash::group_hash_axioms;

/// The producing half of tokio's unbounded channel. A value of this type is a
/// handle to one channel and holds nothing else.
#[verifier::external_type_specification]
#[verifier::external_body]
#[verifier::reject_recursive_types(T)]
pub struct ExUnboundedSender<T>(UnboundedSender<T>);

/// Calls `UnboundedSender::send` of tokio. The answer is `None` where the
/// channel took the frame, and the frame where it did not.
///
/// Assumed, not proved: a frame that the channel refuses comes back as it was
/// handed over, which is what tokio says of the error of `send`. Nothing is
/// assumed of whether the channel takes a frame: it refuses once its
/// receiving half is closed or dropped, which the sender cannot know.
#[verifier::external_body]
fn channel_send(sender: &UnboundedSender<String>, frame: String) -> (refused: Option<String>)
    ensures
        refused matches Some(back) ==> back@ == frame@,
{
    match sender.send(frame) {
        Ok(()) => None,
        Err(error) => Some(error.0),
    }
}

/// Calls `clone` on tokio's `UnboundedSender`.
///
/// Assumed, not proved: the clone is the handle it was made from. tokio makes
/// it of a shared pointer to the same channel and of nothing else, and says
/// of a sender and its clone that they belong to the same channel.
#[verifier::external_body]
fn channel_share(sender: &UnboundedSender<String>) -> (copy: UnboundedSender<String>)
    ensures
        copy == *sender,
{
    sender.clone()
}

/// One open connection as the registry sees it: its token and the producing
/// half of its outbound queue.
///
/// The queue is unbounded. A connection that is slow to write piles its
/// frames up and holds no other connection back.
pub struct Connection {
    token: u64,
    sender: UnboundedSender<String>,
}

impl View for Connection {
    type V = u64;

    /// A connection is identified by its token.
    closed spec fn view(&self) -> u64 {
        self.token
    }
}

impl Connection {
    /// The queue that the connection feeds: the producing half that was
    /// registered for it.
    pub closed spec fn queue(&self) -> UnboundedSender<String> {
        self.sender
    }

    /// The token under which the connection is registered.
    pub fn token(&self) -> (token: u64)
        ensures
            token == self@,
    {
        self.token
    }

    /// Puts a frame on the connection's outbound queue. The answer is `None`
    /// where the queue took the frame. Where the session behind the
    /// connection has gone away the queue takes nothing, and the frame comes
    /// back as it was.
    pub(crate) fn enqueue(&self, frame: String) -> (refused: Option<String>)
        ensures
            refused matches Some(back) ==> back@ == frame@,
    {
        channel_send(&self.sender, frame)
    }

    /// Another handle to the same connection: it has the same token and feeds
    /// the same queue.
    pub fn share(&self) -> (copy: Connection)
        ensures
            copy@ == self@,
            copy.queue() == self.queue(),
    {
        Connection { token: self.token, sender: channel_share(&self.sender) }
    }
}

/// The tokens of a list of connections, in order.
pub open spec fn tokens(conns: Seq<Connection>) -> Seq<u64> {
    conns.map_values(|c: Connection| c@)
}

/// The queue that a list of connections holds under `token`.
pub open spec fn queue_of(conns: Seq<Connection>, token: u64) -> UnboundedSender<String> {
    conns[tokens(conns).index_of(token)].queue()
}

/// In a list of connections whose tokens do not repeat, the queue held under
/// the token of a place is the queue at that place.
pub proof fn lemma_queue_at(conns: Seq<Connection>, place: int)
    requires
        tokens(conns).no_duplicates(),
        0 <= place < conns.len(),
    ensures
        queue_of(conns, conns[place]@) == conns[place].queue(),
{
    let listed = tokens(conns);
    assert(listed[place] == conns[place]@);
    let found = listed.index_of(conns[place]@);
    assert(0 <= found < listed.len() && listed[found] == conns[place]@);
}

/// The tokens registered for `user`, oldest first; empty where the user has
/// no entry.
pub open spec fn tokens_of(m: Map<i32, Seq<u64>>, user: i32) -> Seq<u64> {
    if m.contains_key(user) {
        m[user]
    } else {
        Seq::empty()
    }
}

/// The registry after `token` was appended to the connections of `user`.
pub open spec fn registered(m: Map<i32, Seq<u64>>, user: i32, token: u64) -> Map<i32, Seq<u64>> {
    m.insert(user, tokens_of(m, user).push(token))
}

/// The test that every token but `token` passes.
pub open spec fn other_than(token: u64) -> spec_fn(u64) -> bool {
    |t: u64| t != token
}

/// A list of tokens without `token`, the others in their order.
pub open spec fn without(s: Seq<u64>, token: u64) -> Seq<u64> {
    s.filter(other_than(token))
}

/// The registry after `token` was taken from the connections of `user`. An
/// entry that would be left empty is removed.
pub open spec fn deregistered(m: Map<i32, Seq<u64>>, user: i32, token: u64) -> Map<
    i32,
    Seq<u64>,
> {
    let rest = without(tokens_of(m, user), token);
    if rest.len() == 0 {
        m.remove(user)
    } else {
        m.insert(user, rest)
    }
}

/// What holds of every registry: no entry is empty, every token was issued,
/// and no token occurs twice, neither in one entry nor in two.
pub open spec fn registry_wf(m: Map<i32, Seq<u64>>, issued: nat) -> bool {
    &&& forall|u: i32| #[trigger] m.contains_key(u) ==> m[u].len() > 0
    &&& forall|u: i32, i: int|
        m.contains_key(u) && 0 <= i < m[u].len() ==> (#[trigger] m[u][i]) < issued
    &&& forall|u1: i32, i1: int, u2: i32, i2: int|
        #![trigger m[u1][i1], m[u2][i2]]
        m.contains_key(u1) && m.contains_key(u2) && 0 <= i1 < m[u1].len() && 0 <= i2 < m[u2].len()
            && (u1 != u2 || i1 != i2) ==> m[u1][i1] != m[u2][i2]
}

/// Filtering keeps a list in which every element passes.
pub proof fn lemma_without_absent(s: Seq<u64>, token: u64)
    requires
        !s.contains(token),
    ensures
        without(s, token) == s,
    decreases s.len(),
{
    reveal(Seq::filter);
    if s.len() > 0 {
        let front = s.drop_last();
        assert forall|i: int| 0 <= i < front.len() implies front[i] != token by {
            assert(s[i] == front[i]);
        }
        lemma_without_absent(front, token);
        assert(s.last() == s[s.len() - 1]);
        assert(front.push(s.last()) =~= s);
    }
}

/// In a list without repetitions, filtering a token out removes the one
/// place where it stands.
pub proof fn lemma_without_is_remove(s: Seq<u64>, token: u64, i: int)
    requires
        s.no_duplicates(),
        0 <= i < s.len(),
        s[i] == token,
    ensures
        without(s, token) == s.remove(i),
    decreases s.len(),
{
    reveal(Seq::filter);
    let front = s.drop_last();
    if i == s.len() - 1 {
        assert forall|k: int| 0 <= k < front.len() implies front[k] != token by {
            assert(s[k] == front[k]);
        }
        lemma_without_absent(front, token);
        assert(s.remove(i) =~= front);
    } else {
        assert(front.no_duplicates()) by {
            assert forall|a: int, b: int|
                0 <= a < front.len() && 0 <= b < front.len() && a != b implies front[a]
                != front[b] by {
                assert(front[a] == s[a] && front[b] == s[b]);
            }
        }
        lemma_without_is_remove(front, token, i);
        assert(s.last() != token);
        assert(front.remove(i).push(s.last()) =~= s.remove(i));
    }
}

/// What is left of a list after a token was filtered out: the other tokens, and
/// only they.
pub proof fn lemma_without_contains(s: Seq<u64>, token: u64, other: u64)
    ensures
        without(s, token).contains(other) <==> s.contains(other) && other != token,
{
    let keep = other_than(token);
    if without(s, token).contains(other) {
        let k = choose|k: int| 0 <= k < without(s, token).len() && without(s, token)[k] == other;
        s.lemma_filter_pred(keep, k);
        s.lemma_filter_contains_rev(keep, other);
    }
    if s.contains(other) && other != token {
        let i = choose|i: int| 0 <= i < s.len() && s[i] == other;
        s.lemma_filter_contains(keep, i);
    }
}

/// Filtering a token out of a list without repetitions leaves a list without
/// repetitions.
pub proof fn lemma_without_no_duplicates(s: Seq<u64>, token: u64)
    requires
        s.no_duplicates(),
    ensures
        without(s, token).no_duplicates(),
{
    if s.contains(token) {
        let i = choose|i: int| 0 <= i < s.len() && s[i] == token;
        lemma_without_is_remove(s, token, i);
        let rest = s.remove(i);
        assert forall|a: int, b: int|
            0 <= a < rest.len() && 0 <= b < rest.len() && a != b implies rest[a] != rest[b] by {
            let ja = if a < i {
                a
            } else {
                a + 1
            };
            let jb = if b < i {
                b
            } else {
                b + 1
            };
            assert(rest[a] == s[ja] && rest[b] == s[jb]);
        }
    } else {
        lemma_without_absent(s, token);
    }
}

/// The tokens of one user in a well-formed registry do not repeat.
pub proof fn lemma_entry_no_duplicates(m: Map<i32, Seq<u64>>, issued: nat, user: i32)
    requires
        registry_wf(m, issued),
    ensures
        tokens_of(m, user).no_duplicates(),
{
    let s = tokens_of(m, user);
    assert forall|a: int, b: int|
        0 <= a < s.len() && 0 <= b < s.len() && a != b implies s[a] != s[b] by {
        assert(m[user][a] != m[user][b]);
    }
}

/// Registering the next token keeps a registry well-formed.
pub proof fn lemma_registered_wf(m: Map<i32, Seq<u64>>, issued: nat, user: i32)
    requires
        registry_wf(m, issued),
        issued < u64::MAX,
    ensures
        registry_wf(registered(m, user, issued as u64), issued + 1),
{
    let token = issued as u64;
    let after = registered(m, user, token);
    let grown = tokens_of(m, user).push(token);
    assert forall|u: i32, i: int| after.contains_key(u) && 0 <= i < after[u].len() implies (
    #[trigger] after[u][i]) < issued + 1 by {
        if u == user {
            if i < grown.len() - 1 {
                assert(after[u][i] == m[u][i]);
            }
        } else {
            assert(after[u][i] == m[u][i]);
        }
    }
    assert forall|u1: i32, i1: int, u2: i32, i2: int|
        #![trigger after[u1][i1], after[u2][i2]]
        after.contains_key(u1) && after.contains_key(u2) && 0 <= i1 < after[u1].len() && 0 <= i2
            < after[u2].len() && (u1 != u2 || i1 != i2) implies after[u1][i1] != after[u2][i2] by {
        let new1 = u1 == user && i1 == grown.len() - 1;
        let new2 = u2 == user && i2 == grown.len() - 1;
        if !new1 {
            assert(after[u1][i1] == m[u1][i1]);
        }
        if !new2 {
            assert(after[u2][i2] == m[u2][i2]);
        }
    }
}

/// Deregistering a token keeps a registry well-formed.
pub proof fn lemma_deregistered_wf(m: Map<i32, Seq<u64>>, issued: nat, user: i32, token: u64)
    requires
        registry_wf(m, issued),
    ensures
        registry_wf(deregistered(m, user, token), issued),
{
    let after = deregistered(m, user, token);
    let listed = tokens_of(m, user);
    let rest = without(listed, token);
    lemma_entry_no_duplicates(m, issued, user);
    lemma_without_no_duplicates(listed, token);
    assert forall|i: int| 0 <= i < rest.len() implies exists|j: int|
        0 <= j < listed.len() && listed[j] == #[trigger] rest[i] by {
        lemma_without_contains(listed, token, rest[i]);
    }
    assert forall|u: i32, i: int| after.contains_key(u) && 0 <= i < after[u].len() implies (
    #[trigger] after[u][i]) < issued by {
        if u == user {
            let j = choose|j: int| 0 <= j < listed.len() && listed[j] == rest[i];
            assert(m[user][j] < issued);
        } else {
            assert(after[u][i] == m[u][i]);
        }
    }
    assert forall|u1: i32, i1: int, u2: i32, i2: int|
        #![trigger after[u1][i1], after[u2][i2]]
        after.contains_key(u1) && after.contains_key(u2) && 0 <= i1 < after[u1].len() && 0 <= i2
            < after[u2].len() && (u1 != u2 || i1 != i2) implies after[u1][i1] != after[u2][i2] by {
        if u1 == user && u2 == user {
            assert(rest[i1] != rest[i2]);
        } else if u1 == user {
            let j = choose|j: int| 0 <= j < listed.len() && listed[j] == rest[i1];
            assert(m[user][j] != m[u2][i2]);
        } else if u2 == user {
            let j = choose|j: int| 0 <= j < listed.len() && listed[j] == rest[i2];
            assert(m[u1][i1] != m[user][j]);
        } else {
            assert(m[u1][i1] != m[u2][i2]);
        }
    }
}

/// Deregistering the token that was registered last undoes the registration:
/// the registry is as it was before.
pub proof fn lemma_deregister_undoes_register(m: Map<i32, Seq<u64>>, issued: nat, user: i32)
    requires
        registry_wf(m, issued),
        issued < u64::MAX,
    ensures
        deregistered(registered(m, user, issued as u64), user, issued as u64) == m,
{
    let token = issued as u64;
    let listed = tokens_of(m, user);
    let grown = listed.push(token);
    assert(!listed.contains(token)) by {
        if listed.contains(token) {
            let i = choose|i: int| 0 <= i < listed.len() && listed[i] == token;
            assert(m[user][i] < issued);
        }
    }
    assert(without(grown, token) == listed) by {
        reveal(Seq::filter);
        assert(grown.drop_last() =~= listed);
        lemma_without_absent(listed, token);
    }
    assert(deregistered(registered(m, user, token), user, token) =~= m);
}

/// The registry of open connections, by user.
pub struct ConnectionRegistry {
    entries: HashMap<i32, Vec<Connection>>,
    issued: u64,
}

impl View for ConnectionRegistry {
    type V = Map<i32, Seq<u64>>;

    /// For each user with an open connection, the tokens of the user's
    /// connections, oldest first.
    closed spec fn view(&self) -> Map<i32, Seq<u64>> {
        view_of(self.entries@)
    }
}

/// The tokens behind each entry of the map that a registry holds.
spec fn view_of(entries: Map<i32, Vec<Connection>>) -> Map<i32, Seq<u64>> {
    Map::new(|u: i32| entries.contains_key(u), |u: i32| tokens(entries[u]@))
}

impl ConnectionRegistry {
    /// How many tokens the registry has issued. The next token is this number.
    pub closed spec fn issued(&self) -> nat {
        self.issued as nat
    }

    /// The queue that the connection `token` of `user` feeds. It means
    /// something where the user has that connection.
    pub closed spec fn queue(&self, user: i32, token: u64) -> UnboundedSender<String> {
        queue_of(self.entries@[user]@, token)
    }

    /// Whether the registry `later` holds every connection that it has in
    /// common with this one with the same queue.
    pub open spec fn queues_kept(&self, later: &ConnectionRegistry) -> bool {
        forall|u: i32, t: u64|
            tokens_of(self@, u).contains(t) && tokens_of(later@, u).contains(t) ==> #[trigger] later.queue(
                u,
                t,
            ) == self.queue(u, t)
    }

    /// The invariant of the registry, [`registry_wf`] of its view. It holds of
    /// every registry at all times.
    #[verifier::type_invariant]
    pub open spec fn wf(&self) -> bool {
        registry_wf(self@, self.issued())
    }

    /// An empty registry.
    pub fn new() -> (registry: Self)
        ensures
            registry.wf(),
            registry@ == Map::<i32, Seq<u64>>::empty(),
            registry.issued() == 0,
    {
        let registry = ConnectionRegistry { entries: HashMap::new(), issued: 0 };
        assert(registry@ =~= Map::<i32, Seq<u64>>::empty());
        registry
    }

    /// Whether `user` has an open connection.
    pub fn contains(&self, user: i32) -> (present: bool)
        ensures
            self.wf(),
            present == self@.contains_key(user),
            present == (tokens_of(self@, user).len() > 0),
    {
        proof {
            use_type_invariant(self);
        }
        self.entries.contains_key(&user)
    }

    /// The number of connections that `user` has open.
    pub fn count(&self, user: i32) -> (n: usize)
        ensures
            self.wf(),
            n == tokens_of(self@, user).len(),
    {
        proof {
            use_type_invariant(self);
        }
        match self.entries.get(&user) {
            Some(conns) => conns.len(),
            None => 0,
        }
    }

    /// Registers a connection for `user` and returns its token. The token is
    /// the number of tokens issued so far; the connection goes behind the
    /// user's other connections and feeds the queue `sender`. Every other
    /// connection keeps its queue. When the tokens are used up, nothing is
    /// registered and the answer is `None`.
    pub fn register(&mut self, user: i32, sender: UnboundedSender<String>) -> (token: Option<u64>)
        ensures
            final(self).wf(),
            old(self).issued() < u64::MAX ==> {
                &&& token == Some(old(self).issued() as u64)
                &&& final(self)@ == registered(old(self)@, user, old(self).issued() as u64)
                &&& final(self).issued() == old(self).issued() + 1
                &&& final(self).queue(user, old(self).issued() as u64) == sender
            },
            old(self).issued() >= u64::MAX ==> {
                &&& token is None
                &&& final(self)@ == old(self)@
                &&& final(self).issued() == old(self).issued()
            },
            old(self).queues_kept(final(self)),
    {
        proof {
            use_type_invariant(&*self);
        }
        if self.issued == u64::MAX {
            return None;
        }
        let token = self.issued;
        let mut entries: HashMap<i32, Vec<Connection>> = HashMap::new();
        std::mem::swap(&mut self.entries, &mut entries);
        let mut conns = match entries.remove(&user) {
            Some(conns) => conns,
            None => Vec::new(),
        };
        let ghost held = conns@;
        conns.push(Connection { token, sender });
        entries.insert(user, conns);
        proof {
            let before = old(self)@;
            assert(tokens(conns@) =~= tokens_of(before, user).push(token));
            assert(view_of(entries@) =~= registered(before, user, token));
            lemma_registered_wf(before, old(self).issued(), user);
            lemma_entry_no_duplicates(registered(before, user, token), (token + 1) as nat, user);
            lemma_entry_no_duplicates(before, old(self).issued(), user);
            lemma_queue_at(conns@, held.len() as int);
            assert forall|t: u64| tokens_of(before, user).contains(t) implies queue_of(conns@, t)
                == queue_of(held, t) by {
                let listed = tokens_of(before, user);
                let place = choose|i: int| 0 <= i < listed.len() && listed[i] == t;
                assert(tokens(held) =~= listed);
                lemma_queue_at(held, place);
                lemma_queue_at(conns@, place);
            }
        }
        self.issued = token + 1;
        self.entries = entries;
        Some(token)
    }

    /// Takes the connection with `token` out of the entry of `user`, and the
    /// entry out of the registry when it is left empty. The other connections
    /// stay as they are, whatever their place, each with its queue. The answer
    /// says whether the connection was there.
    pub fn deregister(&mut self, user: i32, token: u64) -> (removed: bool)
        ensures
            final(self).wf(),
            final(self)@ == deregistered(old(self)@, user, token),
            final(self).issued() == old(self).issued(),
            removed == tokens_of(old(self)@, user).contains(token),
            old(self).queues_kept(final(self)),
    {
        proof {
            use_type_invariant(&*self);
        }
        let ghost before = old(self)@;
        let mut entries: HashMap<i32, Vec<Connection>> = HashMap::new();
        std::mem::swap(&mut self.entries, &mut entries);
        let mut found = false;
        match entries.remove(&user) {
            Some(mut conns) => {
                let ghost held = conns@;
                let ghost listed = tokens(conns@);
                assert(listed == before[user]);
                let mut at: usize = 0;
                while at < conns.len()
                    invariant_except_break
                        forall|k: int| 0 <= k < at ==> listed[k] != token,
                        !found,
                    invariant
                        at <= conns.len(),
                        listed == tokens(conns@),
                    ensures
                        at <= conns.len(),
                        listed == tokens(conns@),
                        found ==> at < conns.len() && listed[at as int] == token,
                        !found ==> !listed.contains(token),
                    decreases conns.len() - at,
                {
                    if conns[at].token == token {
                        found = true;
                        break;
                    }
                    at += 1;
                }
                if found {
                    conns.remove(at);
                    proof {
                        lemma_entry_no_duplicates(before, old(self).issued(), user);
                        lemma_without_is_remove(listed, token, at as int);
                        assert(tokens(conns@) =~= listed.remove(at as int));
                    }
                } else {
                    proof {
                        lemma_without_absent(listed, token);
                    }
                }
                proof {
                    lemma_entry_no_duplicates(before, old(self).issued(), user);
                    lemma_without_no_duplicates(listed, token);
                    assert forall|t: u64| tokens(conns@).contains(t) implies queue_of(conns@, t)
                        == queue_of(held, t) by {
                        let rest = tokens(conns@);
                        let place = choose|i: int| 0 <= i < rest.len() && rest[i] == t;
                        let origin = if found && place >= at {
                            place + 1
                        } else {
                            place
                        };
                        assert(conns@[place] == held[origin]);
                        lemma_queue_at(conns@, place);
                        lemma_queue_at(held, origin);
                    }
                }
                if conns.len() > 0 {
                    entries.insert(user, conns);
                }
            },
            None => {
                proof {
                    lemma_without_absent(Seq::<u64>::empty(), token);
                }
            },
        }
        proof {
            assert(view_of(entries@) =~= deregistered(before, user, token));
            lemma_deregistered_wf(before, old(self).issued(), user, token);
        }
        self.entries = entries;
        found
    }

    /// A copy of the connections that `user` has open, oldest first, for
    /// fanning a frame out to them. Each copy feeds the queue that the
    /// registry holds under its token.
    pub fn snapshot(&self, user: i32) -> (conns: Vec<Connection>)
        ensures
            self.wf(),
            tokens(conns@) == tokens_of(self@, user),
            forall|i: int|
                0 <= i < conns@.len() ==> (#[trigger] conns@[i]).queue() == self.queue(
                    user,
                    conns@[i]@,
                ),
    {
        proof {
            use_type_invariant(self);
            lemma_entry_no_duplicates(self@, self.issued(), user);
        }
        let mut copies: Vec<Connection> = Vec::new();
        match self.entries.get(&user) {
            Some(conns) => {
                let mut at: usize = 0;
                while at < conns.len()
                    invariant
                        at <= conns.len(),
                        tokens(copies@) == tokens(conns@).subrange(0, at as int),
                        tokens(conns@).no_duplicates(),
                        forall|i: int|
                            0 <= i < copies@.len() ==> (#[trigger] copies@[i]).queue() == queue_of(
                                conns@,
                                copies@[i]@,
                            ),
                    decreases conns.len() - at,
                {
                    proof {
                        lemma_queue_at(conns@, at as int);
                    }
                    let ghost copied = tokens(copies@);
                    copies.push(conns[at].share());
                    at += 1;
                    assert(tokens(copies@) =~= copied.push(conns@[at - 1]@));
                    assert(tokens(copies@) =~= tokens(conns@).subrange(0, at as int));
                }
                assert(tokens(copies@) =~= tokens(conns@));
            },
            None => {
                assert(tokens(copies@) =~= Seq::<u64>::empty());
            },
        }
        copies
    }
}

} // verus!
