//! Peers: the nodes that are registered under the peers prefix.
//!
//! The coordinator only reads that prefix; the keys are written by others.
use vstd::pervasive::unreached;
use vstd::prelude::*;
use vstd::string::*;

use crate::backend::{Backend, EtcdBackend};
use crate::kv::{logical, logical_key_in};
use crate::names::{name_in, Keyspace};
use crate::protocol::{
    backwards, changes, fits, records, Answer, Call, Change, KeyValue, Kind, Next, Outcome, Record,
    Reply, Request, Step, WatchEvent,
};
use crate::text::{as_text, contents, from_utf8_lossy};
use crate::time::{now_rfc3339, rfc3339, UnixTime};

verus! {

/// How a peer is doing. A registered peer counts as healthy.
#[derive(Clone, Copy, Debug, PartialEq, Eq, Structural)]
pub enum PeerHealth {
    Healthy,
}

/// A registered node.
#[derive(Debug)]
pub struct ClusterPeer {
    pub node_id: String,
    pub address: String,
    /// When the peer was seen.
    pub last_seen: String,
    pub health: PeerHealth,
    pub roles: Vec<String>,
}

/// The content of a [`ClusterPeer`].
pub struct Peer {
    pub node_id: Seq<char>,
    pub address: Seq<char>,
    pub last_seen: Seq<char>,
    pub health: PeerHealth,
    pub roles: Seq<Seq<char>>,
}

impl View for ClusterPeer {
    type V = Peer;

    open spec fn view(&self) -> Peer {
        Peer {
            node_id: self.node_id@,
            address: self.address@,
            last_seen: self.last_seen@,
            health: self.health,
            roles: contents(self.roles@),
        }
    }
}

impl Outcome for ClusterPeer {
    type Content = Peer;

    open spec fn content(&self) -> Peer {
        self@
    }
}

/// A change among the peers.
#[derive(Debug)]
#[allow(inconsistent_fields)]
pub enum PeerEvent {
    /// A peer was registered.
    Joined { peer: ClusterPeer },
    /// A peer is gone.
    Left { node_id: String },
    /// A registered peer was registered once more.
    HealthChanged { node_id: String, health: PeerHealth },
}

/// The content of a [`PeerEvent`].
pub enum PeerChange {
    Joined(Peer),
    Left(Seq<char>),
    HealthChanged(Seq<char>, PeerHealth),
}

impl View for PeerEvent {
    type V = PeerChange;

    open spec fn view(&self) -> PeerChange {
        match self {
            PeerEvent::Joined { peer } => PeerChange::Joined(peer@),
            PeerEvent::Left { node_id } => PeerChange::Left(node_id@),
            PeerEvent::HealthChanged { node_id, health } => PeerChange::HealthChanged(
                node_id@,
                *health,
            ),
        }
    }
}

/// The node that a key stands for, among keys that begin with `prefix`.
pub open spec fn node_of(prefix: Seq<char>, key: Seq<u8>) -> Seq<char> {
    logical(prefix, as_text(key))
}

/// The peer that was seen at `now`.
pub open spec fn seen(node_id: Seq<char>, address: Seq<char>, now: UnixTime) -> Peer {
    Peer {
        node_id,
        address,
        last_seen: rfc3339(now.secs as int),
        health: PeerHealth::Healthy,
        roles: Seq::empty(),
    }
}

fn seen_peer(node_id: String, address: String, now: UnixTime) -> (r: ClusterPeer)
    requires
        now.wf(),
    ensures
        r@ == seen(node_id@, address@, now),
{
    let roles: Vec<String> = Vec::new();
    assert(contents(roles@) =~= Seq::empty());
    ClusterPeer {
        node_id,
        address,
        last_seen: now_rfc3339(now),
        health: PeerHealth::Healthy,
        roles,
    }
}

/// The node of a key.
fn node_id_of(prefix: &str, key: &Vec<u8>) -> (r: String)
    ensures
        r@ == node_of(prefix@, key@),
{
    let full: String = from_utf8_lossy(key);
    logical_key_in(prefix, full.as_str())
}

/// Whether the reply is a clock reading that can be written down.
pub open spec fn can_be_written(answer: Answer) -> bool {
    match answer {
        Answer::Clock(now) => now.wf(),
        _ => false,
    }
}

fn is_writable_clock(reply: &Reply) -> (r: bool)
    ensures
        r == can_be_written(reply@),
{
    match reply {
        Reply::Clock { now } => now.is_wf(),
        _ => false,
    }
}

// ---------------------------------------------------------------------------
// list_peers
// ---------------------------------------------------------------------------

/// Listing the peers. `rest` holds the keys that are not listed yet, the next
/// one last.
#[derive(Debug)]
pub enum ListPeersOp {
    /// Waits for the connection.
    Connect { prefix: String },
    /// Waits for the keys.
    Fetch { prefix: String },
    /// Waits for the time at which the next peer is seen.
    Clock { prefix: String, out: Vec<ClusterPeer>, rest: Vec<KeyValue> },
}

/// The content of a [`ListPeersOp`].
pub enum ListingPeers {
    Connect(Seq<char>),
    Fetch(Seq<char>),
    Clock(Seq<char>, Seq<Peer>, Seq<Record>),
}

impl View for ListPeersOp {
    type V = ListingPeers;

    open spec fn view(&self) -> ListingPeers {
        match self {
            ListPeersOp::Connect { prefix } => ListingPeers::Connect(prefix@),
            ListPeersOp::Fetch { prefix } => ListingPeers::Fetch(prefix@),
            ListPeersOp::Clock { prefix, out, rest } => ListingPeers::Clock(
                prefix@,
                out.content(),
                records(rest@),
            ),
        }
    }
}

/// What [`ListPeersOp`] results in.
pub type ListPeersNext = Next<ListingPeers, Seq<Peer>>;

/// How a listing goes on when `out` is known and `rest` is not.
pub open spec fn list_peers_onward(
    prefix: Seq<char>,
    out: Seq<Peer>,
    rest: Seq<Record>,
) -> ListPeersNext {
    if rest.len() == 0 {
        Next::Finished(out)
    } else {
        Next::Ask(Call::ReadClock, ListingPeers::Clock(prefix, out, rest))
    }
}

/// The replies that a listing can go on with.
pub open spec fn list_peers_accepts(state: ListingPeers, answer: Answer) -> bool {
    match state {
        ListingPeers::Connect(_) => fits(Kind::Connected, answer),
        ListingPeers::Fetch(_) => fits(Kind::KeyValues, answer),
        ListingPeers::Clock(_, _, rest) => rest.len() > 0 && can_be_written(answer),
    }
}

/// How a listing goes on. Where etcd cannot be asked, no peers are listed.
pub open spec fn list_peers_next(state: ListingPeers, answer: Answer) -> ListPeersNext {
    match (state, answer) {
        (ListingPeers::Connect(_), Answer::Refused(_)) => Next::Finished(Seq::empty()),
        (ListingPeers::Connect(prefix), Answer::Done) => Next::Ask(
            Call::GetPrefix(prefix, None),
            ListingPeers::Fetch(prefix),
        ),
        (ListingPeers::Fetch(_), Answer::Failed(_)) => Next::Finished(Seq::empty()),
        (ListingPeers::Fetch(prefix), Answer::KeyValues(kvs)) => list_peers_onward(
            prefix,
            Seq::empty(),
            kvs.reverse(),
        ),
        (ListingPeers::Clock(prefix, out, rest), Answer::Clock(now)) => list_peers_onward(
            prefix,
            out.push(seen(node_of(prefix, rest.last().key), as_text(rest.last().value), now)),
            rest.drop_last(),
        ),
        _ => arbitrary(),
    }
}

fn list_peers_from(prefix: String, out: Vec<ClusterPeer>, rest: Vec<KeyValue>) -> (r: Step<
    ListPeersOp,
    Vec<ClusterPeer>,
>)
    ensures
        r@ == list_peers_onward(prefix@, out.content(), records(rest@)),
{
    if rest.is_empty() {
        Step::Finished { result: out }
    } else {
        Step::Ask { request: Request::ReadClock, state: ListPeersOp::Clock { prefix, out, rest } }
    }
}

/// How a coordinator begins to list the peers.
pub open spec fn list_peers_first(b: Backend) -> ListPeersNext {
    Next::Ask(
        Call::Connect,
        ListingPeers::Connect(name_in(b.config.key_prefix, Keyspace::Peers, Seq::empty())),
    )
}

impl EtcdBackend {
    /// Begins to list the peers.
    pub fn list_peers(&self) -> (r: Step<ListPeersOp, Vec<ClusterPeer>>)
        ensures
            r@ == ListPeersNext::Ask(
                Call::Connect,
                ListingPeers::Connect(name_in(self@.config.key_prefix, Keyspace::Peers, Seq::empty())),
            ),
            r@ == list_peers_first(self@),
    {
        Step::Ask {
            request: Request::Connect,
            state: ListPeersOp::Connect { prefix: self.config().peers_prefix() },
        }
    }
}

impl ListPeersOp {
    /// Whether the operation can go on with `reply`.
    pub fn accepts(&self, reply: &Reply) -> (r: bool)
        ensures
            r == list_peers_accepts(self@, reply@),
    {
        match self {
            ListPeersOp::Connect { .. } => reply.is_for(Kind::Connected),
            ListPeersOp::Fetch { .. } => reply.is_for(Kind::KeyValues),
            ListPeersOp::Clock { rest, .. } => rest.len() > 0 && is_writable_clock(reply),
        }
    }

    /// Goes on with the reply to the call that was asked for.
    pub fn step(self, reply: Reply) -> (r: Step<ListPeersOp, Vec<ClusterPeer>>)
        requires
            list_peers_accepts(self@, reply@),
        ensures
            r@ == list_peers_next(self@, reply@),
    {
        match self {
            ListPeersOp::Connect { prefix } => match reply {
                Reply::Refused { .. } => {
                    let none: Vec<ClusterPeer> = Vec::new();
                    assert(none.content() =~= Seq::empty());
                    Step::Finished { result: none }
                },
                Reply::Done => Step::Ask {
                    request: Request::GetPrefix { prefix: prefix.clone(), limit: None },
                    state: ListPeersOp::Fetch { prefix },
                },
                _ => unreached(),
            },
            ListPeersOp::Fetch { prefix } => {
                let none: Vec<ClusterPeer> = Vec::new();
                assert(none.content() =~= Seq::empty());
                match reply {
                    Reply::Failed { .. } => Step::Finished { result: none },
                    Reply::KeyValues { kvs } => {
                        let rest: Vec<KeyValue> = backwards(kvs);
                        assert(records(rest@) =~= records(kvs@).reverse());
                        list_peers_from(prefix, none, rest)
                    },
                    _ => unreached(),
                }
            },
            ListPeersOp::Clock { prefix, out, rest } => match reply {
                Reply::Clock { now } => {
                    let mut out = out;
                    let mut rest = rest;
                    let ghost known = out.content();
                    let ghost left = records(rest@);
                    match rest.pop() {
                        Some(kv) => {
                            assert(left.last() == kv@);
                            assert(records(rest@) =~= left.drop_last());
                            let node_id: String = node_id_of(prefix.as_str(), &kv.key);
                            let address: String = from_utf8_lossy(&kv.value);
                            let peer: ClusterPeer = seen_peer(node_id, address, now);
                            out.push(peer);
                            assert(out.content() =~= known.push(peer@));
                            list_peers_from(prefix, out, rest)
                        },
                        None => unreached(),
                    }
                },
                _ => unreached(),
            },
        }
    }
}

// ---------------------------------------------------------------------------
// watch_peers
// ---------------------------------------------------------------------------

/// Beginning to watch the peers.
#[derive(Debug)]
pub enum WatchPeersOp {
    /// Waits for the connection.
    Connect { prefix: String },
    /// Waits for the watch to begin.
    Start,
}

/// The content of a [`WatchPeersOp`].
pub enum StartingWatch {
    Connect(Seq<char>),
    Start,
}

impl View for WatchPeersOp {
    type V = StartingWatch;

    open spec fn view(&self) -> StartingWatch {
        match self {
            WatchPeersOp::Connect { prefix } => StartingWatch::Connect(prefix@),
            WatchPeersOp::Start => StartingWatch::Start,
        }
    }
}

/// What [`WatchPeersOp`] results in: whether there is a watch. Without one the
/// listener hears nothing.
pub type WatchPeersNext = Next<StartingWatch, bool>;

/// The replies that the beginning can go on with.
pub open spec fn watch_peers_accepts(state: StartingWatch, answer: Answer) -> bool {
    match state {
        StartingWatch::Connect(_) => fits(Kind::Connected, answer),
        StartingWatch::Start => fits(Kind::Done, answer),
    }
}

/// How the beginning goes on.
pub open spec fn watch_peers_next(state: StartingWatch, answer: Answer) -> WatchPeersNext {
    match (state, answer) {
        (StartingWatch::Connect(_), Answer::Refused(_)) => Next::Finished(false),
        (StartingWatch::Connect(prefix), Answer::Done) => Next::Ask(
            Call::StartWatch(prefix),
            StartingWatch::Start,
        ),
        (StartingWatch::Start, Answer::Failed(_)) => Next::Finished(false),
        (StartingWatch::Start, Answer::Done) => Next::Finished(true),
        _ => arbitrary(),
    }
}

/// How a coordinator begins to watch the peers.
pub open spec fn watch_peers_first(b: Backend) -> WatchPeersNext {
    Next::Ask(
        Call::Connect,
        StartingWatch::Connect(name_in(b.config.key_prefix, Keyspace::Peers, Seq::empty())),
    )
}

impl EtcdBackend {
    /// Begins to watch the peers.
    pub fn watch_peers(&self) -> (r: Step<WatchPeersOp, bool>)
        ensures
            r@ == WatchPeersNext::Ask(
                Call::Connect,
                StartingWatch::Connect(name_in(self@.config.key_prefix, Keyspace::Peers, Seq::empty())),
            ),
            r@ == watch_peers_first(self@),
    {
        Step::Ask {
            request: Request::Connect,
            state: WatchPeersOp::Connect { prefix: self.config().peers_prefix() },
        }
    }
}

impl WatchPeersOp {
    /// Whether the operation can go on with `reply`.
    pub fn accepts(&self, reply: &Reply) -> (r: bool)
        ensures
            r == watch_peers_accepts(self@, reply@),
    {
        match self {
            WatchPeersOp::Connect { .. } => reply.is_for(Kind::Connected),
            WatchPeersOp::Start => reply.is_for(Kind::Done),
        }
    }

    /// Goes on with the reply to the call that was asked for.
    pub fn step(self, reply: Reply) -> (r: Step<WatchPeersOp, bool>)
        requires
            watch_peers_accepts(self@, reply@),
        ensures
            r@ == watch_peers_next(self@, reply@),
    {
        match self {
            WatchPeersOp::Connect { prefix } => match reply {
                Reply::Refused { .. } => Step::Finished { result: false },
                Reply::Done => Step::Ask {
                    request: Request::StartWatch { prefix },
                    state: WatchPeersOp::Start,
                },
                _ => unreached(),
            },
            WatchPeersOp::Start => match reply {
                Reply::Failed { .. } => Step::Finished { result: false },
                Reply::Done => Step::Finished { result: true },
                _ => unreached(),
            },
        }
    }
}

/// Telling a listener about the peers. `rest` holds the changes that were
/// received and not told yet, the next one last.
#[derive(Debug)]
pub enum PeerWatchOp {
    /// Waits to hear whether anybody listens.
    Poll { prefix: String },
    /// Waits for changes.
    Receive { prefix: String },
    /// Waits for the time at which the peer is seen.
    Clock { prefix: String, rest: Vec<WatchEvent>, node_id: String, address: String },
    /// Waits for the listener to take an event.
    Deliver { prefix: String, rest: Vec<WatchEvent> },
    /// Waits for the watch to stop.
    Cancel,
}

/// The content of a [`PeerWatchOp`].
pub enum PeerWatching {
    Poll(Seq<char>),
    Receive(Seq<char>),
    Clock(Seq<char>, Seq<Change>, Seq<char>, Seq<char>),
    Deliver(Seq<char>, Seq<Change>),
    Cancel,
}

impl View for PeerWatchOp {
    type V = PeerWatching;

    open spec fn view(&self) -> PeerWatching {
        match self {
            PeerWatchOp::Poll { prefix } => PeerWatching::Poll(prefix@),
            PeerWatchOp::Receive { prefix } => PeerWatching::Receive(prefix@),
            PeerWatchOp::Clock { prefix, rest, node_id, address } => PeerWatching::Clock(
                prefix@,
                changes(rest@),
                node_id@,
                address@,
            ),
            PeerWatchOp::Deliver { prefix, rest } => PeerWatching::Deliver(
                prefix@,
                changes(rest@),
            ),
            PeerWatchOp::Cancel => PeerWatching::Cancel,
        }
    }
}

/// What [`PeerWatchOp`] results in: it ends when the watch or its listener is
/// gone.
pub type PeerWatchNext = Next<PeerWatching, ()>;

/// How telling goes on when `rest` is left: a key that was created is a peer
/// that joined, one that was written again a peer that registered again, and
/// one that was removed a peer that left.
pub open spec fn peer_watch_onward(prefix: Seq<char>, rest: Seq<Change>) -> PeerWatchNext
    decreases rest.len(),
{
    if rest.len() == 0 {
        Next::Ask(Call::PollClosed, PeerWatching::Poll(prefix))
    } else {
        let change = rest.last();
        let left = rest.drop_last();
        match change.kv {
            None => peer_watch_onward(prefix, left),
            Some(kv) => if !change.is_put {
                Next::Ask(
                    Call::DeliverPeerEvent(PeerChange::Left(node_of(prefix, kv.key))),
                    PeerWatching::Deliver(prefix, left),
                )
            } else if kv.version > 1 {
                Next::Ask(
                    Call::DeliverPeerEvent(
                        PeerChange::HealthChanged(node_of(prefix, kv.key), PeerHealth::Healthy),
                    ),
                    PeerWatching::Deliver(prefix, left),
                )
            } else {
                Next::Ask(
                    Call::ReadClock,
                    PeerWatching::Clock(
                        prefix,
                        left,
                        node_of(prefix, kv.key),
                        as_text(kv.value),
                    ),
                )
            },
        }
    }
}

/// The replies that telling can go on with.
pub open spec fn peer_watch_accepts(state: PeerWatching, answer: Answer) -> bool {
    match state {
        PeerWatching::Poll(_) => fits(Kind::Closed, answer),
        PeerWatching::Receive(_) => fits(Kind::Events, answer),
        PeerWatching::Clock(_, _, _, _) => can_be_written(answer),
        PeerWatching::Deliver(_, _) => fits(Kind::Done, answer),
        PeerWatching::Cancel => fits(Kind::Done, answer),
    }
}

/// How telling goes on.
pub open spec fn peer_watch_next(state: PeerWatching, answer: Answer) -> PeerWatchNext {
    match (state, answer) {
        (PeerWatching::Poll(prefix), Answer::Closed(closed)) => if closed {
            Next::Ask(Call::CancelWatch, PeerWatching::Cancel)
        } else {
            Next::Ask(Call::ReceiveEvents, PeerWatching::Receive(prefix))
        },
        (PeerWatching::Receive(prefix), Answer::Events(Some(events))) => peer_watch_onward(
            prefix,
            events.reverse(),
        ),
        (PeerWatching::Receive(_), _) => Next::Finished(()),
        (PeerWatching::Clock(prefix, rest, node_id, address), Answer::Clock(now)) => Next::Ask(
            Call::DeliverPeerEvent(PeerChange::Joined(seen(node_id, address, now))),
            PeerWatching::Deliver(prefix, rest),
        ),
        (PeerWatching::Deliver(prefix, rest), Answer::Done) => peer_watch_onward(prefix, rest),
        (PeerWatching::Deliver(_, _), Answer::Failed(_)) => Next::Ask(
            Call::CancelWatch,
            PeerWatching::Cancel,
        ),
        (PeerWatching::Cancel, _) => Next::Finished(()),
        _ => arbitrary(),
    }
}

/// Tells the next change, or asks for more.
#[verifier::loop_isolation(false)]
fn peer_watch_from(prefix: String, rest: Vec<WatchEvent>) -> (r: Step<PeerWatchOp, ()>)
    ensures
        r@ == peer_watch_onward(prefix@, changes(rest@)),
{
    let mut rest = rest;
    let ghost whole = peer_watch_onward(prefix@, changes(rest@));
    loop
        invariant
            whole == peer_watch_onward(prefix@, changes(rest@)),
        decreases rest@.len(),
    {
        let ghost before = changes(rest@);
        match rest.pop() {
            None => {
                return Step::Ask {
                    request: Request::PollClosed,
                    state: PeerWatchOp::Poll { prefix },
                };
            },
            Some(event) => {
                assert(before.last() == event@);
                assert(changes(rest@) =~= before.drop_last());
                match event.kv {
                    None => {},
                    Some(kv) => {
                        let node_id: String = node_id_of(prefix.as_str(), &kv.key);
                        if !event.is_put {
                            return Step::Ask {
                                request: Request::DeliverPeerEvent {
                                    event: PeerEvent::Left { node_id },
                                },
                                state: PeerWatchOp::Deliver { prefix, rest },
                            };
                        }
                        if kv.version > 1 {
                            return Step::Ask {
                                request: Request::DeliverPeerEvent {
                                    event: PeerEvent::HealthChanged {
                                        node_id,
                                        health: PeerHealth::Healthy,
                                    },
                                },
                                state: PeerWatchOp::Deliver { prefix, rest },
                            };
                        }
                        let address: String = from_utf8_lossy(&kv.value);
                        return Step::Ask {
                            request: Request::ReadClock,
                            state: PeerWatchOp::Clock { prefix, rest, node_id, address },
                        };
                    },
                }
            },
        }
    }
}

/// How a coordinator begins to tell a listener about the peers.
pub open spec fn tell_peers_first(b: Backend) -> PeerWatchNext {
    Next::Ask(
        Call::PollClosed,
        PeerWatching::Poll(name_in(b.config.key_prefix, Keyspace::Peers, Seq::empty())),
    )
}

impl EtcdBackend {
    /// Begins to tell a listener about the peers, once the watch has begun.
    pub fn tell_peers(&self) -> (r: Step<PeerWatchOp, ()>)
        ensures
            r@ == PeerWatchNext::Ask(
                Call::PollClosed,
                PeerWatching::Poll(name_in(self@.config.key_prefix, Keyspace::Peers, Seq::empty())),
            ),
            r@ == tell_peers_first(self@),
    {
        Step::Ask {
            request: Request::PollClosed,
            state: PeerWatchOp::Poll { prefix: self.config().peers_prefix() },
        }
    }
}

impl PeerWatchOp {
    /// Whether the operation can go on with `reply`.
    pub fn accepts(&self, reply: &Reply) -> (r: bool)
        ensures
            r == peer_watch_accepts(self@, reply@),
    {
        match self {
            PeerWatchOp::Poll { .. } => reply.is_for(Kind::Closed),
            PeerWatchOp::Receive { .. } => reply.is_for(Kind::Events),
            PeerWatchOp::Clock { .. } => is_writable_clock(reply),
            PeerWatchOp::Deliver { .. } => reply.is_for(Kind::Done),
            PeerWatchOp::Cancel => reply.is_for(Kind::Done),
        }
    }

    /// Goes on with the reply to the call that was asked for.
    pub fn step(self, reply: Reply) -> (r: Step<PeerWatchOp, ()>)
        requires
            peer_watch_accepts(self@, reply@),
        ensures
            r@ == peer_watch_next(self@, reply@),
    {
        match self {
            PeerWatchOp::Poll { prefix } => match reply {
                Reply::Closed { closed } => if closed {
                    Step::Ask { request: Request::CancelWatch, state: PeerWatchOp::Cancel }
                } else {
                    Step::Ask {
                        request: Request::ReceiveEvents,
                        state: PeerWatchOp::Receive { prefix },
                    }
                },
                _ => unreached(),
            },
            PeerWatchOp::Receive { prefix } => match reply {
                Reply::Events { events: Some(events) } => {
                    let rest: Vec<WatchEvent> = backwards(events);
                    assert(changes(rest@) =~= changes(events@).reverse());
                    peer_watch_from(prefix, rest)
                },
                _ => Step::Finished { result: () },
            },
            PeerWatchOp::Clock { prefix, rest, node_id, address } => match reply {
                Reply::Clock { now } => Step::Ask {
                    request: Request::DeliverPeerEvent {
                        event: PeerEvent::Joined { peer: seen_peer(node_id, address, now) },
                    },
                    state: PeerWatchOp::Deliver { prefix, rest },
                },
                _ => unreached(),
            },
            PeerWatchOp::Deliver { prefix, rest } => match reply {
                Reply::Done => peer_watch_from(prefix, rest),
                Reply::Failed { .. } => Step::Ask {
                    request: Request::CancelWatch,
                    state: PeerWatchOp::Cancel,
                },
                _ => unreached(),
            },
            PeerWatchOp::Cancel => Step::Finished { result: () },
        }
    }
}

} // verus!
