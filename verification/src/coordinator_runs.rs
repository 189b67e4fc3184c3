//! What a coordinator asks of etcd for its host, from its configuration on.
use vstd::prelude::*;

use crate::backend::{
    leadership_first, lock_first, try_leadership_first, try_lock_first, Backend,
};
use crate::error::Fault;
use crate::events::{
    deliver_first, delivery_accepts, delivery_next, publish_accepts, publish_first, publish_next,
    subscribe_accepts, subscribe_first, subscribe_next, Delivering, Interest, Publishing,
    Subscribing,
};
use crate::events_runs::{delivery_runs, publish_runs, subscribe_runs};
use crate::lease::{
    acquire_accepts, acquire_next, try_accepts, try_next, Acquiring, Lease, Trying,
};
use crate::lease_runs::{acquire_runs, try_runs};
use crate::peers::{
    list_peers_accepts, list_peers_first, list_peers_next, peer_watch_accepts, peer_watch_next,
    tell_peers_first, watch_peers_accepts, watch_peers_first, watch_peers_next, ListingPeers, Peer,
    PeerWatching, StartingWatch,
};
use crate::peers_runs::{list_peers_runs, telling_runs, watch_peers_runs};
use crate::protocol::{Answer, Call};
use crate::runs::{runs, turn, Turn};
use crate::start_laws::names_are_spelt_out;
use crate::text::decimal;
use crate::time::TimeSpan;

verus! {

/// A coordinator publishes an event by putting it, wrapped, under its own
/// prefix, in the topic, with the event's time and random number, for the
/// configured lifetime.
pub proof fn coordinators_publish_under_their_prefix(
    b: Backend,
    topic: Seq<char>,
    routing_key: Option<Seq<char>>,
    payload: Seq<u8>,
    nanos: nat,
    random: nat,
    wire: Seq<u8>,
    lease: i64,
)
    ensures
        runs(
            |s: Publishing, a: Answer| publish_next(s, a),
            |s: Publishing, a: Answer| publish_accepts(s, a),
            publish_first(b, topic, routing_key, payload, nanos, random),
            seq![
                turn(Call::Encode(routing_key, payload), Answer::Bytes(wire)),
                turn(Call::Connect, Answer::Done),
                turn(Call::LeaseGrant(b.config.event_ttl_secs), Answer::Granted(lease)),
                turn(
                    Call::Put(
                        b.config.key_prefix + "events/"@ + topic + "/"@ + decimal(nanos) + "-"@
                            + decimal(random),
                        wire,
                        Some(lease),
                    ),
                    Answer::Done,
                ),
            ],
            Ok(()),
        ),
{
    reveal_with_fuel(runs, 6);
    names_are_spelt_out(b.config.key_prefix, Seq::empty(), topic, nanos, random);
}

/// However publishing goes, it goes as [`publish_runs`] says of that key and
/// that lifetime.
pub proof fn coordinators_publish_as_publishing_runs(
    b: Backend,
    topic: Seq<char>,
    routing_key: Option<Seq<char>>,
    payload: Seq<u8>,
    nanos: nat,
    random: nat,
    turns: Seq<Turn>,
    result: Result<(), Fault>,
)
    ensures
        runs(
            |s: Publishing, a: Answer| publish_next(s, a),
            |s: Publishing, a: Answer| publish_accepts(s, a),
            publish_first(b, topic, routing_key, payload, nanos, random),
            turns,
            result,
        ) <==> publish_runs(
            b.config.key_prefix + "events/"@ + topic + "/"@ + decimal(nanos) + "-"@ + decimal(
                random,
            ),
            b.config.event_ttl_secs,
            routing_key,
            payload,
            turns,
            result,
        ),
{
    names_are_spelt_out(b.config.key_prefix, Seq::empty(), topic, nanos, random);
}

/// A coordinator subscribes to what lies under its own prefix in the topic, and
/// its subscribers get messages of that topic, with the coordinator's name.
pub proof fn coordinators_subscribe_under_their_prefix(
    b: Backend,
    topic: Seq<char>,
    routing_key: Option<Seq<char>>,
    turns: Seq<Turn>,
    result: Result<(), Fault>,
)
    ensures
        runs(
            |s: Subscribing, a: Answer| subscribe_next(s, a),
            |s: Subscribing, a: Answer| subscribe_accepts(s, a),
            subscribe_first(b, topic),
            turns,
            result,
        ) <==> subscribe_runs(
            b.config.key_prefix + "events/"@ + topic + "/"@,
            turns,
            result,
        ),
        runs(
            |s: Delivering, a: Answer| delivery_next(s, a),
            |s: Delivering, a: Answer| delivery_accepts(s, a),
            deliver_first(b, topic, routing_key),
            turns,
            (),
        ) <==> delivery_runs(Interest { topic, routing_key, node_id: b.node_id }, turns),
{
    names_are_spelt_out(b.config.key_prefix, Seq::empty(), topic, 0, 0);
}

/// A coordinator lists, watches and tells of the peers under its own prefix.
pub proof fn coordinators_see_the_peers_under_their_prefix(
    b: Backend,
    turns: Seq<Turn>,
    peers: Seq<Peer>,
    is_watched: bool,
)
    ensures
        runs(
            |s: ListingPeers, a: Answer| list_peers_next(s, a),
            |s: ListingPeers, a: Answer| list_peers_accepts(s, a),
            list_peers_first(b),
            turns,
            peers,
        ) <==> list_peers_runs(b.config.key_prefix + "peers/"@, turns, peers),
        runs(
            |s: StartingWatch, a: Answer| watch_peers_next(s, a),
            |s: StartingWatch, a: Answer| watch_peers_accepts(s, a),
            watch_peers_first(b),
            turns,
            is_watched,
        ) <==> watch_peers_runs(b.config.key_prefix + "peers/"@, turns, is_watched),
        runs(
            |s: PeerWatching, a: Answer| peer_watch_next(s, a),
            |s: PeerWatching, a: Answer| peer_watch_accepts(s, a),
            tell_peers_first(b),
            turns,
            (),
        ) <==> telling_runs(b.config.key_prefix + "peers/"@, turns),
{
    names_are_spelt_out(b.config.key_prefix, Seq::empty(), Seq::empty(), 0, 0);
    assert(b.config.key_prefix + "peers/"@ + Seq::<char>::empty() =~= b.config.key_prefix
        + "peers/"@);
}

/// A coordinator contends for a leadership and for a lock under its own prefix,
/// each in its own place, whether it waits for them or not.
pub proof fn coordinators_contend_under_their_prefix(
    b: Backend,
    name: Seq<char>,
    ttl: TimeSpan,
    turns: Seq<Turn>,
    held: Result<Lease, Fault>,
    found: Result<Option<Lease>, Fault>,
)
    ensures
        runs(
            |s: Acquiring, a: Answer| acquire_next(s, a),
            |s: Acquiring, a: Answer| acquire_accepts(s, a),
            leadership_first(b, name, ttl),
            turns,
            held,
        ) <==> acquire_runs(b.config.key_prefix + "leadership/"@ + name, ttl, turns, held),
        runs(
            |s: Acquiring, a: Answer| acquire_next(s, a),
            |s: Acquiring, a: Answer| acquire_accepts(s, a),
            lock_first(b, name, ttl),
            turns,
            held,
        ) <==> acquire_runs(b.config.key_prefix + "locks/"@ + name, ttl, turns, held),
        runs(
            |s: Trying, a: Answer| try_next(s, a),
            |s: Trying, a: Answer| try_accepts(s, a),
            try_leadership_first(b, name, ttl),
            turns,
            found,
        ) <==> try_runs(b.config.key_prefix + "leadership/"@ + name, ttl, turns, found),
        runs(
            |s: Trying, a: Answer| try_next(s, a),
            |s: Trying, a: Answer| try_accepts(s, a),
            try_lock_first(b, name, ttl),
            turns,
            found,
        ) <==> try_runs(b.config.key_prefix + "locks/"@ + name, ttl, turns, found),
{
    names_are_spelt_out(b.config.key_prefix, name, Seq::empty(), 0, 0);
}

} // verus!
