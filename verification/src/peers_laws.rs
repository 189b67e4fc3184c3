//! What listing and watching the peers amount to.
use vstd::prelude::*;
use vstd::utf8::*;

use crate::kv::logical_undoes_full;
use crate::names::{name_in, Keyspace};
use crate::peers::{
    list_peers_next, list_peers_onward, node_of, peer_watch_next, peer_watch_onward, seen,
    ListPeersNext, ListingPeers, Peer, PeerChange, PeerHealth, PeerWatchNext, PeerWatching,
};
use crate::protocol::{Answer, Call, Change, Next, Record};
use crate::store::{ends_with, is_held_under, record_of, undisturbed, Exchange, Store};
use crate::text::{as_text, encoded_text_is_read_back};
use crate::time::UnixTime;

verus! {

/// The node that a peer's key stands for is the one it was made for.
pub proof fn peer_keys_stand_for_their_nodes(prefix: Seq<char>, node_id: Seq<char>)
    ensures
        node_of(
            name_in(prefix, Keyspace::Peers, Seq::empty()),
            encode_utf8(name_in(prefix, Keyspace::Peers, node_id)),
        ) == node_id,
{
    let key = name_in(prefix, Keyspace::Peers, node_id);
    let under = name_in(prefix, Keyspace::Peers, Seq::empty());
    encoded_text_is_read_back(key);
    assert(key =~= under + node_id);
    logical_undoes_full(under, node_id);
}

/// Whether listing the keys that begin with `prefix` yields `peers` through
/// `trace`.
pub open spec fn lists_peers(prefix: Seq<char>, peers: Seq<Peer>, trace: Seq<Exchange>) -> bool {
    ends_with(
        |s: ListingPeers, a: Answer| list_peers_next(s, a),
        ListPeersNext::Ask(Call::Connect, ListingPeers::Connect(prefix)),
        trace,
        peers,
    )
}

/// Whether `peer` is what `record` says, seen at some time.
pub open spec fn stands_for(prefix: Seq<char>, record: Record, peer: Peer) -> bool {
    exists|now: UnixTime|
        peer == #[trigger] seen(node_of(prefix, record.key), as_text(record.value), now)
}

/// Whether the peers are those of the keys, in order.
pub open spec fn stand_for(prefix: Seq<char>, kvs: Seq<Record>, peers: Seq<Peer>) -> bool {
    &&& peers.len() == kvs.len()
    &&& forall|i: int|
        #![trigger peers[i]]
        0 <= i < kvs.len() ==> stands_for(prefix, kvs[i], peers[i])
}

proof fn later_steps_list_the_rest(
    prefix: Seq<char>,
    kvs: Seq<Record>,
    out: Seq<Peer>,
    trace: Seq<Exchange>,
    peers: Seq<Peer>,
)
    requires
        out.len() <= kvs.len(),
        stand_for(prefix, kvs.take(out.len() as int), out),
        ends_with(
            |s: ListingPeers, a: Answer| list_peers_next(s, a),
            list_peers_onward(prefix, out, kvs.skip(out.len() as int).reverse()),
            trace,
            peers,
        ),
    ensures
        stand_for(prefix, kvs, peers),
    decreases trace.len(),
{
    let step = |s: ListingPeers, a: Answer| list_peers_next(s, a);
    let known = out.len() as int;
    let rest = kvs.skip(known).reverse();
    if rest.len() == 0 {
        assert(kvs.take(known) =~= kvs);
    } else {
        let state = ListingPeers::Clock(prefix, out, rest);
        let answer = trace[0].answer;
        assert(answer is Clock);
        let now = answer->Clock_0;
        let next = kvs[known];
        assert(rest.last() == next);
        let peer = seen(node_of(prefix, next.key), as_text(next.value), now);
        let more = out.push(peer);
        assert(rest.drop_last() =~= kvs.skip(known + 1).reverse());
        assert(step(state, answer) == list_peers_onward(
            prefix,
            more,
            kvs.skip(known + 1).reverse(),
        ));
        assert forall|i: int| #![trigger more[i]] 0 <= i < known + 1 implies stands_for(
            prefix,
            kvs.take(known + 1)[i],
            more[i],
        ) by {
            if i < known {
                assert(kvs.take(known)[i] == kvs.take(known + 1)[i]);
                assert(more[i] == out[i]);
            }
        }
        later_steps_list_the_rest(prefix, kvs, more, trace.drop_first(), peers);
    }
}

/// A listing yields one peer for each key that was read, in the order read, and
/// none twice: exactly the keys that begin with the prefix, each as a healthy
/// peer with the node and the address that the key tells. Where etcd cannot be
/// asked it yields nobody.
pub proof fn listed_peers_are_registered(
    start: Store,
    prefix: Seq<char>,
    peers: Seq<Peer>,
    trace: Seq<Exchange>,
)
    requires
        undisturbed(start, trace),
        lists_peers(prefix, peers, trace),
    ensures
        trace[0].answer is Refused || trace[1].answer is Failed ==> peers.len() == 0,
        !(trace[0].answer is Refused) && !(trace[1].answer is Failed) ==> stand_for(
            prefix,
            trace[1].answer->KeyValues_0,
            peers,
        ),
        forall|i: int, j: int|
            0 <= i < j < peers.len() ==> (#[trigger] peers[i]).node_id != (
            #[trigger] peers[j]).node_id,
        forall|i: int|
            0 <= i < peers.len() ==> {
                let key = prefix + (#[trigger] peers[i]).node_id;
                &&& start.keys.contains_key(key)
                &&& peers[i].address == as_text(start.keys[key].value)
                &&& peers[i].health == PeerHealth::Healthy
            },
        !(trace[0].answer is Refused) && !(trace[1].answer is Failed) ==> forall|node: Seq<char>|
            #![trigger start.keys.contains_key(prefix + node)]
            start.keys.contains_key(prefix + node) ==> exists|i: int|
                0 <= i < peers.len() && (#[trigger] peers[i]).node_id == node,
{
    reveal_with_fuel(ends_with, 3);
    let step = |s: ListingPeers, a: Answer| list_peers_next(s, a);
    let connected = ListingPeers::Connect(prefix);
    assert(step(connected, trace[0].answer) == list_peers_next(connected, trace[0].answer));
    if !(trace[0].answer is Refused) {
        let fetch = ListingPeers::Fetch(prefix);
        let after = trace.drop_first();
        assert(after[0] == trace[1]);
        assert(step(fetch, trace[1].answer) == list_peers_next(fetch, trace[1].answer));
        assert(trace[1].before == trace[0].after);
        if !(trace[1].answer is Failed) {
            let kvs = trace[1].answer->KeyValues_0;
            assert(kvs.skip(0) =~= kvs);
            let none = Seq::<Peer>::empty();
            assert(stand_for(prefix, kvs.take(0), none));
            assert(ends_with(
                step,
                list_peers_onward(prefix, none, kvs.skip(0).reverse()),
                after.drop_first(),
                peers,
            ));
            later_steps_list_the_rest(prefix, kvs, none, after.drop_first(), peers);
            assert forall|i: int| 0 <= i < peers.len() implies {
                let key = prefix + (#[trigger] peers[i]).node_id;
                &&& start.keys.contains_key(key)
                &&& kvs[i].key == encode_utf8(key)
                &&& peers[i].address == as_text(start.keys[key].value)
                &&& peers[i].health == PeerHealth::Healthy
            } by {
                assert(stands_for(prefix, kvs[i], peers[i]));
                assert(is_held_under(start, prefix, kvs[i]));
                let key = choose|key: Seq<char>|
                    #![trigger start.keys[key]]
                    start.keys.contains_key(key) && prefix.is_prefix_of(key) && kvs[i] == record_of(
                        key,
                        start.keys[key],
                    );
                encoded_text_is_read_back(key);
                assert(key =~= prefix + key.skip(prefix.len() as int)) by {
                    assert(key.take(prefix.len() as int) == prefix);
                    assert(key =~= key.take(prefix.len() as int) + key.skip(prefix.len() as int));
                }
            }
            assert forall|i: int, j: int| 0 <= i < j < peers.len() implies (
            #[trigger] peers[i]).node_id != (#[trigger] peers[j]).node_id by {
                assert(kvs[i].key != kvs[j].key);
                assert(kvs[i].key == encode_utf8(prefix + peers[i].node_id));
                assert(kvs[j].key == encode_utf8(prefix + peers[j].node_id));
            }
            assert forall|node: Seq<char>|
                #![trigger start.keys.contains_key(prefix + node)]
                start.keys.contains_key(prefix + node) implies exists|i: int|
                0 <= i < peers.len() && (#[trigger] peers[i]).node_id == node by {
                let key = prefix + node;
                assert(key.take(prefix.len() as int) =~= prefix);
                let record = record_of(key, start.keys[key]);
                assert(kvs.contains(record));
                let i = choose|i: int| 0 <= i < kvs.len() && kvs[i] == record;
                assert(stands_for(prefix, kvs[i], peers[i]));
                encoded_text_is_read_back(key);
                logical_undoes_full(prefix, node);
            }
        }
    }
}

// ---------------------------------------------------------------------------
// watching
// ---------------------------------------------------------------------------

/// What a listener is told of a change that is seen at `now`.
pub open spec fn told_of(prefix: Seq<char>, change: Change, now: UnixTime) -> Option<PeerChange> {
    match change.kv {
        None => None,
        Some(kv) => {
            let node_id = node_of(prefix, kv.key);
            Some(
                if !change.is_put {
                    PeerChange::Left(node_id)
                } else if kv.version > 1 {
                    PeerChange::HealthChanged(node_id, PeerHealth::Healthy)
                } else {
                    PeerChange::Joined(seen(node_id, as_text(kv.value), now))
                },
            )
        },
    }
}

/// What a listener is told of changes, in order.
pub open spec fn told(prefix: Seq<char>, events: Seq<Change>, now: UnixTime) -> Seq<PeerChange>
    decreases events.len(),
{
    if events.len() == 0 {
        Seq::empty()
    } else {
        let others = told(prefix, events.drop_first(), now);
        match told_of(prefix, events[0], now) {
            Some(change) => seq![change] + others,
            None => others,
        }
    }
}

/// How far a watch is from asking for more changes.
pub open spec fn to_tell(at: PeerWatchNext) -> nat {
    match at {
        Next::Ask(_, PeerWatching::Clock(_, rest, _, _)) => 2 * rest.len() + 2,
        Next::Ask(_, PeerWatching::Deliver(_, rest)) => 2 * rest.len() + 1,
        _ => 0,
    }
}

/// A change takes at most two steps to tell.
pub proof fn telling_gets_on(prefix: Seq<char>, rest: Seq<Change>)
    ensures
        to_tell(peer_watch_onward(prefix, rest)) <= 2 * rest.len(),
    decreases rest.len(),
{
    if rest.len() > 0 && rest.last().kv is None {
        telling_gets_on(prefix, rest.drop_last());
    }
}

/// What the listener is told until more changes are asked for, where the clock
/// stands at `now` and the listener takes everything.
pub open spec fn tells(at: PeerWatchNext, now: UnixTime) -> Seq<PeerChange>
    decreases to_tell(at),
{
    match at {
        Next::Ask(_, PeerWatching::Clock(prefix, rest, node_id, address)) => tells(
            peer_watch_next(
                PeerWatching::Clock(prefix, rest, node_id, address),
                Answer::Clock(now),
            ),
            now,
        ),
        Next::Ask(Call::DeliverPeerEvent(change), PeerWatching::Deliver(prefix, rest)) => {
            proof {
                telling_gets_on(prefix, rest);
            }
            seq![change] + tells(
                peer_watch_next(PeerWatching::Deliver(prefix, rest), Answer::Done),
                now,
            )
        },
        _ => Seq::empty(),
    }
}

proof fn the_rest_is_told(prefix: Seq<char>, events: Seq<Change>, now: UnixTime)
    ensures
        tells(peer_watch_onward(prefix, events.reverse()), now) == told(prefix, events, now),
    decreases events.len(),
{
    if events.len() > 0 {
        let rest = events.reverse();
        let others = events.drop_first();
        assert(rest.last() == events[0]);
        assert(rest.drop_last() =~= others.reverse());
        the_rest_is_told(prefix, others, now);
        reveal_with_fuel(tells, 3);
    }
}

/// A listener is told of every change of a key, in order: a key that was
/// created is a peer that joined, one that was written again a peer that
/// registered again, one that was removed a peer that left.
pub proof fn every_change_is_told(prefix: Seq<char>, events: Seq<Change>, now: UnixTime)
    ensures
        tells(
            peer_watch_next(PeerWatching::Receive(prefix), Answer::Events(Some(events))),
            now,
        ) == told(prefix, events, now),
{
    the_rest_is_told(prefix, events, now);
}

/// A watch ends, and is cancelled, when nobody listens any more.
pub proof fn watch_ends_with_its_listener(prefix: Seq<char>, rest: Seq<Change>, detail: Seq<char>)
    ensures
        peer_watch_next(PeerWatching::Poll(prefix), Answer::Closed(true)) == PeerWatchNext::Ask(
            Call::CancelWatch,
            PeerWatching::Cancel,
        ),
        peer_watch_next(PeerWatching::Deliver(prefix, rest), Answer::Failed(detail))
            == PeerWatchNext::Ask(Call::CancelWatch, PeerWatching::Cancel),
        peer_watch_next(PeerWatching::Cancel, Answer::Done) == PeerWatchNext::Finished(()),
{
}

} // verus!
