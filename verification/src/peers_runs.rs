//! What is asked of etcd about the peers, and what is made of its answers.
use vstd::prelude::*;

use crate::error::Fault;
use crate::kv_runs::is_done_or_failed;
use crate::peers::{
    list_peers_accepts, list_peers_next, list_peers_onward, peer_watch_accepts, peer_watch_next,
    peer_watch_onward, watch_peers_accepts, watch_peers_next, ListPeersNext, ListingPeers, Peer,
    PeerChange, PeerHealth, PeerWatchNext, PeerWatching, StartingWatch, WatchPeersNext,
};
use crate::protocol::{Answer, Call, Change, Next, Record};
use crate::runs::{
    first_is_last_in_reverse, run_begins, runs, turn, turns_can_be_grouped, Turn,
};
use crate::text::as_text;
use crate::time::{rfc3339, UnixTime};

verus! {

/// Whether the reading is a date: not before the epoch, and not after the last
/// second of the calendar.
pub open spec fn is_a_date(now: UnixTime) -> bool {
    0 <= now.secs <= 8_210_266_876_799 && now.nanos < 1_000_000_000
}

/// The node that is registered under `key`: what follows the prefix.
pub open spec fn node_under(prefix: Seq<char>, key: Seq<u8>) -> Seq<char> {
    if prefix.is_prefix_of(as_text(key)) {
        as_text(key).skip(prefix.len() as int)
    } else {
        as_text(key)
    }
}

/// The peer that is registered by a record, seen at `now`.
pub open spec fn peer_of(prefix: Seq<char>, record: Record, now: UnixTime) -> Peer {
    Peer {
        node_id: node_under(prefix, record.key),
        address: as_text(record.value),
        last_seen: rfc3339(now.secs as int),
        health: PeerHealth::Healthy,
        roles: Seq::empty(),
    }
}

// ---------------------------------------------------------------------------
// list_peers
// ---------------------------------------------------------------------------

/// Whether listing the peers under `prefix` runs through `turns` to `result`.
pub open spec fn list_peers_runs(
    prefix: Seq<char>,
    turns: Seq<Turn>,
    result: Seq<Peer>,
) -> bool {
    runs(
        |s: ListingPeers, a: Answer| list_peers_next(s, a),
        |s: ListingPeers, a: Answer| list_peers_accepts(s, a),
        ListPeersNext::Ask(Call::Connect, ListingPeers::Connect(prefix)),
        turns,
        result,
    )
}

/// One clock reading after the other.
pub open spec fn readings(times: Seq<UnixTime>) -> Seq<Turn> {
    times.map_values(|now: UnixTime| turn(Call::ReadClock, Answer::Clock(now)))
}

proof fn the_rest_of_the_peers_is_listed(
    prefix: Seq<char>,
    kvs: Seq<Record>,
    times: Seq<UnixTime>,
    known: Seq<Peer>,
    peers: Seq<Peer>,
)
    requires
        times.len() == kvs.len(),
        peers.len() == kvs.len(),
        forall|i: int| 0 <= i < times.len() ==> is_a_date(#[trigger] times[i]),
        forall|i: int|
            0 <= i < peers.len() ==> #[trigger] peers[i] == peer_of(prefix, kvs[i], times[i]),
    ensures
        runs(
            |s: ListingPeers, a: Answer| list_peers_next(s, a),
            |s: ListingPeers, a: Answer| list_peers_accepts(s, a),
            list_peers_onward(prefix, known, kvs.reverse()),
            readings(times),
            known + peers,
        ),
    decreases kvs.len(),
{
    let step = |s: ListingPeers, a: Answer| list_peers_next(s, a);
    let accepts = |s: ListingPeers, a: Answer| list_peers_accepts(s, a);
    if kvs.len() == 0 {
        assert(known + peers =~= known);
    } else {
        let (kvs1, times1, peers1) = (kvs.drop_first(), times.drop_first(), peers.drop_first());
        assert(is_a_date(times[0]));
        assert(peers[0] == peer_of(prefix, kvs[0], times[0]));
        assert forall|i: int| 0 <= i < times1.len() implies is_a_date(#[trigger] times1[i]) by {
            assert(times1[i] == times[i + 1]);
        }
        assert forall|i: int| 0 <= i < peers1.len() implies #[trigger] peers1[i] == peer_of(
            prefix,
            kvs1[i],
            times1[i],
        ) by {
            assert(peers1[i] == peers[i + 1]);
            assert(times1[i] == times[i + 1]);
        }
        let more = known.push(peers[0]);
        the_rest_of_the_peers_is_listed(prefix, kvs1, times1, more, peers1);
        assert(more + peers1 =~= known + peers);
        let rest = kvs.reverse();
        assert(rest.last() == kvs[0]);
        assert(rest.drop_last() =~= kvs1.reverse());
        let asked = ListingPeers::Clock(prefix, known, rest);
        let answer = Answer::Clock(times[0]);
        assert(step(asked, answer) == list_peers_onward(prefix, more, kvs1.reverse()));
        run_begins(
            step,
            accepts,
            Call::ReadClock,
            asked,
            answer,
            readings(times1),
            known + peers,
        );
        assert(readings(times) =~= seq![turn(Call::ReadClock, answer)] + readings(times1));
    }
}

/// The peers are what is registered under the prefix: one for each key, in
/// order, with the key's node, its value as the address, the time at which it
/// was seen, in good health and without roles. Where etcd cannot be reached
/// there are none.
pub proof fn peers_listing_runs(
    prefix: Seq<char>,
    kvs: Seq<Record>,
    times: Seq<UnixTime>,
    peers: Seq<Peer>,
    fault: Fault,
    detail: Seq<char>,
)
    requires
        times.len() == kvs.len(),
        peers.len() == kvs.len(),
        forall|i: int| 0 <= i < times.len() ==> is_a_date(#[trigger] times[i]),
        forall|i: int|
            0 <= i < peers.len() ==> #[trigger] peers[i] == peer_of(prefix, kvs[i], times[i]),
    ensures
        list_peers_runs(
            prefix,
            seq![
                turn(Call::Connect, Answer::Done),
                turn(Call::GetPrefix(prefix, None), Answer::KeyValues(kvs)),
            ] + readings(times),
            peers,
        ),
        list_peers_runs(
            prefix,
            seq![turn(Call::Connect, Answer::Refused(fault))],
            Seq::empty(),
        ),
        list_peers_runs(
            prefix,
            seq![
                turn(Call::Connect, Answer::Done),
                turn(Call::GetPrefix(prefix, None), Answer::Failed(detail)),
            ],
            Seq::empty(),
        ),
{
    let step = |s: ListingPeers, a: Answer| list_peers_next(s, a);
    let accepts = |s: ListingPeers, a: Answer| list_peers_accepts(s, a);
    let none: Seq<Peer> = Seq::empty();
    the_rest_of_the_peers_is_listed(prefix, kvs, times, none, peers);
    assert(none + peers =~= peers);
    let (connect, fetch) = (ListingPeers::Connect(prefix), ListingPeers::Fetch(prefix));
    let call = Call::GetPrefix(prefix, None);
    assert(step(fetch, Answer::KeyValues(kvs)) == list_peers_onward(prefix, none, kvs.reverse()));
    run_begins(step, accepts, call, fetch, Answer::KeyValues(kvs), readings(times), peers);
    let fetched = seq![turn(call, Answer::KeyValues(kvs))] + readings(times);
    assert(step(connect, Answer::Done) == ListPeersNext::Ask(call, fetch));
    run_begins(step, accepts, Call::Connect, connect, Answer::Done, fetched, peers);
    assert(seq![turn(Call::Connect, Answer::Done)] + fetched =~= seq![
        turn(Call::Connect, Answer::Done),
        turn(Call::GetPrefix(prefix, None), Answer::KeyValues(kvs)),
    ] + readings(times));
    reveal_with_fuel(runs, 4);
}

// ---------------------------------------------------------------------------
// watch_peers
// ---------------------------------------------------------------------------

/// Whether the beginning of a watch of the peers runs through `turns` to
/// `result`.
pub open spec fn watch_peers_runs(prefix: Seq<char>, turns: Seq<Turn>, result: bool) -> bool {
    runs(
        |s: StartingWatch, a: Answer| watch_peers_next(s, a),
        |s: StartingWatch, a: Answer| watch_peers_accepts(s, a),
        WatchPeersNext::Ask(Call::Connect, StartingWatch::Connect(prefix)),
        turns,
        result,
    )
}

/// A watch of the peers connects and watches the prefix; there is one if and
/// only if both succeed.
pub proof fn peers_watch_begins(prefix: Seq<char>, fault: Fault, detail: Seq<char>)
    ensures
        watch_peers_runs(
            prefix,
            seq![
                turn(Call::Connect, Answer::Done),
                turn(Call::StartWatch(prefix), Answer::Done),
            ],
            true,
        ),
        watch_peers_runs(prefix, seq![turn(Call::Connect, Answer::Refused(fault))], false),
        watch_peers_runs(
            prefix,
            seq![
                turn(Call::Connect, Answer::Done),
                turn(Call::StartWatch(prefix), Answer::Failed(detail)),
            ],
            false,
        ),
{
    reveal_with_fuel(runs, 4);
}

// ---------------------------------------------------------------------------
// telling of the peers
// ---------------------------------------------------------------------------

/// A batch of changes that was received, each with the time at which it is
/// looked at.
pub struct Changes {
    pub changes: Seq<Change>,
    pub times: Seq<UnixTime>,
}

/// Whether there is a date for each change.
pub open spec fn is_dated(batch: Changes) -> bool {
    &&& batch.times.len() == batch.changes.len()
    &&& forall|i: int| 0 <= i < batch.times.len() ==> is_a_date(#[trigger] batch.times[i])
}

/// What a change tells of a peer: that it left, where its key was removed; that
/// it is well, where its key was written again; that it joined, where its key
/// was created.
pub open spec fn event_of(prefix: Seq<char>, change: Change, now: UnixTime) -> PeerChange {
    let record = change.kv->0;
    if !change.is_put {
        PeerChange::Left(node_under(prefix, record.key))
    } else if record.version > 1 {
        PeerChange::HealthChanged(node_under(prefix, record.key), PeerHealth::Healthy)
    } else {
        PeerChange::Joined(peer_of(prefix, record, now))
    }
}

/// The turns for one change: where it holds no record there are none, and only
/// for a peer that joins is the clock read.
pub open spec fn telling(
    prefix: Seq<char>,
    change: Change,
    now: UnixTime,
    taken: Answer,
) -> Seq<Turn> {
    let told = turn(Call::DeliverPeerEvent(event_of(prefix, change, now)), taken);
    if change.kv is None {
        Seq::empty()
    } else if change.is_put && change.kv->0.version <= 1 {
        seq![turn(Call::ReadClock, Answer::Clock(now)), told]
    } else {
        seq![told]
    }
}

/// The turns for changes, one after the other, where the listener takes what it
/// is told.
pub open spec fn all_telling(
    prefix: Seq<char>,
    changes: Seq<Change>,
    times: Seq<UnixTime>,
) -> Seq<Turn>
    decreases changes.len(),
{
    if changes.len() == 0 {
        Seq::empty()
    } else {
        telling(prefix, changes[0], times[0], Answer::Done) + all_telling(
            prefix,
            changes.drop_first(),
            times.drop_first(),
        )
    }
}

/// The turns with which a batch is received.
pub open spec fn reception(changes: Seq<Change>) -> Seq<Turn> {
    seq![
        turn(Call::PollClosed, Answer::Closed(false)),
        turn(Call::ReceiveEvents, Answer::Events(Some(changes))),
    ]
}

/// The turns for batches, one after the other.
pub open spec fn batches_telling(prefix: Seq<char>, batches: Seq<Changes>) -> Seq<Turn>
    decreases batches.len(),
{
    if batches.len() == 0 {
        Seq::empty()
    } else {
        reception(batches[0].changes) + all_telling(prefix, batches[0].changes, batches[0].times)
            + batches_telling(prefix, batches.drop_first())
    }
}

/// Whether telling of the peers runs through `turns` to its end.
pub open spec fn telling_runs(prefix: Seq<char>, turns: Seq<Turn>) -> bool {
    runs(
        |s: PeerWatching, a: Answer| peer_watch_next(s, a),
        |s: PeerWatching, a: Answer| peer_watch_accepts(s, a),
        PeerWatchNext::Ask(Call::PollClosed, PeerWatching::Poll(prefix)),
        turns,
        (),
    )
}

proof fn one_change_is_told(
    prefix: Seq<char>,
    change: Change,
    now: UnixTime,
    left: Seq<Change>,
    taken: Answer,
    turns: Seq<Turn>,
)
    requires
        is_a_date(now),
        is_done_or_failed(taken),
        taken is Failed ==> change.kv is Some,
        runs(
            |s: PeerWatching, a: Answer| peer_watch_next(s, a),
            |s: PeerWatching, a: Answer| peer_watch_accepts(s, a),
            if taken is Done {
                peer_watch_onward(prefix, left)
            } else {
                PeerWatchNext::Ask(Call::CancelWatch, PeerWatching::Cancel)
            },
            turns,
            (),
        ),
    ensures
        runs(
            |s: PeerWatching, a: Answer| peer_watch_next(s, a),
            |s: PeerWatching, a: Answer| peer_watch_accepts(s, a),
            peer_watch_onward(prefix, left.push(change)),
            telling(prefix, change, now, taken) + turns,
            (),
        ),
{
    let step = |s: PeerWatching, a: Answer| peer_watch_next(s, a);
    let accepts = |s: PeerWatching, a: Answer| peer_watch_accepts(s, a);
    let rest = left.push(change);
    assert(rest.last() == change);
    assert(rest.drop_last() =~= left);
    let all = telling(prefix, change, now, taken) + turns;
    let told = Call::DeliverPeerEvent(event_of(prefix, change, now));
    let handed = PeerWatching::Deliver(prefix, left);
    let later = if taken is Done {
        peer_watch_onward(prefix, left)
    } else {
        PeerWatchNext::Ask(Call::CancelWatch, PeerWatching::Cancel)
    };
    assert(step(handed, taken) == later);
    run_begins(step, accepts, told, handed, taken, turns, ());
    let telling_turns = seq![turn(told, taken)] + turns;
    match change.kv {
        None => {
            assert(all =~= turns);
        },
        Some(record) => if change.is_put && record.version <= 1 {
            let node = node_under(prefix, record.key);
            let asked = PeerWatching::Clock(prefix, left, node, as_text(record.value));
            assert(step(asked, Answer::Clock(now)) == PeerWatchNext::Ask(told, handed));
            run_begins(
                step,
                accepts,
                Call::ReadClock,
                asked,
                Answer::Clock(now),
                telling_turns,
                (),
            );
            assert(all =~= seq![turn(Call::ReadClock, Answer::Clock(now))] + telling_turns);
        } else {
            assert(all =~= telling_turns);
        },
    }
}

proof fn changes_are_told(
    prefix: Seq<char>,
    changes: Seq<Change>,
    times: Seq<UnixTime>,
    more: Seq<Change>,
    turns: Seq<Turn>,
)
    requires
        times.len() == changes.len(),
        forall|i: int| 0 <= i < times.len() ==> is_a_date(#[trigger] times[i]),
        runs(
            |s: PeerWatching, a: Answer| peer_watch_next(s, a),
            |s: PeerWatching, a: Answer| peer_watch_accepts(s, a),
            peer_watch_onward(prefix, more.reverse()),
            turns,
            (),
        ),
    ensures
        runs(
            |s: PeerWatching, a: Answer| peer_watch_next(s, a),
            |s: PeerWatching, a: Answer| peer_watch_accepts(s, a),
            peer_watch_onward(prefix, (changes + more).reverse()),
            all_telling(prefix, changes, times) + turns,
            (),
        ),
    decreases changes.len(),
{
    if changes.len() == 0 {
        assert(changes + more =~= more);
        assert(all_telling(prefix, changes, times) + turns =~= turns);
    } else {
        let (changes1, times1) = (changes.drop_first(), times.drop_first());
        assert(is_a_date(times[0]));
        assert forall|i: int| 0 <= i < times1.len() implies is_a_date(#[trigger] times1[i]) by {
            assert(times1[i] == times[i + 1]);
        }
        changes_are_told(prefix, changes1, times1, more, turns);
        let left = (changes1 + more).reverse();
        let tail = all_telling(prefix, changes1, times1) + turns;
        one_change_is_told(prefix, changes[0], times[0], left, Answer::Done, tail);
        first_is_last_in_reverse(changes, more);
        turns_can_be_grouped(
            telling(prefix, changes[0], times[0], Answer::Done),
            all_telling(prefix, changes1, times1),
            turns,
        );
    }
}

proof fn a_batch_is_received(prefix: Seq<char>, changes: Seq<Change>, turns: Seq<Turn>)
    requires
        runs(
            |s: PeerWatching, a: Answer| peer_watch_next(s, a),
            |s: PeerWatching, a: Answer| peer_watch_accepts(s, a),
            peer_watch_onward(prefix, changes.reverse()),
            turns,
            (),
        ),
    ensures
        telling_runs(prefix, reception(changes) + turns),
{
    let step = |s: PeerWatching, a: Answer| peer_watch_next(s, a);
    let accepts = |s: PeerWatching, a: Answer| peer_watch_accepts(s, a);
    let poll = PeerWatching::Poll(prefix);
    let receive = PeerWatching::Receive(prefix);
    let batch = Answer::Events(Some(changes));
    assert(step(receive, batch) == peer_watch_onward(prefix, changes.reverse()));
    run_begins(step, accepts, Call::ReceiveEvents, receive, batch, turns, ());
    let received = seq![turn(Call::ReceiveEvents, batch)] + turns;
    assert(step(poll, Answer::Closed(false)) == PeerWatchNext::Ask(Call::ReceiveEvents, receive));
    run_begins(step, accepts, Call::PollClosed, poll, Answer::Closed(false), received, ());
    assert(seq![turn(Call::PollClosed, Answer::Closed(false))] + received =~= reception(changes)
        + turns);
}

/// However many batches come, a listener that is there is told of every change
/// of each, in order, as [`event_of`] says, and then more are asked for: after
/// the batches telling goes on as if it had just begun.
pub proof fn telling_goes_on(prefix: Seq<char>, batches: Seq<Changes>, turns: Seq<Turn>)
    requires
        forall|i: int| 0 <= i < batches.len() ==> is_dated(#[trigger] batches[i]),
        telling_runs(prefix, turns),
    ensures
        telling_runs(prefix, batches_telling(prefix, batches) + turns),
    decreases batches.len(),
{
    if batches.len() == 0 {
        assert(batches_telling(prefix, batches) + turns =~= turns);
    } else {
        let batch = batches[0];
        let rest = batches.drop_first();
        assert(is_dated(batches[0]));
        assert forall|i: int| 0 <= i < rest.len() implies is_dated(#[trigger] rest[i]) by {
            assert(rest[i] == batches[i + 1]);
        }
        telling_goes_on(prefix, rest, turns);
        let tail = batches_telling(prefix, rest) + turns;
        let none: Seq<Change> = Seq::empty();
        assert(none.reverse() =~= none);
        changes_are_told(prefix, batch.changes, batch.times, none, tail);
        assert(batch.changes + none =~= batch.changes);
        let told = all_telling(prefix, batch.changes, batch.times) + tail;
        a_batch_is_received(prefix, batch.changes, told);
        assert(reception(batch.changes) + told =~= batches_telling(prefix, batches) + turns);
    }
}

/// Telling ends when its listener is gone: after the poll that says so, the
/// watch is cancelled. It ends, too, when the watch is gone.
pub proof fn telling_ends_with_listener_or_watch(
    prefix: Seq<char>,
    cancelled: Answer,
    detail: Seq<char>,
)
    requires
        is_done_or_failed(cancelled),
    ensures
        telling_runs(
            prefix,
            seq![
                turn(Call::PollClosed, Answer::Closed(true)),
                turn(Call::CancelWatch, cancelled),
            ],
        ),
        telling_runs(
            prefix,
            seq![
                turn(Call::PollClosed, Answer::Closed(false)),
                turn(Call::ReceiveEvents, Answer::Events(None)),
            ],
        ),
        telling_runs(
            prefix,
            seq![
                turn(Call::PollClosed, Answer::Closed(false)),
                turn(Call::ReceiveEvents, Answer::Failed(detail)),
            ],
        ),
{
    reveal_with_fuel(runs, 4);
}

/// Telling ends at the first event that its listener does not take: the watch
/// is cancelled, and nothing more of the batch is told.
pub proof fn telling_ends_with_an_event_not_taken(
    prefix: Seq<char>,
    batch: Changes,
    at: int,
    detail: Seq<char>,
    cancelled: Answer,
)
    requires
        is_dated(batch),
        0 <= at < batch.changes.len(),
        batch.changes[at].kv is Some,
        is_done_or_failed(cancelled),
    ensures
        telling_runs(
            prefix,
            reception(batch.changes) + (all_telling(
                prefix,
                batch.changes.take(at),
                batch.times.take(at),
            ) + (telling(prefix, batch.changes[at], batch.times[at], Answer::Failed(detail)) + seq![
                turn(Call::CancelWatch, cancelled),
            ])),
        ),
{
    let step = |s: PeerWatching, a: Answer| peer_watch_next(s, a);
    let accepts = |s: PeerWatching, a: Answer| peer_watch_accepts(s, a);
    let more = batch.changes.skip(at);
    let left = batch.changes.skip(at + 1).reverse();
    let end = seq![turn(Call::CancelWatch, cancelled)];
    assert(runs(
        step,
        accepts,
        PeerWatchNext::Ask(Call::CancelWatch, PeerWatching::Cancel),
        end,
        (),
    )) by {
        reveal_with_fuel(runs, 3);
    }
    assert(is_a_date(batch.times[at]));
    one_change_is_told(
        prefix,
        batch.changes[at],
        batch.times[at],
        left,
        Answer::Failed(detail),
        end,
    );
    assert(more.reverse() =~= left.push(batch.changes[at]));
    let tail = telling(prefix, batch.changes[at], batch.times[at], Answer::Failed(detail)) + end;
    let times = batch.times.take(at);
    assert forall|i: int| 0 <= i < times.len() implies is_a_date(#[trigger] times[i]) by {
        assert(times[i] == batch.times[i]);
    }
    changes_are_told(prefix, batch.changes.take(at), times, more, tail);
    assert(batch.changes.take(at) + more =~= batch.changes);
    a_batch_is_received(
        prefix,
        batch.changes,
        all_telling(prefix, batch.changes.take(at), times) + tail,
    );
}

/// Whether the watch may be cancelled after the turn: a poll said that nobody
/// listens, or an event was not taken.
pub open spec fn ends_listening(turn: Turn) -> bool {
    ||| turn.call is PollClosed && turn.answer == Answer::Closed(true)
    ||| turn.call is DeliverPeerEvent && turn.answer is Failed
}

/// Whether telling asks for what its state waits for.
pub open spec fn tells_in_step(at: PeerWatchNext) -> bool {
    match at {
        Next::Ask(call, PeerWatching::Poll(_)) => call is PollClosed,
        Next::Ask(call, PeerWatching::Receive(_)) => call is ReceiveEvents,
        Next::Ask(call, PeerWatching::Clock(_, _, _, _)) => call is ReadClock,
        Next::Ask(call, PeerWatching::Deliver(_, _)) => call is DeliverPeerEvent,
        Next::Ask(call, PeerWatching::Cancel) => call is CancelWatch,
        Next::Finished(_) => true,
    }
}

proof fn onward_tells_or_polls(prefix: Seq<char>, rest: Seq<Change>)
    ensures
        match peer_watch_onward(prefix, rest) {
            Next::Ask(call, PeerWatching::Poll(_)) => call is PollClosed,
            Next::Ask(call, PeerWatching::Clock(_, _, _, _)) => call is ReadClock,
            Next::Ask(call, PeerWatching::Deliver(_, _)) => call is DeliverPeerEvent,
            _ => false,
        },
    decreases rest.len(),
{
    if rest.len() > 0 {
        onward_tells_or_polls(prefix, rest.drop_last());
    }
}

proof fn cancelled_only_then(at: PeerWatchNext, turns: Seq<Turn>)
    requires
        tells_in_step(at),
        runs(
            |s: PeerWatching, a: Answer| peer_watch_next(s, a),
            |s: PeerWatching, a: Answer| peer_watch_accepts(s, a),
            at,
            turns,
            (),
        ),
    ensures
        forall|i: int|
            0 < i < turns.len() && (#[trigger] turns[i]).call is CancelWatch ==> ends_listening(
                turns[i - 1],
            ),
        turns.len() > 0 ==> turns.last().call is CancelWatch || (turns.last().call is ReceiveEvents
            && (turns.last().answer is Failed || turns.last().answer == Answer::Events(None))),
    decreases turns.len(),
{
    let step = |s: PeerWatching, a: Answer| peer_watch_next(s, a);
    let accepts = |s: PeerWatching, a: Answer| peer_watch_accepts(s, a);
    match at {
        Next::Ask(call, state) => {
            let answer = turns[0].answer;
            let later = peer_watch_next(state, answer);
            assert(step(state, answer) == later);
            assert(accepts(state, answer));
            assert(peer_watch_accepts(state, answer));
            let rest = turns.drop_first();
            match (state, answer) {
                (PeerWatching::Receive(prefix), Answer::Events(Some(events))) => {
                    onward_tells_or_polls(prefix, events.reverse());
                },
                (PeerWatching::Deliver(prefix, left), _) => {
                    onward_tells_or_polls(prefix, left);
                },
                _ => {},
            }
            assert(runs(step, accepts, later, rest, ()));
            cancelled_only_then(later, rest);
            assert forall|i: int|
                0 < i < turns.len() && (#[trigger] turns[i]).call is CancelWatch implies
                ends_listening(turns[i - 1]) by {
                assert(turns[i] == rest[i - 1]);
                if i > 1 {
                    assert(turns[i - 1] == rest[i - 2]);
                }
            }
            if rest.len() > 0 {
                assert(turns.last() == rest.last());
            } else {
                assert(turns.last() == turns[0]);
            }
        },
        Next::Finished(_) => {},
    }
}

/// The watch of the peers is cancelled only after a poll that says that nobody
/// listens or an event that was not taken, and telling that does not end so ends
/// only because the watch is gone.
pub proof fn telling_ends_for_a_reason(prefix: Seq<char>, turns: Seq<Turn>)
    requires
        telling_runs(prefix, turns),
    ensures
        turns.len() > 0,
        forall|i: int|
            0 <= i < turns.len() && (#[trigger] turns[i]).call is CancelWatch ==> i > 0
                && ends_listening(turns[i - 1]),
        turns.last().call is CancelWatch || (turns.last().call is ReceiveEvents && (
        turns.last().answer is Failed || turns.last().answer == Answer::Events(None))),
{
    cancelled_only_then(PeerWatchNext::Ask(Call::PollClosed, PeerWatching::Poll(prefix)), turns);
}

} // verus!
