//! What publishers and subscribers ask of etcd, and what they make of its
//! answers.
use vstd::prelude::*;

use crate::error::Fault;
use crate::events::{
    delivery_accepts, delivery_next, delivery_onward, publish_accepts, publish_next,
    subscribe_accepts, subscribe_next, Delivering, DeliveryNext, Interest, Message, PublishNext,
    Publishing, SubscribeNext, Subscribing,
};
use crate::kv_runs::is_done_or_failed;
use crate::protocol::{Answer, Call, Change, Next};
use crate::runs::{run_begins, runs, turn, Turn};

verus! {

// ---------------------------------------------------------------------------
// publish
// ---------------------------------------------------------------------------

/// Whether publishing under `key`, for `ttl` seconds, runs through `turns` to
/// `result`.
pub open spec fn publish_runs(
    key: Seq<char>,
    ttl: i64,
    routing_key: Option<Seq<char>>,
    payload: Seq<u8>,
    turns: Seq<Turn>,
    result: Result<(), Fault>,
) -> bool {
    runs(
        |s: Publishing, a: Answer| publish_next(s, a),
        |s: Publishing, a: Answer| publish_accepts(s, a),
        PublishNext::Ask(Call::Encode(routing_key, payload), Publishing::Encode(key, ttl)),
        turns,
        result,
    )
}

/// Publishing wraps the payload with its routing key, connects, asks for a
/// lease of the event's lifetime and puts what was wrapped under the event's
/// key, attached to that lease. What fails on the way is reported.
pub proof fn publishing_runs(
    key: Seq<char>,
    ttl: i64,
    routing_key: Option<Seq<char>>,
    payload: Seq<u8>,
    wire: Seq<u8>,
    lease: i64,
    fault: Fault,
    detail: Seq<char>,
)
    ensures
        publish_runs(
            key,
            ttl,
            routing_key,
            payload,
            seq![
                turn(Call::Encode(routing_key, payload), Answer::Bytes(wire)),
                turn(Call::Connect, Answer::Done),
                turn(Call::LeaseGrant(ttl), Answer::Granted(lease)),
                turn(Call::Put(key, wire, Some(lease)), Answer::Done),
            ],
            Ok(()),
        ),
        publish_runs(
            key,
            ttl,
            routing_key,
            payload,
            seq![turn(Call::Encode(routing_key, payload), Answer::Failed(detail))],
            Err(Fault::Internal("publish envelope: "@ + detail)),
        ),
        publish_runs(
            key,
            ttl,
            routing_key,
            payload,
            seq![
                turn(Call::Encode(routing_key, payload), Answer::Bytes(wire)),
                turn(Call::Connect, Answer::Refused(fault)),
            ],
            Err(fault),
        ),
        publish_runs(
            key,
            ttl,
            routing_key,
            payload,
            seq![
                turn(Call::Encode(routing_key, payload), Answer::Bytes(wire)),
                turn(Call::Connect, Answer::Done),
                turn(Call::LeaseGrant(ttl), Answer::Failed(detail)),
            ],
            Err(Fault::BackendUnavailable("lease_grant: "@ + detail)),
        ),
        publish_runs(
            key,
            ttl,
            routing_key,
            payload,
            seq![
                turn(Call::Encode(routing_key, payload), Answer::Bytes(wire)),
                turn(Call::Connect, Answer::Done),
                turn(Call::LeaseGrant(ttl), Answer::Granted(lease)),
                turn(Call::Put(key, wire, Some(lease)), Answer::Failed(detail)),
            ],
            Err(Fault::BackendUnavailable("put: "@ + detail)),
        ),
{
    reveal_with_fuel(runs, 6);
    reveal_strlit(": ");
    reveal_strlit("publish envelope");
    reveal_strlit("publish envelope: ");
    reveal_strlit("lease_grant");
    reveal_strlit("lease_grant: ");
    reveal_strlit("put");
    reveal_strlit("put: ");
    assert("publish envelope"@ + ": "@ + detail =~= "publish envelope: "@ + detail);
    assert("lease_grant"@ + ": "@ + detail =~= "lease_grant: "@ + detail);
    assert("put"@ + ": "@ + detail =~= "put: "@ + detail);
}

// ---------------------------------------------------------------------------
// subscribe
// ---------------------------------------------------------------------------

/// Whether the beginning of a subscription to what is under `prefix` runs
/// through `turns` to `result`.
pub open spec fn subscribe_runs(
    prefix: Seq<char>,
    turns: Seq<Turn>,
    result: Result<(), Fault>,
) -> bool {
    runs(
        |s: Subscribing, a: Answer| subscribe_next(s, a),
        |s: Subscribing, a: Answer| subscribe_accepts(s, a),
        SubscribeNext::Ask(Call::Connect, Subscribing::Connect(prefix)),
        turns,
        result,
    )
}

/// A subscription connects and watches the keys of its topic. What fails on the
/// way is reported.
pub proof fn subscribing_runs(prefix: Seq<char>, fault: Fault, detail: Seq<char>)
    ensures
        subscribe_runs(
            prefix,
            seq![
                turn(Call::Connect, Answer::Done),
                turn(Call::StartWatch(prefix), Answer::Done),
            ],
            Ok(()),
        ),
        subscribe_runs(prefix, seq![turn(Call::Connect, Answer::Refused(fault))], Err(fault)),
        subscribe_runs(
            prefix,
            seq![
                turn(Call::Connect, Answer::Done),
                turn(Call::StartWatch(prefix), Answer::Failed(detail)),
            ],
            Err(Fault::BackendUnavailable("watch start: "@ + detail)),
        ),
{
    reveal_with_fuel(runs, 4);
    reveal_strlit(": ");
    reveal_strlit("watch start");
    reveal_strlit("watch start: ");
    assert("watch start"@ + ": "@ + detail =~= "watch start: "@ + detail);
}

// ---------------------------------------------------------------------------
// delivery
// ---------------------------------------------------------------------------

/// What unwrapping a value comes to.
pub enum Unwrapped {
    /// It does not hold an event.
    Garbage(Seq<char>),
    /// It holds an event with this routing key and this payload.
    Event(Option<Seq<char>>, Seq<u8>),
}

/// A batch of changes that was received, each with what unwrapping its value
/// comes to.
pub struct Batch {
    pub changes: Seq<Change>,
    pub unwrapped: Seq<Unwrapped>,
}

/// Whether the batch tells of each change what unwrapping it comes to.
pub open spec fn is_whole(batch: Batch) -> bool {
    batch.unwrapped.len() == batch.changes.len()
}

/// Whether the change is a message for the subscriber: a key that was written,
/// with an event whose routing key is the subscriber's, if the subscriber has
/// one.
pub open spec fn is_message_for(interest: Interest, change: Change, unwrapped: Unwrapped) -> bool {
    &&& change.is_put
    &&& change.kv is Some
    &&& unwrapped is Event
    &&& interest.routing_key is None || unwrapped->Event_0 == interest.routing_key
}

/// The message that the subscriber gets of an event.
pub open spec fn message_of(interest: Interest, unwrapped: Unwrapped) -> Message {
    Message {
        topic: interest.topic,
        routing_key: unwrapped->Event_0,
        payload: unwrapped->Event_1,
        from_node: interest.node_id,
    }
}

/// How a value is unwrapped: not at all where no value was written.
pub open spec fn unwrapping(change: Change, unwrapped: Unwrapped) -> Seq<Turn> {
    if change.is_put && change.kv is Some {
        seq![
            turn(
                Call::Decode(change.kv->0.value),
                match unwrapped {
                    Unwrapped::Garbage(detail) => Answer::Failed(detail),
                    Unwrapped::Event(routing_key, payload) => Answer::Envelope(
                        routing_key,
                        payload,
                    ),
                },
            ),
        ]
    } else {
        Seq::empty()
    }
}

/// The turns for one change, where the subscriber takes what it is handed.
pub open spec fn change_turns(
    interest: Interest,
    change: Change,
    unwrapped: Unwrapped,
) -> Seq<Turn> {
    unwrapping(change, unwrapped) + if is_message_for(interest, change, unwrapped) {
        seq![turn(Call::DeliverMessage(message_of(interest, unwrapped)), Answer::Done)]
    } else {
        Seq::empty()
    }
}

/// The turns for changes, one after the other.
pub open spec fn changes_turns(
    interest: Interest,
    changes: Seq<Change>,
    unwrapped: Seq<Unwrapped>,
) -> Seq<Turn>
    decreases changes.len(),
{
    if changes.len() == 0 {
        Seq::empty()
    } else {
        change_turns(interest, changes[0], unwrapped[0]) + changes_turns(
            interest,
            changes.drop_first(),
            unwrapped.drop_first(),
        )
    }
}

/// The turns with which a batch is received.
pub open spec fn reception(changes: Seq<Change>) -> Seq<Turn> {
    seq![
        turn(Call::PollClosed, Answer::Closed(false)),
        turn(Call::ReceiveEvents, Answer::Events(Some(changes))),
    ]
}

/// The turns for batches, one after the other.
pub open spec fn batches_turns(interest: Interest, batches: Seq<Batch>) -> Seq<Turn>
    decreases batches.len(),
{
    if batches.len() == 0 {
        Seq::empty()
    } else {
        reception(batches[0].changes) + changes_turns(
            interest,
            batches[0].changes,
            batches[0].unwrapped,
        ) + batches_turns(interest, batches.drop_first())
    }
}

/// Whether handing messages over runs through `turns` to its end.
pub open spec fn delivery_runs(interest: Interest, turns: Seq<Turn>) -> bool {
    runs(
        |s: Delivering, a: Answer| delivery_next(s, a),
        |s: Delivering, a: Answer| delivery_accepts(s, a),
        DeliveryNext::Ask(Call::PollClosed, Delivering::Poll(interest)),
        turns,
        (),
    )
}

proof fn changes_are_looked_at(
    interest: Interest,
    changes: Seq<Change>,
    unwrapped: Seq<Unwrapped>,
    more: Seq<Change>,
    turns: Seq<Turn>,
)
    requires
        unwrapped.len() == changes.len(),
        runs(
            |s: Delivering, a: Answer| delivery_next(s, a),
            |s: Delivering, a: Answer| delivery_accepts(s, a),
            delivery_onward(interest, more.reverse()),
            turns,
            (),
        ),
    ensures
        runs(
            |s: Delivering, a: Answer| delivery_next(s, a),
            |s: Delivering, a: Answer| delivery_accepts(s, a),
            delivery_onward(interest, (changes + more).reverse()),
            changes_turns(interest, changes, unwrapped) + turns,
            (),
        ),
    decreases changes.len(),
{
    let step = |s: Delivering, a: Answer| delivery_next(s, a);
    let accepts = |s: Delivering, a: Answer| delivery_accepts(s, a);
    if changes.len() == 0 {
        assert(changes + more =~= more);
        assert(changes_turns(interest, changes, unwrapped) + turns =~= turns);
    } else {
        let (change, held) = (changes[0], unwrapped[0]);
        let (changes1, unwrapped1) = (changes.drop_first(), unwrapped.drop_first());
        changes_are_looked_at(interest, changes1, unwrapped1, more, turns);
        let rest = (changes + more).reverse();
        let left = (changes1 + more).reverse();
        assert(rest.last() == change);
        assert(rest.drop_last() =~= left);
        let tail = changes_turns(interest, changes1, unwrapped1) + turns;
        let all = changes_turns(interest, changes, unwrapped) + turns;
        if change.is_put && change.kv is Some {
            let call = Call::Decode(change.kv->0.value);
            let asked = Delivering::Decode(interest, left);
            match held {
                Unwrapped::Garbage(detail) => {
                    assert(step(asked, Answer::Failed(detail)) == delivery_onward(interest, left));
                    run_begins(step, accepts, call, asked, Answer::Failed(detail), tail, ());
                    assert(all =~= seq![turn(call, Answer::Failed(detail))] + tail);
                },
                Unwrapped::Event(routing_key, payload) => {
                    let answer = Answer::Envelope(routing_key, payload);
                    if is_message_for(interest, change, held) {
                        let handing = Call::DeliverMessage(message_of(interest, held));
                        let handed = Delivering::Deliver(interest, left);
                        assert(step(handed, Answer::Done) == delivery_onward(interest, left));
                        run_begins(step, accepts, handing, handed, Answer::Done, tail, ());
                        let taken = seq![turn(handing, Answer::Done)] + tail;
                        assert(step(asked, answer) == DeliveryNext::Ask(handing, handed));
                        run_begins(step, accepts, call, asked, answer, taken, ());
                        assert(all =~= seq![turn(call, answer)] + taken);
                    } else {
                        assert(step(asked, answer) == delivery_onward(interest, left));
                        run_begins(step, accepts, call, asked, answer, tail, ());
                        assert(all =~= seq![turn(call, answer)] + tail);
                    }
                },
            }
        } else {
            assert(all =~= tail);
        }
    }
}

proof fn a_batch_is_received(interest: Interest, changes: Seq<Change>, turns: Seq<Turn>)
    requires
        runs(
            |s: Delivering, a: Answer| delivery_next(s, a),
            |s: Delivering, a: Answer| delivery_accepts(s, a),
            delivery_onward(interest, changes.reverse()),
            turns,
            (),
        ),
    ensures
        delivery_runs(interest, reception(changes) + turns),
{
    let step = |s: Delivering, a: Answer| delivery_next(s, a);
    let accepts = |s: Delivering, a: Answer| delivery_accepts(s, a);
    let poll = Delivering::Poll(interest);
    let receive = Delivering::Receive(interest);
    let batch = Answer::Events(Some(changes));
    assert(step(receive, batch) == delivery_onward(interest, changes.reverse()));
    run_begins(step, accepts, Call::ReceiveEvents, receive, batch, turns, ());
    let received = seq![turn(Call::ReceiveEvents, batch)] + turns;
    assert(step(poll, Answer::Closed(false)) == DeliveryNext::Ask(Call::ReceiveEvents, receive));
    run_begins(step, accepts, Call::PollClosed, poll, Answer::Closed(false), received, ());
    assert(seq![turn(Call::PollClosed, Answer::Closed(false))] + received =~= reception(changes)
        + turns);
}

/// However many batches come, a subscription whose listener is there hands over
/// what each holds and then asks for more: after the batches it goes on as one
/// that has just begun.
pub proof fn subscriptions_go_on(interest: Interest, batches: Seq<Batch>, turns: Seq<Turn>)
    requires
        forall|i: int| 0 <= i < batches.len() ==> is_whole(#[trigger] batches[i]),
        delivery_runs(interest, turns),
    ensures
        delivery_runs(interest, batches_turns(interest, batches) + turns),
    decreases batches.len(),
{
    if batches.len() == 0 {
        assert(batches_turns(interest, batches) + turns =~= turns);
    } else {
        let batch = batches[0];
        let rest = batches.drop_first();
        assert(is_whole(batches[0]));
        assert forall|i: int| 0 <= i < rest.len() implies is_whole(#[trigger] rest[i]) by {
            assert(rest[i] == batches[i + 1]);
        }
        subscriptions_go_on(interest, rest, turns);
        let tail = batches_turns(interest, rest) + turns;
        let none: Seq<Change> = Seq::empty();
        assert(none.reverse() =~= none);
        changes_are_looked_at(interest, batch.changes, batch.unwrapped, none, tail);
        assert(batch.changes + none =~= batch.changes);
        let looked = changes_turns(interest, batch.changes, batch.unwrapped) + tail;
        a_batch_is_received(interest, batch.changes, looked);
        assert(reception(batch.changes) + looked =~= batches_turns(interest, batches) + turns);
    }
}

/// A subscription ends when its listener is gone: after the poll that says so,
/// the watch is cancelled. It ends, too, when the watch is gone.
pub proof fn subscriptions_end_with_listener_or_watch(
    interest: Interest,
    cancelled: Answer,
    detail: Seq<char>,
)
    requires
        is_done_or_failed(cancelled),
    ensures
        delivery_runs(
            interest,
            seq![
                turn(Call::PollClosed, Answer::Closed(true)),
                turn(Call::CancelWatch, cancelled),
            ],
        ),
        delivery_runs(
            interest,
            seq![
                turn(Call::PollClosed, Answer::Closed(false)),
                turn(Call::ReceiveEvents, Answer::Events(None)),
            ],
        ),
        delivery_runs(
            interest,
            seq![
                turn(Call::PollClosed, Answer::Closed(false)),
                turn(Call::ReceiveEvents, Answer::Failed(detail)),
            ],
        ),
{
    reveal_with_fuel(runs, 4);
}

/// A subscription ends at the first message that its listener does not take: the
/// watch is cancelled, and nothing more of the batch is looked at.
pub proof fn subscriptions_end_with_a_message_not_taken(
    interest: Interest,
    batch: Batch,
    at: int,
    detail: Seq<char>,
    cancelled: Answer,
)
    requires
        is_whole(batch),
        0 <= at < batch.changes.len(),
        is_message_for(interest, batch.changes[at], batch.unwrapped[at]),
        is_done_or_failed(cancelled),
    ensures
        delivery_runs(
            interest,
            reception(batch.changes) + (changes_turns(
                interest,
                batch.changes.take(at),
                batch.unwrapped.take(at),
            ) + seq![
                unwrapping(batch.changes[at], batch.unwrapped[at])[0],
                turn(
                    Call::DeliverMessage(message_of(interest, batch.unwrapped[at])),
                    Answer::Failed(detail),
                ),
                turn(Call::CancelWatch, cancelled),
            ]),
        ),
{
    let more = batch.changes.skip(at);
    let end = seq![
        unwrapping(batch.changes[at], batch.unwrapped[at])[0],
        turn(
            Call::DeliverMessage(message_of(interest, batch.unwrapped[at])),
            Answer::Failed(detail),
        ),
        turn(Call::CancelWatch, cancelled),
    ];
    assert(runs(
        |s: Delivering, a: Answer| delivery_next(s, a),
        |s: Delivering, a: Answer| delivery_accepts(s, a),
        delivery_onward(interest, more.reverse()),
        end,
        (),
    )) by {
        reveal_with_fuel(runs, 5);
        assert(more.reverse().last() == batch.changes[at]);
    }
    changes_are_looked_at(
        interest,
        batch.changes.take(at),
        batch.unwrapped.take(at),
        more,
        end,
    );
    assert(batch.changes.take(at) + more =~= batch.changes);
    a_batch_is_received(
        interest,
        batch.changes,
        changes_turns(interest, batch.changes.take(at), batch.unwrapped.take(at)) + end,
    );
}

/// The messages that are handed over in `turns`, in order.
pub open spec fn handed_over(turns: Seq<Turn>) -> Seq<Message>
    decreases turns.len(),
{
    if turns.len() == 0 {
        Seq::empty()
    } else if turns[0].call is DeliverMessage {
        seq![turns[0].call->DeliverMessage_0] + handed_over(turns.drop_first())
    } else {
        handed_over(turns.drop_first())
    }
}

/// The messages that changes hold for the subscriber, in order.
pub open spec fn messages_in(
    interest: Interest,
    changes: Seq<Change>,
    unwrapped: Seq<Unwrapped>,
) -> Seq<Message>
    decreases changes.len(),
{
    if changes.len() == 0 {
        Seq::empty()
    } else if is_message_for(interest, changes[0], unwrapped[0]) {
        seq![message_of(interest, unwrapped[0])] + messages_in(
            interest,
            changes.drop_first(),
            unwrapped.drop_first(),
        )
    } else {
        messages_in(interest, changes.drop_first(), unwrapped.drop_first())
    }
}

/// The messages that batches hold for the subscriber, in order.
pub open spec fn messages_in_all(interest: Interest, batches: Seq<Batch>) -> Seq<Message>
    decreases batches.len(),
{
    if batches.len() == 0 {
        Seq::empty()
    } else {
        messages_in(interest, batches[0].changes, batches[0].unwrapped) + messages_in_all(
            interest,
            batches.drop_first(),
        )
    }
}

proof fn handed_over_adds_up(first: Seq<Turn>, second: Seq<Turn>)
    ensures
        handed_over(first + second) == handed_over(first) + handed_over(second),
    decreases first.len(),
{
    if first.len() == 0 {
        assert(first + second =~= second);
    } else {
        handed_over_adds_up(first.drop_first(), second);
        assert((first + second).drop_first() =~= first.drop_first() + second);
        assert((first + second)[0] == first[0]);
        assert(handed_over(first + second) =~= handed_over(first) + handed_over(second));
    }
}

proof fn changes_are_handed_over(
    interest: Interest,
    changes: Seq<Change>,
    unwrapped: Seq<Unwrapped>,
)
    requires
        unwrapped.len() == changes.len(),
    ensures
        handed_over(changes_turns(interest, changes, unwrapped)) == messages_in(
            interest,
            changes,
            unwrapped,
        ),
    decreases changes.len(),
{
    if changes.len() > 0 {
        let head = change_turns(interest, changes[0], unwrapped[0]);
        let (changes1, unwrapped1) = (changes.drop_first(), unwrapped.drop_first());
        changes_are_handed_over(interest, changes1, unwrapped1);
        handed_over_adds_up(head, changes_turns(interest, changes1, unwrapped1));
        reveal_with_fuel(handed_over, 4);
        if is_message_for(interest, changes[0], unwrapped[0]) {
            assert(handed_over(head) =~= seq![message_of(interest, unwrapped[0])]);
        } else {
            assert(handed_over(head) =~= Seq::<Message>::empty());
        }
        assert(handed_over(changes_turns(interest, changes, unwrapped)) =~= messages_in(
            interest,
            changes,
            unwrapped,
        ));
    }
}

/// Over any number of batches, where every poll says that somebody listens and
/// every message is taken, the messages that are handed over are those of each
/// batch, one batch after the other, in order, and none besides.
pub proof fn every_batch_is_handed_over(interest: Interest, batches: Seq<Batch>)
    requires
        forall|i: int| 0 <= i < batches.len() ==> is_whole(#[trigger] batches[i]),
    ensures
        handed_over(batches_turns(interest, batches)) == messages_in_all(interest, batches),
    decreases batches.len(),
{
    if batches.len() > 0 {
        let batch = batches[0];
        let rest = batches.drop_first();
        assert(is_whole(batches[0]));
        assert forall|i: int| 0 <= i < rest.len() implies is_whole(#[trigger] rest[i]) by {
            assert(rest[i] == batches[i + 1]);
        }
        every_batch_is_handed_over(interest, rest);
        let got = reception(batch.changes);
        let looked = changes_turns(interest, batch.changes, batch.unwrapped);
        changes_are_handed_over(interest, batch.changes, batch.unwrapped);
        handed_over_adds_up(got, looked);
        handed_over_adds_up(got + looked, batches_turns(interest, rest));
        reveal_with_fuel(handed_over, 4);
        assert(handed_over(got) =~= Seq::<Message>::empty());
        assert(handed_over(got + looked) =~= handed_over(looked));
    }
}

/// What a change holds, where values are unwrapped by `codec`.
pub open spec fn held_by(codec: spec_fn(Seq<u8>) -> Unwrapped, change: Change) -> Unwrapped {
    codec(change.kv->0.value)
}

/// The messages that changes hold for the subscriber, in order, where values are
/// unwrapped by `codec`.
pub open spec fn messages_by(
    interest: Interest,
    changes: Seq<Change>,
    codec: spec_fn(Seq<u8>) -> Unwrapped,
) -> Seq<Message>
    decreases changes.len(),
{
    if changes.len() == 0 {
        Seq::empty()
    } else if is_message_for(interest, changes[0], held_by(codec, changes[0])) {
        seq![message_of(interest, held_by(codec, changes[0]))] + messages_by(
            interest,
            changes.drop_first(),
            codec,
        )
    } else {
        messages_by(interest, changes.drop_first(), codec)
    }
}

/// The messages that all the changes received in `turns` hold for the
/// subscriber, batch by batch, in order.
pub open spec fn messages_received(
    interest: Interest,
    turns: Seq<Turn>,
    codec: spec_fn(Seq<u8>) -> Unwrapped,
) -> Seq<Message>
    decreases turns.len(),
{
    if turns.len() == 0 {
        Seq::empty()
    } else {
        (match turns[0].answer {
            Answer::Events(Some(changes)) => messages_by(interest, changes, codec),
            _ => Seq::empty(),
        }) + messages_received(interest, turns.drop_first(), codec)
    }
}

/// Whether the turn goes as `codec` says, where it unwraps a value, and is
/// taken, where it hands a message over.
pub open spec fn goes_well(codec: spec_fn(Seq<u8>) -> Unwrapped, turn: Turn) -> bool {
    match turn.call {
        Call::Decode(wire) => turn.answer == match codec(wire) {
            Unwrapped::Garbage(detail) => Answer::Failed(detail),
            Unwrapped::Event(routing_key, payload) => Answer::Envelope(routing_key, payload),
        },
        Call::DeliverMessage(_) => turn.answer is Done,
        _ => true,
    }
}

/// The messages that are still to be handed over when a subscription is at `at`,
/// before it receives anything more.
pub open spec fn outstanding(
    interest: Interest,
    at: DeliveryNext,
    codec: spec_fn(Seq<u8>) -> Unwrapped,
) -> Seq<Message> {
    match at {
        Next::Ask(Call::Decode(wire), Delivering::Decode(_, rest)) => {
            let held = codec(wire);
            let later = messages_by(interest, rest.reverse(), codec);
            if held is Event && (interest.routing_key is None || held->Event_0
                == interest.routing_key) {
                seq![message_of(interest, held)] + later
            } else {
                later
            }
        },
        Next::Ask(Call::DeliverMessage(message), Delivering::Deliver(_, rest)) => seq![message]
            + messages_by(interest, rest.reverse(), codec),
        _ => Seq::empty(),
    }
}

/// Whether a subscription at `at` is the one of `interest`.
pub open spec fn is_for(interest: Interest, at: DeliveryNext) -> bool {
    match at {
        Next::Ask(_, Delivering::Poll(own)) => own == interest,
        Next::Ask(_, Delivering::Receive(own)) => own == interest,
        Next::Ask(_, Delivering::Decode(own, _)) => own == interest,
        Next::Ask(_, Delivering::Deliver(own, _)) => own == interest,
        _ => true,
    }
}

proof fn what_is_left_is_outstanding(
    interest: Interest,
    rest: Seq<Change>,
    codec: spec_fn(Seq<u8>) -> Unwrapped,
)
    ensures
        outstanding(interest, delivery_onward(interest, rest), codec) == messages_by(
            interest,
            rest.reverse(),
            codec,
        ),
        is_for(interest, delivery_onward(interest, rest)),
        delivers_in_step(delivery_onward(interest, rest)),
    decreases rest.len(),
{
    if rest.len() > 0 {
        what_is_left_is_outstanding(interest, rest.drop_last(), codec);
        assert(rest.reverse()[0] == rest.last());
        assert(rest.reverse().drop_first() =~= rest.drop_last().reverse());
    }
}

proof fn outstanding_messages_are_handed_over(
    interest: Interest,
    at: DeliveryNext,
    turns: Seq<Turn>,
    codec: spec_fn(Seq<u8>) -> Unwrapped,
)
    requires
        is_for(interest, at),
        delivers_in_step(at),
        runs(
            |s: Delivering, a: Answer| delivery_next(s, a),
            |s: Delivering, a: Answer| delivery_accepts(s, a),
            at,
            turns,
            (),
        ),
        forall|i: int| 0 <= i < turns.len() ==> goes_well(codec, #[trigger] turns[i]),
    ensures
        handed_over(turns) == outstanding(interest, at, codec) + messages_received(
            interest,
            turns,
            codec,
        ),
    decreases turns.len(),
{
    let step = |s: Delivering, a: Answer| delivery_next(s, a);
    let accepts = |s: Delivering, a: Answer| delivery_accepts(s, a);
    let none: Seq<Message> = Seq::empty();
    match at {
        Next::Ask(call, state) => {
            let answer = turns[0].answer;
            let later = delivery_next(state, answer);
            assert(step(state, answer) == later);
            assert(accepts(state, answer));
            assert(delivery_accepts(state, answer));
            assert(goes_well(codec, turns[0]));
            let tail = turns.drop_first();
            assert forall|i: int| 0 <= i < tail.len() implies goes_well(
                codec,
                #[trigger] tail[i],
            ) by {
                assert(tail[i] == turns[i + 1]);
            }
            match (state, answer) {
                (Delivering::Receive(_), Answer::Events(Some(changes))) => {
                    what_is_left_is_outstanding(interest, changes.reverse(), codec);
                    assert(changes.reverse().reverse() =~= changes);
                },
                (Delivering::Decode(_, rest), _) => {
                    what_is_left_is_outstanding(interest, rest, codec);
                },
                (Delivering::Deliver(_, rest), _) => {
                    what_is_left_is_outstanding(interest, rest, codec);
                },
                _ => {},
            }
            assert(runs(step, accepts, later, tail, ()));
            outstanding_messages_are_handed_over(interest, later, tail, codec);
            assert(handed_over(turns) =~= outstanding(interest, at, codec) + messages_received(
                interest,
                turns,
                codec,
            ));
        },
        Next::Finished(_) => {
            assert(handed_over(turns) =~= none);
            assert(messages_received(interest, turns, codec) =~= none);
        },
    }
}

/// Whatever is received, and in however many batches: a subscription that runs
/// to its end, and whose messages are all taken, has handed over exactly the
/// messages that each batch holds for the subscriber, one batch after the other,
/// in order.
pub proof fn all_that_is_received_is_handed_over(
    interest: Interest,
    turns: Seq<Turn>,
    codec: spec_fn(Seq<u8>) -> Unwrapped,
)
    requires
        delivery_runs(interest, turns),
        forall|i: int| 0 <= i < turns.len() ==> goes_well(codec, #[trigger] turns[i]),
    ensures
        handed_over(turns) == messages_received(interest, turns, codec),
{
    let at = DeliveryNext::Ask(Call::PollClosed, Delivering::Poll(interest));
    outstanding_messages_are_handed_over(interest, at, turns, codec);
    assert(handed_over(turns) =~= messages_received(interest, turns, codec));
}

/// Whether the watch may be cancelled after the turn: a poll said that nobody
/// listens, or a message was not taken.
pub open spec fn ends_listening(turn: Turn) -> bool {
    ||| turn.call is PollClosed && turn.answer == Answer::Closed(true)
    ||| turn.call is DeliverMessage && turn.answer is Failed
}

/// Whether handing over asks for what its state waits for.
pub open spec fn delivers_in_step(at: DeliveryNext) -> bool {
    match at {
        Next::Ask(call, Delivering::Poll(_)) => call is PollClosed,
        Next::Ask(call, Delivering::Receive(_)) => call is ReceiveEvents,
        Next::Ask(call, Delivering::Decode(_, _)) => call is Decode,
        Next::Ask(call, Delivering::Deliver(_, _)) => call is DeliverMessage,
        Next::Ask(call, Delivering::Cancel) => call is CancelWatch,
        Next::Finished(_) => true,
    }
}

proof fn onward_looks_or_polls(interest: Interest, rest: Seq<Change>)
    ensures
        match delivery_onward(interest, rest) {
            Next::Ask(call, Delivering::Poll(_)) => call is PollClosed,
            Next::Ask(call, Delivering::Decode(_, _)) => call is Decode,
            _ => false,
        },
    decreases rest.len(),
{
    if rest.len() > 0 {
        onward_looks_or_polls(interest, rest.drop_last());
    }
}

proof fn cancelled_only_then(at: DeliveryNext, turns: Seq<Turn>)
    requires
        delivers_in_step(at),
        runs(
            |s: Delivering, a: Answer| delivery_next(s, a),
            |s: Delivering, a: Answer| delivery_accepts(s, a),
            at,
            turns,
            (),
        ),
    ensures
        forall|i: int|
            0 < i < turns.len() && (#[trigger] turns[i]).call is CancelWatch ==> ends_listening(
                turns[i - 1],
            ),
        turns.len() > 0 ==> turns.last().call is CancelWatch || (turns.last().call is ReceiveEvents
            && (turns.last().answer is Failed || turns.last().answer == Answer::Events(None))),
    decreases turns.len(),
{
    let step = |s: Delivering, a: Answer| delivery_next(s, a);
    let accepts = |s: Delivering, a: Answer| delivery_accepts(s, a);
    match at {
        Next::Ask(call, state) => {
            let answer = turns[0].answer;
            let later = delivery_next(state, answer);
            assert(step(state, answer) == later);
            assert(accepts(state, answer));
            assert(delivery_accepts(state, answer));
            let rest = turns.drop_first();
            match (state, answer) {
                (Delivering::Receive(interest), Answer::Events(Some(events))) => {
                    onward_looks_or_polls(interest, events.reverse());
                },
                (Delivering::Decode(interest, left), _) => {
                    onward_looks_or_polls(interest, left);
                },
                (Delivering::Deliver(interest, left), _) => {
                    onward_looks_or_polls(interest, left);
                },
                _ => {},
            }
            assert(runs(step, accepts, later, rest, ()));
            cancelled_only_then(later, rest);
            assert forall|i: int|
                0 < i < turns.len() && (#[trigger] turns[i]).call is CancelWatch implies
                ends_listening(turns[i - 1]) by {
                assert(turns[i] == rest[i - 1]);
                if i > 1 {
                    assert(turns[i - 1] == rest[i - 2]);
                }
            }
            if rest.len() > 0 {
                assert(turns.last() == rest.last());
            } else {
                assert(turns.last() == turns[0]);
            }
        },
        Next::Finished(_) => {},
    }
}

/// The watch of a subscription is cancelled only after a poll that says that
/// nobody listens or a message that was not taken, and a subscription that does
/// not end so ends only because the watch is gone.
pub proof fn subscriptions_end_for_a_reason(interest: Interest, turns: Seq<Turn>)
    requires
        delivery_runs(interest, turns),
    ensures
        turns.len() > 0,
        forall|i: int|
            0 <= i < turns.len() && (#[trigger] turns[i]).call is CancelWatch ==> i > 0
                && ends_listening(turns[i - 1]),
        turns.last().call is CancelWatch || (turns.last().call is ReceiveEvents && (
        turns.last().answer is Failed || turns.last().answer == Answer::Events(None))),
{
    cancelled_only_then(DeliveryNext::Ask(Call::PollClosed, Delivering::Poll(interest)), turns);
}

} // verus!
