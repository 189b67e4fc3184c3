//! What publishing and subscribing amount to.
use vstd::prelude::*;

use crate::events::{
    delivery_next, delivery_onward, message_for, publish_next, wants, Delivering, DeliveryNext,
    Interest, Message, PublishNext, Publishing,
};
use crate::names::{event_name, events_lie_under_their_topic, topic_prefix};
use crate::protocol::{Answer, Call, Change, Next};
use crate::store::{ends_with, outcome, record_of, undisturbed, Exchange, Store};

verus! {

/// Whether publishing an event under `key` succeeds through `trace`.
pub open spec fn publishes(
    key: Seq<char>,
    ttl: i64,
    routing_key: Option<Seq<char>>,
    payload: Seq<u8>,
    trace: Seq<Exchange>,
) -> bool {
    ends_with(
        |s: Publishing, a: Answer| publish_next(s, a),
        PublishNext::Ask(Call::Encode(routing_key, payload), Publishing::Encode(key, ttl)),
        trace,
        Ok(()),
    )
}

/// A published event stands in the store with its wrapped payload, attached to
/// a lease that was asked for the event lifetime; no other key has changed.
pub proof fn publish_stores_the_event(
    start: Store,
    key: Seq<char>,
    ttl: i64,
    routing_key: Option<Seq<char>>,
    payload: Seq<u8>,
    trace: Seq<Exchange>,
)
    requires
        undisturbed(start, trace),
        publishes(key, ttl, routing_key, payload, trace),
    ensures
        trace.len() == 4,
        trace[0].answer is Bytes,
        ({
            let end = outcome(start, trace);
            let held = end.keys[key];
            &&& end.keys.contains_key(key)
            &&& held.value == trace[0].answer->Bytes_0
            &&& end.leases.contains_key(held.lease)
            &&& end.leases[held.lease] == ttl
            &&& end.keys.remove(key) == start.keys.remove(key)
        }),
{
    reveal_with_fuel(ends_with, 6);
    assert(trace.len() == 4);
    assert(trace[1].before == trace[0].after);
    assert(trace[2].before == trace[1].after);
    assert(trace[3].before == trace[2].after);
    let end = outcome(start, trace);
    assert(end.keys.remove(key) =~= start.keys.remove(key));
}

/// What unwraps a payload and its routing key; nothing for what was not
/// wrapped.
pub type Codec = spec_fn(Seq<u8>) -> Option<(Option<Seq<char>>, Seq<u8>)>;

/// The reply to unwrapping `wire`.
pub open spec fn decoded(codec: Codec, wire: Seq<u8>) -> Answer {
    match codec(wire) {
        Some((routing_key, payload)) => Answer::Envelope(routing_key, payload),
        None => Answer::Failed(Seq::empty()),
    }
}

/// What a subscriber receives of a change: of a key that was written and can
/// be unwrapped the message, if it is wanted.
pub open spec fn received_of(interest: Interest, change: Change, codec: Codec) -> Option<Message> {
    if change.is_put && change.kv is Some {
        match codec(change.kv->0.value) {
            Some((routing_key, payload)) => if wants(interest, routing_key) {
                Some(message_for(interest, routing_key, payload))
            } else {
                None
            },
            None => None,
        }
    } else {
        None
    }
}

/// What a subscriber receives of changes, in order.
pub open spec fn received(interest: Interest, events: Seq<Change>, codec: Codec) -> Seq<Message>
    decreases events.len(),
{
    if events.len() == 0 {
        Seq::empty()
    } else {
        let others = received(interest, events.drop_first(), codec);
        match received_of(interest, events[0], codec) {
            Some(message) => seq![message] + others,
            None => others,
        }
    }
}

/// How far handing over is from asking for more changes.
pub open spec fn to_deliver(at: DeliveryNext) -> nat {
    match at {
        Next::Ask(_, Delivering::Decode(_, rest)) => 2 * rest.len() + 2,
        Next::Ask(_, Delivering::Deliver(_, rest)) => 2 * rest.len() + 1,
        _ => 0,
    }
}

/// A change takes at most two steps to hand over.
pub proof fn delivery_gets_on(interest: Interest, rest: Seq<Change>)
    ensures
        to_deliver(delivery_onward(interest, rest)) <= 2 * rest.len(),
    decreases rest.len(),
{
    if rest.len() > 0 && !(rest.last().is_put && rest.last().kv is Some) {
        delivery_gets_on(interest, rest.drop_last());
    }
}

/// What the subscriber is handed until more changes are asked for, where it
/// takes everything.
pub open spec fn delivers(at: DeliveryNext, codec: Codec) -> Seq<Message>
    decreases to_deliver(at),
{
    match at {
        Next::Ask(Call::Decode(wire), Delivering::Decode(interest, rest)) => {
            proof {
                delivery_gets_on(interest, rest);
            }
            delivers(
                delivery_next(Delivering::Decode(interest, rest), decoded(codec, wire)),
                codec,
            )
        },
        Next::Ask(Call::DeliverMessage(message), Delivering::Deliver(interest, rest)) => {
            proof {
                delivery_gets_on(interest, rest);
            }
            seq![message] + delivers(
                delivery_next(Delivering::Deliver(interest, rest), Answer::Done),
                codec,
            )
        },
        _ => Seq::empty(),
    }
}

proof fn the_rest_is_delivered(interest: Interest, events: Seq<Change>, codec: Codec)
    ensures
        delivers(delivery_onward(interest, events.reverse()), codec) == received(
            interest,
            events,
            codec,
        ),
    decreases events.len(),
{
    if events.len() > 0 {
        let rest = events.reverse();
        let others = events.drop_first();
        assert(rest.last() == events[0]);
        assert(rest.drop_last() =~= others.reverse());
        the_rest_is_delivered(interest, others, codec);
        reveal_with_fuel(delivers, 3);
    }
}

/// A subscriber receives, in order, exactly the messages that were written,
/// can be unwrapped and are wanted.
pub proof fn subscribers_receive_what_they_want(
    interest: Interest,
    events: Seq<Change>,
    codec: Codec,
)
    ensures
        delivers(
            delivery_next(Delivering::Receive(interest), Answer::Events(Some(events))),
            codec,
        ) == received(interest, events, codec),
{
    the_rest_is_delivered(interest, events, codec);
}

/// A subscriber that named a routing key receives only messages with exactly
/// that key; every message bears the subscription's topic.
pub proof fn routing_keys_match_exactly(interest: Interest, events: Seq<Change>, codec: Codec)
    ensures
        forall|i: int|
            0 <= i < received(interest, events, codec).len() ==> {
                let message = #[trigger] received(interest, events, codec)[i];
                &&& message.topic == interest.topic
                &&& interest.routing_key matches Some(wanted) ==> message.routing_key == Some(
                    wanted,
                )
            },
    decreases events.len(),
{
    if events.len() > 0 {
        let others = received(interest, events.drop_first(), codec);
        routing_keys_match_exactly(interest, events.drop_first(), codec);
        let all = received(interest, events, codec);
        assert forall|i: int| 0 <= i < all.len() implies {
            let message = #[trigger] all[i];
            &&& message.topic == interest.topic
            &&& interest.routing_key matches Some(wanted) ==> message.routing_key == Some(wanted)
        } by {
            if received_of(interest, events[0], codec) is Some {
                if i > 0 {
                    assert(all[i] == others[i - 1]);
                }
            } else {
                assert(all[i] == others[i]);
            }
        }
    }
}

/// The end of an event's lifetime, which removes its key, is not taken for a
/// message; nor is what cannot be unwrapped.
pub proof fn expiry_and_garbage_are_not_delivered(
    interest: Interest,
    change: Change,
    codec: Codec,
)
    requires
        !change.is_put || (change.kv is Some && codec(change.kv->0.value) is None),
    ensures
        received(interest, seq![change], codec).len() == 0,
{
    reveal_with_fuel(received, 2);
    assert(seq![change].drop_first() =~= Seq::empty());
}

/// A published event reaches a subscriber of its topic who wants its routing
/// key, with its payload: its key lies under the prefix that the subscriber
/// watches, and the write of that key is received as the message. `codec` is
/// only asked to unwrap what was wrapped.
pub proof fn a_published_event_is_received(
    start: Store,
    prefix: Seq<char>,
    topic: Seq<char>,
    nanos: nat,
    random: nat,
    ttl: i64,
    routing_key: Option<Seq<char>>,
    payload: Seq<u8>,
    trace: Seq<Exchange>,
    interest: Interest,
    codec: Codec,
)
    requires
        undisturbed(start, trace),
        publishes(event_name(prefix, topic, nanos, random), ttl, routing_key, payload, trace),
        trace[0].answer matches Answer::Bytes(wire) ==> codec(wire) == Some((routing_key, payload)),
        interest.topic == topic,
        wants(interest, routing_key),
    ensures
        ({
            let key = event_name(prefix, topic, nanos, random);
            let held = outcome(start, trace).keys[key];
            let change = Change { is_put: true, kv: Some(record_of(key, held)) };
            &&& topic_prefix(prefix, topic).is_prefix_of(key)
            &&& received(interest, seq![change], codec) == seq![
                message_for(interest, routing_key, payload),
            ]
        }),
{
    let key = event_name(prefix, topic, nanos, random);
    publish_stores_the_event(start, key, ttl, routing_key, payload, trace);
    events_lie_under_their_topic(prefix, topic, nanos, random);
    let held = outcome(start, trace).keys[key];
    let change = Change { is_put: true, kv: Some(record_of(key, held)) };
    reveal_with_fuel(received, 2);
    assert(seq![change].drop_first() =~= Seq::empty());
    assert(received(interest, seq![change], codec) =~= seq![
        message_for(interest, routing_key, payload),
    ]);
}

} // verus!
