//! Publishing events, and subscribing to them.
use vstd::pervasive::unreached;
use vstd::prelude::*;
use vstd::string::*;

use crate::backend::{Backend, EtcdBackend};
use crate::error::{backend_unavailable, call_failed, internal, ClusterError, Fault};
use crate::names::{event_name, topic_prefix};
use crate::protocol::{
    backwards, changes, fits, Answer, Call, Change, Kind, Next, Reply, Request, Step, WatchEvent,
};
use crate::text::content;

verus! {

/// A message that a subscriber receives.
#[derive(Debug)]
pub struct PublishedMessage {
    pub topic: String,
    pub routing_key: Option<String>,
    pub payload: Vec<u8>,
    /// The node that received the message.
    pub from_node: String,
}

/// The content of a [`PublishedMessage`].
pub struct Message {
    pub topic: Seq<char>,
    pub routing_key: Option<Seq<char>>,
    pub payload: Seq<u8>,
    pub from_node: Seq<char>,
}

impl View for PublishedMessage {
    type V = Message;

    open spec fn view(&self) -> Message {
        Message {
            topic: self.topic@,
            routing_key: content(self.routing_key),
            payload: self.payload@,
            from_node: self.from_node@,
        }
    }
}

// ---------------------------------------------------------------------------
// publish
// ---------------------------------------------------------------------------

/// Publishing an event: its payload is wrapped and put under a key of its own,
/// which goes away after the event's lifetime.
#[derive(Debug)]
pub enum PublishOp {
    /// Waits for the wrapped payload.
    Encode { key: String, ttl: i64 },
    /// Waits for the connection.
    Connect { key: String, ttl: i64, wire: Vec<u8> },
    /// Waits for the etcd lease of the event.
    Grant { key: String, wire: Vec<u8> },
    /// Waits for the write.
    Write,
}

/// The content of a [`PublishOp`].
pub enum Publishing {
    Encode(Seq<char>, i64),
    Connect(Seq<char>, i64, Seq<u8>),
    Grant(Seq<char>, Seq<u8>),
    Write,
}

impl View for PublishOp {
    type V = Publishing;

    open spec fn view(&self) -> Publishing {
        match self {
            PublishOp::Encode { key, ttl } => Publishing::Encode(key@, *ttl),
            PublishOp::Connect { key, ttl, wire } => Publishing::Connect(key@, *ttl, wire@),
            PublishOp::Grant { key, wire } => Publishing::Grant(key@, wire@),
            PublishOp::Write => Publishing::Write,
        }
    }
}

/// What [`PublishOp`] results in.
pub type PublishNext = Next<Publishing, Result<(), Fault>>;

/// The replies that publishing can go on with.
pub open spec fn publish_accepts(state: Publishing, answer: Answer) -> bool {
    match state {
        Publishing::Encode(_, _) => fits(Kind::Bytes, answer),
        Publishing::Connect(_, _, _) => fits(Kind::Connected, answer),
        Publishing::Grant(_, _) => fits(Kind::Granted, answer),
        Publishing::Write => fits(Kind::Done, answer),
    }
}

/// How publishing goes on.
pub open spec fn publish_next(state: Publishing, answer: Answer) -> PublishNext {
    match (state, answer) {
        (Publishing::Encode(_, _), Answer::Failed(detail)) => Next::Finished(
            Err(Fault::Internal("publish envelope"@ + ": "@ + detail)),
        ),
        (Publishing::Encode(key, ttl), Answer::Bytes(wire)) => Next::Ask(
            Call::Connect,
            Publishing::Connect(key, ttl, wire),
        ),
        (Publishing::Connect(_, _, _), Answer::Refused(fault)) => Next::Finished(Err(fault)),
        (Publishing::Connect(key, ttl, wire), Answer::Done) => Next::Ask(
            Call::LeaseGrant(ttl),
            Publishing::Grant(key, wire),
        ),
        (Publishing::Grant(_, _), Answer::Failed(detail)) => Next::Finished(
            Err(call_failed("lease_grant"@, detail)),
        ),
        (Publishing::Grant(key, wire), Answer::Granted(lease)) => Next::Ask(
            Call::Put(key, wire, Some(lease)),
            Publishing::Write,
        ),
        (Publishing::Write, Answer::Failed(detail)) => Next::Finished(
            Err(call_failed("put"@, detail)),
        ),
        (Publishing::Write, Answer::Done) => Next::Finished(Ok(())),
        _ => arbitrary(),
    }
}

/// The content of an optional text.
pub open spec fn text_of(text: Option<&str>) -> Option<Seq<char>> {
    match text {
        Some(text) => Some(text@),
        None => None,
    }
}

/// Copies an optional text.
fn owned(text: Option<&str>) -> (r: Option<String>)
    ensures
        content(r) == text_of(text),
{
    match text {
        Some(text) => Some(text.to_owned()),
        None => None,
    }
}

/// How a coordinator begins to publish.
pub open spec fn publish_first(
    b: Backend,
    topic: Seq<char>,
    routing_key: Option<Seq<char>>,
    payload: Seq<u8>,
    nanos: nat,
    random: nat,
) -> PublishNext {
    Next::Ask(
        Call::Encode(routing_key, payload),
        Publishing::Encode(
            event_name(b.config.key_prefix, topic, nanos, random),
            b.config.event_ttl_secs,
        ),
    )
}

impl EtcdBackend {
    /// Begins to publish `payload` under `topic`. `nanos` is the time in
    /// nanoseconds since the epoch; `random` keeps apart the events of one
    /// instant.
    pub fn publish(
        &self,
        topic: &str,
        routing_key: Option<&str>,
        payload: Vec<u8>,
        nanos: u128,
        random: u64,
    ) -> (r: Step<PublishOp, Result<(), ClusterError>>)
        ensures
            r@ == PublishNext::Ask(
                Call::Encode(text_of(routing_key), payload@),
                Publishing::Encode(
                    event_name(self@.config.key_prefix, topic@, nanos as nat, random as nat),
                    self@.config.event_ttl_secs,
                ),
            ),
            r@ == publish_first(
                self@,
                topic@,
                text_of(routing_key),
                payload@,
                nanos as nat,
                random as nat,
            ),
    {
        Step::Ask {
            request: Request::Encode { routing_key: owned(routing_key), payload },
            state: PublishOp::Encode {
                key: self.config().event_key(topic, nanos, random),
                ttl: self.config().event_ttl_secs,
            },
        }
    }
}

impl PublishOp {
    /// Whether the operation can go on with `reply`.
    pub fn accepts(&self, reply: &Reply) -> (r: bool)
        ensures
            r == publish_accepts(self@, reply@),
    {
        match self {
            PublishOp::Encode { .. } => reply.is_for(Kind::Bytes),
            PublishOp::Connect { .. } => reply.is_for(Kind::Connected),
            PublishOp::Grant { .. } => reply.is_for(Kind::Granted),
            PublishOp::Write => reply.is_for(Kind::Done),
        }
    }

    /// Goes on with the reply to the call that was asked for.
    pub fn step(self, reply: Reply) -> (r: Step<PublishOp, Result<(), ClusterError>>)
        requires
            publish_accepts(self@, reply@),
        ensures
            r@ == publish_next(self@, reply@),
    {
        match self {
            PublishOp::Encode { key, ttl } => match reply {
                Reply::Failed { detail } => Step::Finished {
                    result: Err(internal("publish envelope", detail.as_str())),
                },
                Reply::Bytes { bytes } => Step::Ask {
                    request: Request::Connect,
                    state: PublishOp::Connect { key, ttl, wire: bytes },
                },
                _ => unreached(),
            },
            PublishOp::Connect { key, ttl, wire } => match reply {
                Reply::Refused { error } => Step::Finished { result: Err(error) },
                Reply::Done => Step::Ask {
                    request: Request::LeaseGrant { ttl },
                    state: PublishOp::Grant { key, wire },
                },
                _ => unreached(),
            },
            PublishOp::Grant { key, wire } => match reply {
                Reply::Failed { detail } => Step::Finished {
                    result: Err(backend_unavailable("lease_grant", detail.as_str())),
                },
                Reply::Granted { lease } => Step::Ask {
                    request: Request::Put { key, value: wire, lease: Some(lease) },
                    state: PublishOp::Write,
                },
                _ => unreached(),
            },
            PublishOp::Write => match reply {
                Reply::Failed { detail } => Step::Finished {
                    result: Err(backend_unavailable("put", detail.as_str())),
                },
                Reply::Done => Step::Finished { result: Ok(()) },
                _ => unreached(),
            },
        }
    }
}

// ---------------------------------------------------------------------------
// subscribe
// ---------------------------------------------------------------------------

/// What a subscriber asked for.
#[derive(Debug)]
pub struct Subscription {
    pub topic: String,
    /// Where it is set, only messages with this routing key are received.
    pub routing_key: Option<String>,
    /// The subscribing node.
    pub node_id: String,
}

/// The content of a [`Subscription`].
pub struct Interest {
    pub topic: Seq<char>,
    pub routing_key: Option<Seq<char>>,
    pub node_id: Seq<char>,
}

impl View for Subscription {
    type V = Interest;

    open spec fn view(&self) -> Interest {
        Interest {
            topic: self.topic@,
            routing_key: content(self.routing_key),
            node_id: self.node_id@,
        }
    }
}

/// Whether a subscriber wants messages with the routing key `key`.
pub open spec fn wants(interest: Interest, key: Option<Seq<char>>) -> bool {
    interest.routing_key matches Some(wanted) ==> key == Some(wanted)
}

/// The message that a subscriber receives.
pub open spec fn message_for(
    interest: Interest,
    routing_key: Option<Seq<char>>,
    payload: Seq<u8>,
) -> Message {
    Message { topic: interest.topic, routing_key, payload, from_node: interest.node_id }
}

/// Beginning a subscription.
#[derive(Debug)]
pub enum SubscribeOp {
    /// Waits for the connection.
    Connect { prefix: String },
    /// Waits for the watch to begin.
    Start,
}

/// The content of a [`SubscribeOp`].
pub enum Subscribing {
    Connect(Seq<char>),
    Start,
}

impl View for SubscribeOp {
    type V = Subscribing;

    open spec fn view(&self) -> Subscribing {
        match self {
            SubscribeOp::Connect { prefix } => Subscribing::Connect(prefix@),
            SubscribeOp::Start => Subscribing::Start,
        }
    }
}

/// What [`SubscribeOp`] results in.
pub type SubscribeNext = Next<Subscribing, Result<(), Fault>>;

/// The replies that the beginning can go on with.
pub open spec fn subscribe_accepts(state: Subscribing, answer: Answer) -> bool {
    match state {
        Subscribing::Connect(_) => fits(Kind::Connected, answer),
        Subscribing::Start => fits(Kind::Done, answer),
    }
}

/// How the beginning goes on.
pub open spec fn subscribe_next(state: Subscribing, answer: Answer) -> SubscribeNext {
    match (state, answer) {
        (Subscribing::Connect(_), Answer::Refused(fault)) => Next::Finished(Err(fault)),
        (Subscribing::Connect(prefix), Answer::Done) => Next::Ask(
            Call::StartWatch(prefix),
            Subscribing::Start,
        ),
        (Subscribing::Start, Answer::Failed(detail)) => Next::Finished(
            Err(call_failed("watch start"@, detail)),
        ),
        (Subscribing::Start, Answer::Done) => Next::Finished(Ok(())),
        _ => arbitrary(),
    }
}

/// How a coordinator begins a subscription.
pub open spec fn subscribe_first(b: Backend, topic: Seq<char>) -> SubscribeNext {
    Next::Ask(
        Call::Connect,
        Subscribing::Connect(topic_prefix(b.config.key_prefix, topic)),
    )
}

impl EtcdBackend {
    /// Begins a subscription to `topic`.
    pub fn subscribe(&self, topic: &str) -> (r: Step<SubscribeOp, Result<(), ClusterError>>)
        ensures
            r@ == SubscribeNext::Ask(
                Call::Connect,
                Subscribing::Connect(topic_prefix(self@.config.key_prefix, topic@)),
            ),
            r@ == subscribe_first(self@, topic@),
    {
        Step::Ask {
            request: Request::Connect,
            state: SubscribeOp::Connect { prefix: self.config().topic_key_prefix(topic) },
        }
    }
}

impl SubscribeOp {
    /// Whether the operation can go on with `reply`.
    pub fn accepts(&self, reply: &Reply) -> (r: bool)
        ensures
            r == subscribe_accepts(self@, reply@),
    {
        match self {
            SubscribeOp::Connect { .. } => reply.is_for(Kind::Connected),
            SubscribeOp::Start => reply.is_for(Kind::Done),
        }
    }

    /// Goes on with the reply to the call that was asked for.
    pub fn step(self, reply: Reply) -> (r: Step<SubscribeOp, Result<(), ClusterError>>)
        requires
            subscribe_accepts(self@, reply@),
        ensures
            r@ == subscribe_next(self@, reply@),
    {
        match self {
            SubscribeOp::Connect { prefix } => match reply {
                Reply::Refused { error } => Step::Finished { result: Err(error) },
                Reply::Done => Step::Ask {
                    request: Request::StartWatch { prefix },
                    state: SubscribeOp::Start,
                },
                _ => unreached(),
            },
            SubscribeOp::Start => match reply {
                Reply::Failed { detail } => Step::Finished {
                    result: Err(backend_unavailable("watch start", detail.as_str())),
                },
                Reply::Done => Step::Finished { result: Ok(()) },
                _ => unreached(),
            },
        }
    }
}

/// Handing messages to a subscriber. `rest` holds the changes that were
/// received and not looked at yet, the next one last.
#[derive(Debug)]
pub enum DeliveryOp {
    /// Waits to hear whether anybody listens.
    Poll { subscription: Subscription },
    /// Waits for changes.
    Receive { subscription: Subscription },
    /// Waits for an unwrapped payload.
    Decode { subscription: Subscription, rest: Vec<WatchEvent> },
    /// Waits for the subscriber to take a message.
    Deliver { subscription: Subscription, rest: Vec<WatchEvent> },
    /// Waits for the watch to stop.
    Cancel,
}

/// The content of a [`DeliveryOp`].
pub enum Delivering {
    Poll(Interest),
    Receive(Interest),
    Decode(Interest, Seq<Change>),
    Deliver(Interest, Seq<Change>),
    Cancel,
}

impl View for DeliveryOp {
    type V = Delivering;

    open spec fn view(&self) -> Delivering {
        match self {
            DeliveryOp::Poll { subscription } => Delivering::Poll(subscription@),
            DeliveryOp::Receive { subscription } => Delivering::Receive(subscription@),
            DeliveryOp::Decode { subscription, rest } => Delivering::Decode(
                subscription@,
                changes(rest@),
            ),
            DeliveryOp::Deliver { subscription, rest } => Delivering::Deliver(
                subscription@,
                changes(rest@),
            ),
            DeliveryOp::Cancel => Delivering::Cancel,
        }
    }
}

/// What [`DeliveryOp`] results in: it ends when the watch or the subscriber is
/// gone.
pub type DeliveryNext = Next<Delivering, ()>;

/// How handing over goes on when `rest` is left. Only keys that were written
/// hold messages: one that was removed is an event whose lifetime is over.
pub open spec fn delivery_onward(interest: Interest, rest: Seq<Change>) -> DeliveryNext
    decreases rest.len(),
{
    if rest.len() == 0 {
        Next::Ask(Call::PollClosed, Delivering::Poll(interest))
    } else {
        let change = rest.last();
        let left = rest.drop_last();
        if change.is_put && change.kv is Some {
            Next::Ask(Call::Decode(change.kv->0.value), Delivering::Decode(interest, left))
        } else {
            delivery_onward(interest, left)
        }
    }
}

/// The replies that handing over can go on with.
pub open spec fn delivery_accepts(state: Delivering, answer: Answer) -> bool {
    match state {
        Delivering::Poll(_) => fits(Kind::Closed, answer),
        Delivering::Receive(_) => fits(Kind::Events, answer),
        Delivering::Decode(_, _) => fits(Kind::Envelope, answer),
        Delivering::Deliver(_, _) => fits(Kind::Done, answer),
        Delivering::Cancel => fits(Kind::Done, answer),
    }
}

/// How handing over goes on. What cannot be unwrapped is dropped, and so is
/// what the subscriber does not want.
pub open spec fn delivery_next(state: Delivering, answer: Answer) -> DeliveryNext {
    match (state, answer) {
        (Delivering::Poll(interest), Answer::Closed(closed)) => if closed {
            Next::Ask(Call::CancelWatch, Delivering::Cancel)
        } else {
            Next::Ask(Call::ReceiveEvents, Delivering::Receive(interest))
        },
        (Delivering::Receive(interest), Answer::Events(Some(events))) => delivery_onward(
            interest,
            events.reverse(),
        ),
        (Delivering::Receive(_), _) => Next::Finished(()),
        (Delivering::Decode(interest, rest), Answer::Failed(_)) => delivery_onward(interest, rest),
        (Delivering::Decode(interest, rest), Answer::Envelope(routing_key, payload)) => if wants(
            interest,
            routing_key,
        ) {
            Next::Ask(
                Call::DeliverMessage(message_for(interest, routing_key, payload)),
                Delivering::Deliver(interest, rest),
            )
        } else {
            delivery_onward(interest, rest)
        },
        (Delivering::Deliver(interest, rest), Answer::Done) => delivery_onward(interest, rest),
        (Delivering::Deliver(_, _), Answer::Failed(_)) => Next::Ask(
            Call::CancelWatch,
            Delivering::Cancel,
        ),
        (Delivering::Cancel, _) => Next::Finished(()),
        _ => arbitrary(),
    }
}

/// Looks at the next change, or asks for more.
#[verifier::loop_isolation(false)]
fn delivery_from(subscription: Subscription, rest: Vec<WatchEvent>) -> (r: Step<DeliveryOp, ()>)
    ensures
        r@ == delivery_onward(subscription@, changes(rest@)),
{
    let mut rest = rest;
    let ghost whole = delivery_onward(subscription@, changes(rest@));
    loop
        invariant
            whole == delivery_onward(subscription@, changes(rest@)),
        decreases rest@.len(),
    {
        let ghost before = changes(rest@);
        match rest.pop() {
            None => {
                return Step::Ask {
                    request: Request::PollClosed,
                    state: DeliveryOp::Poll { subscription },
                };
            },
            Some(event) => {
                assert(before.last() == event@);
                assert(changes(rest@) =~= before.drop_last());
                if event.is_put {
                    match event.kv {
                        Some(kv) => {
                            return Step::Ask {
                                request: Request::Decode { wire: kv.value },
                                state: DeliveryOp::Decode { subscription, rest },
                            };
                        },
                        None => {},
                    }
                }
            },
        }
    }
}

/// How handing messages over to the subscriber of a coordinator begins.
pub open spec fn deliver_first(
    b: Backend,
    topic: Seq<char>,
    routing_key: Option<Seq<char>>,
) -> DeliveryNext {
    Next::Ask(
        Call::PollClosed,
        Delivering::Poll(Interest { topic, routing_key, node_id: b.node_id }),
    )
}

impl EtcdBackend {
    /// What this node asks for when it subscribes to `topic`.
    pub fn subscription(&self, topic: &str, routing_key: Option<&str>) -> (r: Subscription)
        ensures
            r@ == (Interest {
                topic: topic@,
                routing_key: text_of(routing_key),
                node_id: self@.node_id,
            }),
            deliver_first(self@, topic@, text_of(routing_key)) == DeliveryNext::Ask(
                Call::PollClosed,
                Delivering::Poll(r@),
            ),
    {
        Subscription {
            topic: topic.to_owned(),
            routing_key: owned(routing_key),
            node_id: self.node_id().clone(),
        }
    }
}

impl Subscription {
    /// Begins to hand messages over, once the watch has begun.
    pub fn deliver(self) -> (r: Step<DeliveryOp, ()>)
        ensures
            r@ == DeliveryNext::Ask(Call::PollClosed, Delivering::Poll(self@)),
    {
        Step::Ask {
            request: Request::PollClosed,
            state: DeliveryOp::Poll { subscription: self },
        }
    }

    /// Whether messages with the routing key are wanted: all are, where the
    /// subscriber named none.
    pub fn wants(&self, routing_key: &Option<String>) -> (r: bool)
        ensures
            r == wants(self@, content(*routing_key)),
    {
        match &self.routing_key {
            None => true,
            Some(wanted) => match routing_key {
                Some(key) => *key == *wanted,
                None => false,
            },
        }
    }
}

impl DeliveryOp {
    /// Whether the operation can go on with `reply`.
    pub fn accepts(&self, reply: &Reply) -> (r: bool)
        ensures
            r == delivery_accepts(self@, reply@),
    {
        match self {
            DeliveryOp::Poll { .. } => reply.is_for(Kind::Closed),
            DeliveryOp::Receive { .. } => reply.is_for(Kind::Events),
            DeliveryOp::Decode { .. } => reply.is_for(Kind::Envelope),
            DeliveryOp::Deliver { .. } => reply.is_for(Kind::Done),
            DeliveryOp::Cancel => reply.is_for(Kind::Done),
        }
    }

    /// Goes on with the reply to the call that was asked for.
    pub fn step(self, reply: Reply) -> (r: Step<DeliveryOp, ()>)
        requires
            delivery_accepts(self@, reply@),
        ensures
            r@ == delivery_next(self@, reply@),
    {
        match self {
            DeliveryOp::Poll { subscription } => match reply {
                Reply::Closed { closed } => if closed {
                    Step::Ask { request: Request::CancelWatch, state: DeliveryOp::Cancel }
                } else {
                    Step::Ask {
                        request: Request::ReceiveEvents,
                        state: DeliveryOp::Receive { subscription },
                    }
                },
                _ => unreached(),
            },
            DeliveryOp::Receive { subscription } => match reply {
                Reply::Events { events: Some(events) } => {
                    let rest: Vec<WatchEvent> = backwards(events);
                    assert(changes(rest@) =~= changes(events@).reverse());
                    delivery_from(subscription, rest)
                },
                _ => Step::Finished { result: () },
            },
            DeliveryOp::Decode { subscription, rest } => match reply {
                Reply::Failed { .. } => delivery_from(subscription, rest),
                Reply::Envelope { routing_key, payload } => if subscription.wants(&routing_key) {
                    let message: PublishedMessage = PublishedMessage {
                        topic: subscription.topic.clone(),
                        routing_key,
                        payload,
                        from_node: subscription.node_id.clone(),
                    };
                    Step::Ask {
                        request: Request::DeliverMessage { message },
                        state: DeliveryOp::Deliver { subscription, rest },
                    }
                } else {
                    delivery_from(subscription, rest)
                },
                _ => unreached(),
            },
            DeliveryOp::Deliver { subscription, rest } => match reply {
                Reply::Done => delivery_from(subscription, rest),
                Reply::Failed { .. } => Step::Ask {
                    request: Request::CancelWatch,
                    state: DeliveryOp::Cancel,
                },
                _ => unreached(),
            },
            DeliveryOp::Cancel => Step::Finished { result: () },
        }
    }
}

} // verus!
