//! What an operation asks of etcd and of its surroundings, and what it hears back.
//!
//! An operation is a state machine: each [`Step`] either asks for one call and
//! waits for its reply, or is the operation's result.
use vstd::prelude::*;

use crate::config::{ConfigError, ConfigFault};
use crate::error::{ClusterError, Fault};
use crate::events::{Message, PublishedMessage};
use crate::peers::{PeerChange, PeerEvent};
use crate::text::{content, contents};
use crate::tls::{Tls, TlsSettings};
use crate::time::{TimeSpan, UnixTime};

verus! {

/// One call that an operation asks for.
#[derive(Debug)]
#[allow(inconsistent_fields)]
pub enum Request {
    /// Read one key.
    Get { key: String },
    /// Read the keys that begin with `prefix`, at most `limit` of them.
    GetPrefix { prefix: String, limit: Option<i64> },
    /// Write a key, attached to `lease` or to none.
    Put { key: String, value: Vec<u8>, lease: Option<i64> },
    /// Remove one key.
    Delete { key: String },
    /// In one transaction, write the key if it does not exist.
    PutIfAbsent { key: String, value: Vec<u8>, lease: Option<i64> },
    /// Grant a lease of `ttl` seconds.
    LeaseGrant { ttl: i64 },
    /// Revoke a lease.
    LeaseRevoke { lease: i64 },
    /// Ask how long a lease lasts yet.
    LeaseTimeToLive { lease: i64 },
    /// Open the keep-alive exchange of a lease.
    LeaseKeepAlive { lease: i64 },
    /// Send one heartbeat on the open exchange.
    SendHeartbeat,
    /// Read one answer from the open exchange.
    ReadHeartbeat,
    /// Give up a lock key.
    Unlock { key: String },
    /// Read the clock.
    ReadClock,
    /// Wait.
    Sleep { span: TimeSpan },
    /// Read a whole file.
    ReadFile { path: String },
    /// Make sure that there is a connection.
    Connect,
    /// Open a connection.
    Open {
        endpoints: Vec<String>,
        /// User name and password.
        user: Option<(String, String)>,
        /// Nothing where the connection is plaintext.
        tls: Option<TlsSettings>,
    },
    /// Wrap a payload and its routing key for the wire.
    Encode { routing_key: Option<String>, payload: Vec<u8> },
    /// Unwrap a payload and its routing key.
    Decode { wire: Vec<u8> },
    /// Watch the keys that begin with `prefix`.
    StartWatch { prefix: String },
    /// Ask whether anybody still listens.
    PollClosed,
    /// Wait for the next changes.
    ReceiveEvents,
    /// Hand an event to the listener.
    DeliverPeerEvent { event: PeerEvent },
    /// Hand a message to the listener.
    DeliverMessage { message: PublishedMessage },
    /// Stop watching.
    CancelWatch,
    /// Stop the background renewal of the lease.
    StopRenewal,
}

/// The content of a [`Request`].
pub enum Call {
    Get(Seq<char>),
    GetPrefix(Seq<char>, Option<i64>),
    Put(Seq<char>, Seq<u8>, Option<i64>),
    Delete(Seq<char>),
    PutIfAbsent(Seq<char>, Seq<u8>, Option<i64>),
    LeaseGrant(i64),
    LeaseRevoke(i64),
    LeaseTimeToLive(i64),
    LeaseKeepAlive(i64),
    SendHeartbeat,
    ReadHeartbeat,
    Unlock(Seq<char>),
    ReadClock,
    Sleep(TimeSpan),
    ReadFile(Seq<char>),
    Connect,
    Open(Seq<Seq<char>>, Option<(Seq<char>, Seq<char>)>, Option<Tls>),
    Encode(Option<Seq<char>>, Seq<u8>),
    Decode(Seq<u8>),
    StartWatch(Seq<char>),
    PollClosed,
    ReceiveEvents,
    DeliverPeerEvent(PeerChange),
    DeliverMessage(Message),
    CancelWatch,
    StopRenewal,
}

impl View for Request {
    type V = Call;

    open spec fn view(&self) -> Call {
        match self {
            Request::Get { key } => Call::Get(key@),
            Request::GetPrefix { prefix, limit } => Call::GetPrefix(prefix@, *limit),
            Request::Put { key, value, lease } => Call::Put(key@, value@, *lease),
            Request::Delete { key } => Call::Delete(key@),
            Request::PutIfAbsent { key, value, lease } => Call::PutIfAbsent(key@, value@, *lease),
            Request::LeaseGrant { ttl } => Call::LeaseGrant(*ttl),
            Request::LeaseRevoke { lease } => Call::LeaseRevoke(*lease),
            Request::LeaseTimeToLive { lease } => Call::LeaseTimeToLive(*lease),
            Request::LeaseKeepAlive { lease } => Call::LeaseKeepAlive(*lease),
            Request::SendHeartbeat => Call::SendHeartbeat,
            Request::ReadHeartbeat => Call::ReadHeartbeat,
            Request::Unlock { key } => Call::Unlock(key@),
            Request::ReadClock => Call::ReadClock,
            Request::Sleep { span } => Call::Sleep(*span),
            Request::ReadFile { path } => Call::ReadFile(path@),
            Request::Connect => Call::Connect,
            Request::Open { endpoints, user, tls } => Call::Open(
                contents(endpoints@),
                match user {
                    Some((name, password)) => Some((name@, password@)),
                    None => None,
                },
                tls.content(),
            ),
            Request::Encode { routing_key, payload } => Call::Encode(
                content(*routing_key),
                payload@,
            ),
            Request::Decode { wire } => Call::Decode(wire@),
            Request::StartWatch { prefix } => Call::StartWatch(prefix@),
            Request::PollClosed => Call::PollClosed,
            Request::ReceiveEvents => Call::ReceiveEvents,
            Request::DeliverPeerEvent { event } => Call::DeliverPeerEvent(event@),
            Request::DeliverMessage { message } => Call::DeliverMessage(message@),
            Request::CancelWatch => Call::CancelWatch,
            Request::StopRenewal => Call::StopRenewal,
        }
    }
}

/// A key as etcd stores it.
#[derive(Debug)]
pub struct KeyValue {
    pub key: Vec<u8>,
    pub value: Vec<u8>,
    /// The attached lease; 0 stands for none.
    pub lease: i64,
    /// How often the key was written since it was created.
    pub version: i64,
}

/// The content of a [`KeyValue`].
pub struct Record {
    pub key: Seq<u8>,
    pub value: Seq<u8>,
    pub lease: i64,
    pub version: i64,
}

impl View for KeyValue {
    type V = Record;

    open spec fn view(&self) -> Record {
        Record { key: self.key@, value: self.value@, lease: self.lease, version: self.version }
    }
}

/// The contents of a list of stored keys.
pub open spec fn records(kvs: Seq<KeyValue>) -> Seq<Record> {
    kvs.map_values(|kv: KeyValue| kv@)
}

/// A change of a watched key.
#[derive(Debug)]
pub struct WatchEvent {
    /// Whether the key was written; otherwise it was removed.
    pub is_put: bool,
    pub kv: Option<KeyValue>,
}

/// The content of a [`WatchEvent`].
pub struct Change {
    pub is_put: bool,
    pub kv: Option<Record>,
}

impl View for WatchEvent {
    type V = Change;

    open spec fn view(&self) -> Change {
        Change {
            is_put: self.is_put,
            kv: match self.kv {
                Some(kv) => Some(kv@),
                None => None,
            },
        }
    }
}

/// The contents of a list of changes.
pub open spec fn changes(events: Seq<WatchEvent>) -> Seq<Change> {
    events.map_values(|event: WatchEvent| event@)
}

/// A list with its first element last.
pub(crate) fn backwards<T>(list: Vec<T>) -> (r: Vec<T>)
    ensures
        r@ == list@.reverse(),
{
    let ghost given = list@;
    let mut list = list;
    let mut r: Vec<T> = Vec::new();
    while list.len() > 0
        invariant
            list@.len() <= given.len(),
            list@ == given.take(list@.len() as int),
            r@ == given.skip(list@.len() as int).reverse(),
        decreases list@.len(),
    {
        let ghost left = list@.len() as int;
        match list.pop() {
            Some(element) => {
                r.push(element);
                assert(given.skip(left - 1).reverse() =~= given.skip(left).reverse().push(
                    given[left - 1],
                ));
                assert(list@ =~= given.take(left - 1));
            },
            None => {},
        }
    }
    assert(given.skip(0) =~= given);
    r
}

/// The reply to a [`Request`].
#[derive(Debug)]
#[allow(inconsistent_fields)]
pub enum Reply {
    /// The call failed.
    Failed { detail: String },
    /// The call was carried out and says nothing more.
    Done,
    /// The keys that were read.
    KeyValues { kvs: Vec<KeyValue> },
    /// How many keys were removed.
    Deleted { count: i64 },
    /// Whether the transaction's comparison held.
    Compared { succeeded: bool },
    /// The lease that was granted.
    Granted { lease: i64 },
    /// The seconds that the lease lasts yet.
    TimeToLive { ttl: i64 },
    /// The seconds that the lease was extended to; nothing where the exchange
    /// was closed.
    Heartbeat { ttl: Option<i64> },
    /// The clock reading.
    Clock { now: UnixTime },
    /// The content of the file, or the wrapped payload.
    Bytes { bytes: Vec<u8> },
    /// There is no connection.
    Refused { error: ClusterError },
    /// The unwrapped payload.
    Envelope { routing_key: Option<String>, payload: Vec<u8> },
    /// Whether nobody listens any more.
    Closed { closed: bool },
    /// The changes; nothing where the watch has ended.
    Events { events: Option<Vec<WatchEvent>> },
}

/// The content of a [`Reply`].
pub enum Answer {
    Failed(Seq<char>),
    Done,
    KeyValues(Seq<Record>),
    Deleted(i64),
    Compared(bool),
    Granted(i64),
    TimeToLive(i64),
    Heartbeat(Option<i64>),
    Clock(UnixTime),
    Bytes(Seq<u8>),
    Refused(Fault),
    Envelope(Option<Seq<char>>, Seq<u8>),
    Closed(bool),
    Events(Option<Seq<Change>>),
}

impl View for Reply {
    type V = Answer;

    open spec fn view(&self) -> Answer {
        match self {
            Reply::Failed { detail } => Answer::Failed(detail@),
            Reply::Done => Answer::Done,
            Reply::KeyValues { kvs } => Answer::KeyValues(records(kvs@)),
            Reply::Deleted { count } => Answer::Deleted(*count),
            Reply::Compared { succeeded } => Answer::Compared(*succeeded),
            Reply::Granted { lease } => Answer::Granted(*lease),
            Reply::TimeToLive { ttl } => Answer::TimeToLive(*ttl),
            Reply::Heartbeat { ttl } => Answer::Heartbeat(*ttl),
            Reply::Clock { now } => Answer::Clock(*now),
            Reply::Bytes { bytes } => Answer::Bytes(bytes@),
            Reply::Refused { error } => Answer::Refused(error@),
            Reply::Envelope { routing_key, payload } => Answer::Envelope(
                content(*routing_key),
                payload@,
            ),
            Reply::Closed { closed } => Answer::Closed(*closed),
            Reply::Events { events } => Answer::Events(
                match events {
                    Some(events) => Some(changes(events@)),
                    None => None,
                },
            ),
        }
    }
}

/// The kinds of reply.
#[derive(Clone, Copy, Debug, PartialEq, Eq, Structural)]
pub enum Kind {
    Done,
    KeyValues,
    Deleted,
    Compared,
    Granted,
    TimeToLive,
    Heartbeat,
    Clock,
    Bytes,
    Connected,
    Envelope,
    Closed,
    Events,
}

/// The kind of reply that a call is answered with.
pub open spec fn answer_kind(call: Call) -> Kind {
    match call {
        Call::Get(_) => Kind::KeyValues,
        Call::GetPrefix(_, _) => Kind::KeyValues,
        Call::Put(_, _, _) => Kind::Done,
        Call::Delete(_) => Kind::Deleted,
        Call::PutIfAbsent(_, _, _) => Kind::Compared,
        Call::LeaseGrant(_) => Kind::Granted,
        Call::LeaseRevoke(_) => Kind::Done,
        Call::LeaseTimeToLive(_) => Kind::TimeToLive,
        Call::LeaseKeepAlive(_) => Kind::Done,
        Call::SendHeartbeat => Kind::Done,
        Call::ReadHeartbeat => Kind::Heartbeat,
        Call::Unlock(_) => Kind::Done,
        Call::ReadClock => Kind::Clock,
        Call::Sleep(_) => Kind::Done,
        Call::ReadFile(_) => Kind::Bytes,
        Call::Connect => Kind::Connected,
        Call::Open(_, _, _) => Kind::Done,
        Call::Encode(_, _) => Kind::Bytes,
        Call::Decode(_) => Kind::Envelope,
        Call::StartWatch(_) => Kind::Done,
        Call::PollClosed => Kind::Closed,
        Call::ReceiveEvents => Kind::Events,
        Call::DeliverPeerEvent(_) => Kind::Done,
        Call::DeliverMessage(_) => Kind::Done,
        Call::CancelWatch => Kind::Done,
        Call::StopRenewal => Kind::Done,
    }
}

/// Whether the reply is of the kind, or tells that the call failed. Reading
/// the clock and asking for a listener do not fail; a connection that cannot be
/// made is refused.
pub open spec fn fits(kind: Kind, answer: Answer) -> bool {
    match answer {
        Answer::Failed(_) => kind != Kind::Clock && kind != Kind::Connected && kind
            != Kind::Closed,
        Answer::Done => kind == Kind::Done || kind == Kind::Connected,
        Answer::KeyValues(_) => kind == Kind::KeyValues,
        Answer::Deleted(_) => kind == Kind::Deleted,
        Answer::Compared(_) => kind == Kind::Compared,
        Answer::Granted(_) => kind == Kind::Granted,
        Answer::TimeToLive(_) => kind == Kind::TimeToLive,
        Answer::Heartbeat(_) => kind == Kind::Heartbeat,
        Answer::Clock(_) => kind == Kind::Clock,
        Answer::Bytes(_) => kind == Kind::Bytes,
        Answer::Refused(_) => kind == Kind::Connected,
        Answer::Envelope(_, _) => kind == Kind::Envelope,
        Answer::Closed(_) => kind == Kind::Closed,
        Answer::Events(_) => kind == Kind::Events,
    }
}

impl Reply {
    /// Whether this reply [`fits`] the kind.
    pub fn is_for(&self, kind: Kind) -> (r: bool)
        ensures
            r == fits(kind, self@),
    {
        match self {
            Reply::Failed { .. } => kind != Kind::Clock && kind != Kind::Connected && kind
                != Kind::Closed,
            Reply::Done => kind == Kind::Done || kind == Kind::Connected,
            Reply::KeyValues { .. } => kind == Kind::KeyValues,
            Reply::Deleted { .. } => kind == Kind::Deleted,
            Reply::Compared { .. } => kind == Kind::Compared,
            Reply::Granted { .. } => kind == Kind::Granted,
            Reply::TimeToLive { .. } => kind == Kind::TimeToLive,
            Reply::Heartbeat { .. } => kind == Kind::Heartbeat,
            Reply::Clock { .. } => kind == Kind::Clock,
            Reply::Bytes { .. } => kind == Kind::Bytes,
            Reply::Refused { .. } => kind == Kind::Connected,
            Reply::Envelope { .. } => kind == Kind::Envelope,
            Reply::Closed { .. } => kind == Kind::Closed,
            Reply::Events { .. } => kind == Kind::Events,
        }
    }
}

/// What an operation does next.
#[derive(Debug)]
pub enum Step<S, R> {
    /// Make the call, then hand its reply to the state.
    Ask { request: Request, state: S },
    /// The operation is over.
    Finished { result: R },
}

/// The content of a [`Step`].
pub enum Next<S, R> {
    Ask(Call, S),
    Finished(R),
}

/// Results whose content can be compared.
pub trait Outcome {
    type Content;

    spec fn content(&self) -> Self::Content;
}

impl Outcome for () {
    type Content = ();

    open spec fn content(&self) -> () {
        ()
    }
}

impl Outcome for bool {
    type Content = bool;

    open spec fn content(&self) -> bool {
        *self
    }
}

impl Outcome for String {
    type Content = Seq<char>;

    open spec fn content(&self) -> Seq<char> {
        self@
    }
}

impl<T: Outcome> Outcome for Option<T> {
    type Content = Option<T::Content>;

    open spec fn content(&self) -> Option<T::Content> {
        match self {
            Some(t) => Some(t.content()),
            None => None,
        }
    }
}

impl<T: Outcome> Outcome for Vec<T> {
    type Content = Seq<T::Content>;

    open spec fn content(&self) -> Seq<T::Content> {
        self@.map_values(|t: T| t.content())
    }
}

impl<A: Outcome, B: Outcome> Outcome for (A, B) {
    type Content = (A::Content, B::Content);

    open spec fn content(&self) -> (A::Content, B::Content) {
        (self.0.content(), self.1.content())
    }
}

impl<T: Outcome> Outcome for Result<T, ClusterError> {
    type Content = Result<T::Content, Fault>;

    open spec fn content(&self) -> Result<T::Content, Fault> {
        match self {
            Ok(t) => Ok(t.content()),
            Err(e) => Err(e@),
        }
    }
}

impl<T: Outcome> Outcome for Result<T, ConfigError> {
    type Content = Result<T::Content, ConfigFault>;

    open spec fn content(&self) -> Result<T::Content, ConfigFault> {
        match self {
            Ok(t) => Ok(t.content()),
            Err(e) => Err(e@),
        }
    }
}

impl<S: View, R: Outcome> View for Step<S, R> {
    type V = Next<S::V, R::Content>;

    open spec fn view(&self) -> Next<S::V, R::Content> {
        match self {
            Step::Ask { request, state } => Next::Ask(request@, state@),
            Step::Finished { result } => Next::Finished(result.content()),
        }
    }
}

} // verus!
