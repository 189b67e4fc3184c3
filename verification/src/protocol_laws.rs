//! What calls, replies and results hold.
use vstd::prelude::*;

use crate::error::{ClusterError, Fault};
use crate::events::{text_of, PublishedMessage, Subscription};
use crate::kv::Entry;
use crate::lease::{Renewal, Renewed};
use crate::peers::{ClusterPeer, PeerChange, PeerEvent, PeerHealth};
use crate::protocol::{
    answer_kind, changes, fits, records, Answer, Call, KeyValue, Next, Outcome, Reply, Request,
    Step, WatchEvent,
};
use crate::time::{TimeSpan, UnixTime};
use crate::tls::TlsSettings;

verus! {

/// Calls on keys and leases hold exactly what is asked for.
pub proof fn calls_on_keys_hold_what_is_asked(
    key: String,
    value: Vec<u8>,
    lease: Option<i64>,
    number: i64,
)
    ensures
        (Request::Get { key })@ == Call::Get(key@),
        (Request::GetPrefix { prefix: key, limit: lease })@ == Call::GetPrefix(key@, lease),
        (Request::Put { key, value, lease })@ == Call::Put(key@, value@, lease),
        (Request::Delete { key })@ == Call::Delete(key@),
        (Request::PutIfAbsent { key, value, lease })@ == Call::PutIfAbsent(key@, value@, lease),
        (Request::LeaseGrant { ttl: number })@ == Call::LeaseGrant(number),
        (Request::LeaseRevoke { lease: number })@ == Call::LeaseRevoke(number),
        (Request::LeaseTimeToLive { lease: number })@ == Call::LeaseTimeToLive(number),
        (Request::LeaseKeepAlive { lease: number })@ == Call::LeaseKeepAlive(number),
        Request::SendHeartbeat@ == Call::SendHeartbeat,
        Request::ReadHeartbeat@ == Call::ReadHeartbeat,
        (Request::Unlock { key })@ == Call::Unlock(key@),
        (Request::StartWatch { prefix: key })@ == Call::StartWatch(key@),
        Request::PollClosed@ == Call::PollClosed,
        Request::ReceiveEvents@ == Call::ReceiveEvents,
        Request::CancelWatch@ == Call::CancelWatch,
        Request::StopRenewal@ == Call::StopRenewal,
{
}

/// Calls on what is around the coordinator hold exactly what is asked for.
pub proof fn other_calls_hold_what_is_asked(
    span: TimeSpan,
    text: String,
    password: String,
    bytes: Vec<u8>,
    endpoints: Vec<String>,
    at: int,
    tls: TlsSettings,
)
    requires
        0 <= at < endpoints@.len(),
    ensures
        Request::ReadClock@ == Call::ReadClock,
        (Request::Sleep { span })@ == Call::Sleep(span),
        (Request::ReadFile { path: text })@ == Call::ReadFile(text@),
        Request::Connect@ == Call::Connect,
        (Request::Encode { routing_key: Some(text), payload: bytes })@ == Call::Encode(
            Some(text@),
            bytes@,
        ),
        (Request::Encode { routing_key: None, payload: bytes })@ == Call::Encode(None, bytes@),
        (Request::Decode { wire: bytes })@ == Call::Decode(bytes@),
        ({
            let call = (Request::Open { endpoints, user: Some((text, password)), tls: Some(tls) })@;
            &&& call is Open
            &&& call->Open_0.len() == endpoints@.len()
            &&& call->Open_0[at] == endpoints@[at]@
            &&& call->Open_1 == Some((text@, password@))
            &&& call->Open_2 == Some(tls.content())
        }),
        ({
            let call = (Request::Open { endpoints, user: None, tls: None })@;
            &&& call is Open
            &&& call->Open_0.len() == endpoints@.len()
            &&& call->Open_0[at] == endpoints@[at]@
            &&& call->Open_1 is None
            &&& call->Open_2 is None
        }),
{
}

/// TLS settings hold their material.
pub proof fn tls_settings_hold_their_parts(
    tls: TlsSettings,
    ca_cert: Vec<u8>,
    client_cert: Vec<u8>,
    client_key: Vec<u8>,
    domain_name: String,
)
    ensures
        tls.ca_cert == Some(ca_cert) ==> tls.content().ca_cert == Some(ca_cert@),
        tls.ca_cert is None ==> tls.content().ca_cert is None,
        tls.identity == Some((client_cert, client_key)) ==> tls.content().identity == Some(
            (client_cert@, client_key@),
        ),
        tls.identity is None ==> tls.content().identity is None,
        tls.domain_name == Some(domain_name) ==> tls.content().domain_name == Some(domain_name@),
        tls.domain_name is None ==> tls.content().domain_name is None,
{
}

/// What listeners are handed holds what it says.
pub proof fn what_is_handed_over_holds_what_it_says(
    message: PublishedMessage,
    peer: ClusterPeer,
    node_id: String,
    health: PeerHealth,
    routing_key: String,
    at: int,
)
    ensures
        (Request::DeliverMessage { message })@ == Call::DeliverMessage(message@),
        message@.topic == message.topic@,
        message.routing_key == Some(routing_key) ==> message@.routing_key == Some(routing_key@),
        message.routing_key is None ==> message@.routing_key is None,
        message@.payload == message.payload@,
        message@.from_node == message.from_node@,
        (Request::DeliverPeerEvent { event: PeerEvent::Joined { peer } })@
            == Call::DeliverPeerEvent(PeerChange::Joined(peer@)),
        (Request::DeliverPeerEvent { event: PeerEvent::Left { node_id } })@
            == Call::DeliverPeerEvent(PeerChange::Left(node_id@)),
        (Request::DeliverPeerEvent { event: PeerEvent::HealthChanged { node_id, health } })@
            == Call::DeliverPeerEvent(PeerChange::HealthChanged(node_id@, health)),
        peer@.node_id == peer.node_id@,
        peer@.address == peer.address@,
        peer@.last_seen == peer.last_seen@,
        peer@.health == peer.health,
        peer@.roles.len() == peer.roles@.len(),
        0 <= at < peer.roles@.len() ==> peer@.roles[at] == peer.roles@[at]@,
        peer.content() == peer@,
{
}

/// A subscription asks for its topic, its routing key and its node.
pub proof fn subscriptions_hold_what_is_asked(subscription: Subscription, routing_key: String)
    ensures
        subscription@.topic == subscription.topic@,
        subscription.routing_key == Some(routing_key) ==> subscription@.routing_key == Some(
            routing_key@,
        ),
        subscription.routing_key is None ==> subscription@.routing_key is None,
        subscription@.node_id == subscription.node_id@,
        forall|text: &str| #[trigger] text_of(Some(text)) == Some(text@),
        text_of(None) is None,
{
}

/// Replies hold exactly what was heard.
pub proof fn replies_hold_what_was_heard(
    text: String,
    bytes: Vec<u8>,
    number: i64,
    yes: bool,
    heard: Option<i64>,
    now: UnixTime,
    error: ClusterError,
)
    ensures
        (Reply::Failed { detail: text })@ == Answer::Failed(text@),
        Reply::Done@ == Answer::Done,
        (Reply::Deleted { count: number })@ == Answer::Deleted(number),
        (Reply::Compared { succeeded: yes })@ == Answer::Compared(yes),
        (Reply::Granted { lease: number })@ == Answer::Granted(number),
        (Reply::TimeToLive { ttl: number })@ == Answer::TimeToLive(number),
        (Reply::Heartbeat { ttl: heard })@ == Answer::Heartbeat(heard),
        (Reply::Clock { now })@ == Answer::Clock(now),
        (Reply::Bytes { bytes })@ == Answer::Bytes(bytes@),
        (Reply::Refused { error })@ == Answer::Refused(error@),
        (Reply::Envelope { routing_key: Some(text), payload: bytes })@ == Answer::Envelope(
            Some(text@),
            bytes@,
        ),
        (Reply::Envelope { routing_key: None, payload: bytes })@ == Answer::Envelope(
            None,
            bytes@,
        ),
        (Reply::Closed { closed: yes })@ == Answer::Closed(yes),
        (Reply::Events { events: None })@ == Answer::Events(None),
{
}

/// Records and changes that were heard are what they are, one by one, in order.
pub proof fn records_hold_what_was_heard(
    kvs: Vec<KeyValue>,
    events: Vec<WatchEvent>,
    at: int,
    kv: KeyValue,
)
    ensures
        (Reply::KeyValues { kvs })@ == Answer::KeyValues(records(kvs@)),
        records(kvs@).len() == kvs@.len(),
        0 <= at < kvs@.len() ==> records(kvs@)[at] == kvs@[at]@,
        kv@.key == kv.key@,
        kv@.value == kv.value@,
        kv@.lease == kv.lease,
        kv@.version == kv.version,
        (Reply::Events { events: Some(events) })@ == Answer::Events(Some(changes(events@))),
        changes(events@).len() == events@.len(),
        0 <= at < events@.len() ==> {
            let change = changes(events@)[at];
            &&& change.is_put == events@[at].is_put
            &&& events@[at].kv == Some(kv) ==> change.kv == Some(kv@)
            &&& events@[at].kv is None ==> change.kv is None
        },
{
}

/// Every call can be answered as it should be, and only so: the clock and the
/// listener's poll always answer, a connection is there or is refused, and
/// everything else answers in its own way or fails.
pub proof fn calls_are_answered_in_their_way(call: Call, answer: Answer)
    ensures
        fits(answer_kind(call), answer) <==> match call {
            Call::Get(_) => answer is KeyValues || answer is Failed,
            Call::GetPrefix(_, _) => answer is KeyValues || answer is Failed,
            Call::Put(_, _, _) => answer is Done || answer is Failed,
            Call::Delete(_) => answer is Deleted || answer is Failed,
            Call::PutIfAbsent(_, _, _) => answer is Compared || answer is Failed,
            Call::LeaseGrant(_) => answer is Granted || answer is Failed,
            Call::LeaseRevoke(_) => answer is Done || answer is Failed,
            Call::LeaseTimeToLive(_) => answer is TimeToLive || answer is Failed,
            Call::LeaseKeepAlive(_) => answer is Done || answer is Failed,
            Call::SendHeartbeat => answer is Done || answer is Failed,
            Call::ReadHeartbeat => answer is Heartbeat || answer is Failed,
            Call::Unlock(_) => answer is Done || answer is Failed,
            Call::ReadClock => answer is Clock,
            Call::Sleep(_) => answer is Done || answer is Failed,
            Call::ReadFile(_) => answer is Bytes || answer is Failed,
            Call::Connect => answer is Done || answer is Refused,
            Call::Open(_, _, _) => answer is Done || answer is Failed,
            Call::Encode(_, _) => answer is Bytes || answer is Failed,
            Call::Decode(_) => answer is Envelope || answer is Failed,
            Call::StartWatch(_) => answer is Done || answer is Failed,
            Call::PollClosed => answer is Closed,
            Call::ReceiveEvents => answer is Events || answer is Failed,
            Call::DeliverPeerEvent(_) => answer is Done || answer is Failed,
            Call::DeliverMessage(_) => answer is Done || answer is Failed,
            Call::CancelWatch => answer is Done || answer is Failed,
            Call::StopRenewal => answer is Done || answer is Failed,
        },
{
}

/// Errors hold what is told of them.
pub proof fn errors_hold_their_reasons(reason: String)
    ensures
        (ClusterError::BackendUnavailable { reason })@ == Fault::BackendUnavailable(reason@),
        (ClusterError::Internal { reason })@ == Fault::Internal(reason@),
        (ClusterError::InvalidReference { message: reason })@ == Fault::InvalidReference(reason@),
        ClusterError::LeaseExpired@ == Fault::LeaseExpired,
{
}

/// Results hold what was found.
pub proof fn results_hold_what_was_found(
    entry: Entry,
    entries: Vec<(String, Entry)>,
    peers: Vec<ClusterPeer>,
    at: int,
    text: String,
    yes: bool,
    error: ClusterError,
)
    ensures
        entry.content().bytes == entry.bytes@,
        entry.content().expires_at == entry.expires_at,
        entries.content().len() == entries@.len(),
        0 <= at < entries@.len() ==> {
            &&& entries.content()[at].0 == entries@[at].0@
            &&& entries.content()[at].1 == entries@[at].1.content()
        },
        peers.content().len() == peers@.len(),
        0 <= at < peers@.len() ==> peers.content()[at] == peers@[at]@,
        Some(entry).content() == Some(entry.content()),
        None::<Entry>.content() is None,
        text.content() == text@,
        yes.content() == yes,
        Ok::<bool, ClusterError>(yes).content() == Ok::<bool, Fault>(yes),
        Err::<bool, ClusterError>(error).content() == Err::<bool, Fault>(error@),
        (Renewal::Renewed { expires_at: text }).content() == Renewed::Until(text@),
        Renewal::Lapsed.content() == Renewed::Lapsed,
        (Renewal::Failed { error }).content() == Renewed::Failed(error@),
{
}

/// A step that asks shows its call and where the operation is; one that is the
/// end shows its result.
pub proof fn steps_show_calls_and_results<S: View, R: Outcome>(
    request: Request,
    state: S,
    result: R,
)
    ensures
        (Step::<S, R>::Ask { request, state })@ == Next::<S::V, R::Content>::Ask(
            request@,
            state@,
        ),
        (Step::<S, R>::Finished { result })@ == Next::<S::V, R::Content>::Finished(
            result.content(),
        ),
{
}

} // verus!
