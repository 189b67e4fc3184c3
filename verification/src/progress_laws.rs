//! No operation gets stuck: whatever a call can be answered with, the operation
//! that asked for it can go on. The one exception is a clock reading out of
//! range: one whose sum with a time to live cannot be represented or written
//! down.
use vstd::prelude::*;
use vstd::utf8::encode_utf8;

use crate::backend::{connect_accepts, connect_first, connect_next, Connecting};
use crate::config::{Settings, TlsMaterial};
use crate::events::{
    delivery_accepts, delivery_next, delivery_onward, publish_accepts, publish_next,
    subscribe_accepts, subscribe_next, Delivering, DeliveryNext, Interest, PublishNext, Publishing,
    SubscribeNext, Subscribing,
};
use crate::kv::{
    as_listed, claim_accepts, claim_first, claim_next, delete_next, expire_accepts, expire_next,
    expiry, expiry_in_range, get_accepts, get_next, list_accepts, list_next, list_onward,
    put_accepts, put_first, put_next, Claiming, DeleteNext, ExpireNext, Expiring, Found, GetNext,
    Getting, ListNext, ListState, ListedKey, Listing, Putting,
};
use crate::lease::{
    acquire_accepts, acquire_first, acquire_next, release_first, release_next, renew_accepts,
    renew_first, renew_next, try_accepts, try_first, try_next, Acquiring, Lease, Releasing,
    Renewing, Trying,
};
use crate::peers::{
    list_peers_accepts, list_peers_next, peer_watch_accepts, peer_watch_next, peer_watch_onward,
    watch_peers_accepts, watch_peers_next, ListPeersNext, ListingPeers, PeerWatchNext,
    PeerWatching, StartingWatch, WatchPeersNext,
};
use crate::protocol::{answer_kind, fits, Answer, Call, Change, Kind, Next, Record};
use crate::time::{reaches, seconds, TimeSpan, UnixTime};
use crate::tls::{is_inline, pem_values, tls_first, tls_next, tls_onward, Gathering};

verus! {

/// Whether the answer is no clock reading, or one that is in range.
pub open spec fn is_in_range(answer: Answer, in_range: spec_fn(UnixTime) -> bool) -> bool {
    match answer {
        Answer::Clock(now) => in_range(now),
        _ => true,
    }
}

/// Whether an operation that is at `at` can go on with every answer to the
/// call that it asks for. A clock reading is to be in range.
pub open spec fn can_go_on<S, R>(
    at: Next<S, R>,
    accepts: spec_fn(S, Answer) -> bool,
    in_range: spec_fn(S, UnixTime) -> bool,
) -> bool {
    match at {
        Next::Finished(_) => true,
        Next::Ask(call, state) => forall|answer: Answer| #[trigger]
            fits(answer_kind(call), answer) && is_in_range(
                answer,
                |now: UnixTime| in_range(state, now),
            ) ==> accepts(state, answer),
    }
}

/// The readings to which a read can add the time that is left.
pub open spec fn get_range(state: Getting, now: UnixTime) -> bool {
    match state {
        Getting::Clock(_, ttl) => expiry_in_range(now, ttl),
        _ => true,
    }
}

/// The readings to which a listing can add the time that is left.
pub open spec fn list_range(state: ListState, now: UnixTime) -> bool {
    match state {
        ListState::Clock(_, _, _, _, ttl) => expiry_in_range(now, ttl),
        _ => true,
    }
}

/// The readings from which an attempt can tell the end of the lease.
pub open spec fn try_range(state: Trying, now: UnixTime) -> bool {
    match state {
        Trying::Clock(_, ttl, _) => reaches(now, ttl),
        _ => true,
    }
}

/// Whether the fraction of the time to live that an attempt is made for is less
/// than a second.
pub open spec fn try_wf(state: Trying) -> bool {
    match state {
        Trying::Grant(_, ttl) => ttl.wf(),
        Trying::Compare(_, ttl, _) => ttl.wf(),
        Trying::Clock(_, ttl, _) => ttl.wf(),
        Trying::Revoke => true,
    }
}

/// The readings from which an acquisition can tell the end of the lease.
pub open spec fn acquire_range(state: Acquiring, now: UnixTime) -> bool {
    match state {
        Acquiring::Attempt(state, _, _, _) => try_range(state, now),
        Acquiring::Backoff(_, _, _) => true,
    }
}

/// Whether the fraction of the time to live that an acquisition is made for is
/// less than a second.
pub open spec fn acquire_wf(state: Acquiring) -> bool {
    match state {
        Acquiring::Attempt(state, _, ttl, _) => try_wf(state) && ttl.wf(),
        Acquiring::Backoff(_, ttl, _) => ttl.wf(),
    }
}

/// The readings from which a renewal can tell the end of the lease.
pub open spec fn renew_range(state: Renewing, now: UnixTime) -> bool {
    match state {
        Renewing::Clock(ttl) => reaches(now, seconds(ttl as u64)),
        _ => true,
    }
}

/// A read never gets stuck.
pub proof fn get_goes_on(full: Seq<char>, state: Getting, answer: Answer)
    requires
        get_accepts(state, answer),
    ensures
        can_go_on(
            GetNext::Ask(Call::Get(full), Getting::Fetch),
            |s: Getting, a: Answer| get_accepts(s, a),
            |s: Getting, now: UnixTime| get_range(s, now),
        ),
        can_go_on(
            get_next(state, answer),
            |s: Getting, a: Answer| get_accepts(s, a),
            |s: Getting, now: UnixTime| get_range(s, now),
        ),
{
}

/// A write never gets stuck.
pub proof fn put_goes_on(
    full: Seq<char>,
    value: Seq<u8>,
    ttl: Option<TimeSpan>,
    state: Putting,
    answer: Answer,
)
    requires
        put_accepts(state, answer),
    ensures
        can_go_on(
            put_first(full, value, ttl),
            |s: Putting, a: Answer| put_accepts(s, a),
            |s: Putting, now: UnixTime| true,
        ),
        can_go_on(
            put_next(state, answer),
            |s: Putting, a: Answer| put_accepts(s, a),
            |s: Putting, now: UnixTime| true,
        ),
{
}

/// A claim never gets stuck.
pub proof fn claim_goes_on(
    full: Seq<char>,
    value: Seq<u8>,
    ttl: Option<TimeSpan>,
    state: Claiming,
    answer: Answer,
)
    requires
        claim_accepts(state, answer),
    ensures
        can_go_on(
            claim_first(full, value, ttl),
            |s: Claiming, a: Answer| claim_accepts(s, a),
            |s: Claiming, now: UnixTime| true,
        ),
        can_go_on(
            claim_next(state, answer),
            |s: Claiming, a: Answer| claim_accepts(s, a),
            |s: Claiming, now: UnixTime| true,
        ),
{
}

/// A change of the time to live never gets stuck.
pub proof fn expire_goes_on(
    full: Seq<char>,
    ttl: Option<TimeSpan>,
    state: Expiring,
    answer: Answer,
)
    requires
        expire_accepts(state, answer),
    ensures
        can_go_on(
            ExpireNext::Ask(Call::Get(full), Expiring::Fetch(full, ttl)),
            |s: Expiring, a: Answer| expire_accepts(s, a),
            |s: Expiring, now: UnixTime| true,
        ),
        can_go_on(
            expire_next(state, answer),
            |s: Expiring, a: Answer| expire_accepts(s, a),
            |s: Expiring, now: UnixTime| true,
        ),
{
}

/// A removal never gets stuck, and is over after its only call.
pub proof fn delete_ends(full: Seq<char>, answer: Answer)
    requires
        fits(Kind::Deleted, answer),
    ensures
        can_go_on(
            DeleteNext::Ask(Call::Delete(full), ()),
            |s: (), a: Answer| fits(Kind::Deleted, a),
            |s: (), now: UnixTime| true,
        ),
        delete_next(answer) is Finished,
{
}

proof fn onward_listing_goes_on(out: Listing, rest: Seq<ListedKey>)
    ensures
        can_go_on(
            list_onward(out, rest),
            |s: ListState, a: Answer| list_accepts(s, a),
            |s: ListState, now: UnixTime| list_range(s, now),
        ),
    decreases rest.len(),
{
    if rest.len() > 0 && rest.last().lease == 0 {
        let top = rest.last();
        onward_listing_goes_on(
            out.push((top.key, Found { bytes: top.value, expires_at: None })),
            rest.drop_last(),
        );
    }
}

/// A listing never gets stuck.
pub proof fn list_goes_on(
    prefix: Seq<char>,
    under: Seq<char>,
    limit: Option<i64>,
    state: ListState,
    answer: Answer,
)
    requires
        list_accepts(state, answer),
    ensures
        can_go_on(
            ListNext::Ask(
                Call::GetPrefix(prefix + under, limit),
                ListState::Fetch(prefix),
            ),
            |s: ListState, a: Answer| list_accepts(s, a),
            |s: ListState, now: UnixTime| list_range(s, now),
        ),
        can_go_on(
            list_next(state, answer),
            |s: ListState, a: Answer| list_accepts(s, a),
            |s: ListState, now: UnixTime| list_range(s, now),
        ),
{
    match (state, answer) {
        (ListState::Fetch(prefix), Answer::KeyValues(kvs)) => {
            onward_listing_goes_on(
                Seq::empty(),
                kvs.map_values(|r: Record| as_listed(prefix, r)).reverse(),
            );
        },
        (ListState::Lease(out, rest, key, value), _) => {
            onward_listing_goes_on(
                out.push((key, Found { bytes: value, expires_at: None })),
                rest,
            );
        },
        (ListState::Clock(out, rest, key, value, ttl), Answer::Clock(now)) => {
            onward_listing_goes_on(
                out.push(
                    (
                        key,
                        Found {
                            bytes: value,
                            expires_at: Some(expiry(now, ttl)),
                        },
                    ),
                ),
                rest,
            );
        },
        _ => {},
    }
}

/// An attempt to acquire a lease never gets stuck.
pub proof fn try_goes_on(name: Seq<char>, ttl: TimeSpan, state: Trying, answer: Answer)
    requires
        ttl.wf(),
        try_wf(state),
        try_accepts(state, answer),
    ensures
        can_go_on(
            try_first(name, ttl),
            |s: Trying, a: Answer| try_accepts(s, a),
            |s: Trying, now: UnixTime| try_range(s, now),
        ),
        can_go_on(
            try_next(state, answer),
            |s: Trying, a: Answer| try_accepts(s, a),
            |s: Trying, now: UnixTime| try_range(s, now),
        ),
{
}

/// Acquiring a lease never gets stuck.
pub proof fn acquire_goes_on(name: Seq<char>, ttl: TimeSpan, state: Acquiring, answer: Answer)
    requires
        ttl.wf(),
        acquire_wf(state),
        acquire_accepts(state, answer),
    ensures
        can_go_on(
            acquire_first(name, ttl),
            |s: Acquiring, a: Answer| acquire_accepts(s, a),
            |s: Acquiring, now: UnixTime| acquire_range(s, now),
        ),
        can_go_on(
            acquire_next(state, answer),
            |s: Acquiring, a: Answer| acquire_accepts(s, a),
            |s: Acquiring, now: UnixTime| acquire_range(s, now),
        ),
{
}

/// What [`acquire_goes_on`] asks of the time to live holds at every step of an
/// acquisition if it holds of the one that the acquisition is begun with.
pub proof fn acquisitions_keep_proper_times_to_live(
    name: Seq<char>,
    ttl: TimeSpan,
    state: Acquiring,
    answer: Answer,
)
    requires
        ttl.wf(),
        acquire_wf(state),
        acquire_accepts(state, answer),
    ensures
        acquire_first(name, ttl) matches Next::Ask(_, first) ==> acquire_wf(first),
        acquire_next(state, answer) matches Next::Ask(_, next) ==> acquire_wf(next),
{
}

/// A renewal never gets stuck.
pub proof fn renew_goes_on(lease: Option<Lease>, state: Renewing, answer: Answer)
    requires
        renew_accepts(state, answer),
    ensures
        can_go_on(
            renew_first(lease),
            |s: Renewing, a: Answer| renew_accepts(s, a),
            |s: Renewing, now: UnixTime| renew_range(s, now),
        ),
        can_go_on(
            renew_next(state, answer),
            |s: Renewing, a: Answer| renew_accepts(s, a),
            |s: Renewing, now: UnixTime| renew_range(s, now),
        ),
{
}

/// Giving a lease up never gets stuck.
pub proof fn release_goes_on(lease: Option<Lease>, state: Releasing)
    ensures
        can_go_on(
            release_first(lease),
            |s: Releasing, a: Answer| fits(Kind::Done, a),
            |s: Releasing, now: UnixTime| true,
        ),
        can_go_on(
            release_next(state),
            |s: Releasing, a: Answer| fits(Kind::Done, a),
            |s: Releasing, now: UnixTime| true,
        ),
{
}

/// Listing the peers never gets stuck.
pub proof fn list_peers_goes_on(prefix: Seq<char>, state: ListingPeers, answer: Answer)
    requires
        list_peers_accepts(state, answer),
    ensures
        can_go_on(
            ListPeersNext::Ask(Call::Connect, ListingPeers::Connect(prefix)),
            |s: ListingPeers, a: Answer| list_peers_accepts(s, a),
            |s: ListingPeers, now: UnixTime| now.wf(),
        ),
        can_go_on(
            list_peers_next(state, answer),
            |s: ListingPeers, a: Answer| list_peers_accepts(s, a),
            |s: ListingPeers, now: UnixTime| now.wf(),
        ),
{
}

/// Beginning to watch the peers never gets stuck.
pub proof fn watch_peers_goes_on(prefix: Seq<char>, state: StartingWatch, answer: Answer)
    requires
        watch_peers_accepts(state, answer),
    ensures
        can_go_on(
            WatchPeersNext::Ask(Call::Connect, StartingWatch::Connect(prefix)),
            |s: StartingWatch, a: Answer| watch_peers_accepts(s, a),
            |s: StartingWatch, now: UnixTime| true,
        ),
        can_go_on(
            watch_peers_next(state, answer),
            |s: StartingWatch, a: Answer| watch_peers_accepts(s, a),
            |s: StartingWatch, now: UnixTime| true,
        ),
{
}

proof fn onward_telling_goes_on(prefix: Seq<char>, rest: Seq<Change>)
    ensures
        can_go_on(
            peer_watch_onward(prefix, rest),
            |s: PeerWatching, a: Answer| peer_watch_accepts(s, a),
            |s: PeerWatching, now: UnixTime| now.wf(),
        ),
    decreases rest.len(),
{
    if rest.len() > 0 && rest.last().kv is None {
        onward_telling_goes_on(prefix, rest.drop_last());
    }
}

/// Telling a listener about the peers never gets stuck.
pub proof fn peer_watch_goes_on(prefix: Seq<char>, state: PeerWatching, answer: Answer)
    requires
        peer_watch_accepts(state, answer),
    ensures
        can_go_on(
            PeerWatchNext::Ask(Call::PollClosed, PeerWatching::Poll(prefix)),
            |s: PeerWatching, a: Answer| peer_watch_accepts(s, a),
            |s: PeerWatching, now: UnixTime| now.wf(),
        ),
        can_go_on(
            peer_watch_next(state, answer),
            |s: PeerWatching, a: Answer| peer_watch_accepts(s, a),
            |s: PeerWatching, now: UnixTime| now.wf(),
        ),
{
    match (state, answer) {
        (PeerWatching::Receive(prefix), Answer::Events(Some(events))) => {
            onward_telling_goes_on(prefix, events.reverse());
        },
        (PeerWatching::Deliver(prefix, rest), _) => {
            onward_telling_goes_on(prefix, rest);
        },
        _ => {},
    }
}

/// Publishing never gets stuck.
pub proof fn publish_goes_on(
    key: Seq<char>,
    ttl: i64,
    routing_key: Option<Seq<char>>,
    payload: Seq<u8>,
    state: Publishing,
    answer: Answer,
)
    requires
        publish_accepts(state, answer),
    ensures
        can_go_on(
            PublishNext::Ask(
                Call::Encode(routing_key, payload),
                Publishing::Encode(key, ttl),
            ),
            |s: Publishing, a: Answer| publish_accepts(s, a),
            |s: Publishing, now: UnixTime| true,
        ),
        can_go_on(
            publish_next(state, answer),
            |s: Publishing, a: Answer| publish_accepts(s, a),
            |s: Publishing, now: UnixTime| true,
        ),
{
}

/// Beginning a subscription never gets stuck.
pub proof fn subscribe_goes_on(prefix: Seq<char>, state: Subscribing, answer: Answer)
    requires
        subscribe_accepts(state, answer),
    ensures
        can_go_on(
            SubscribeNext::Ask(Call::Connect, Subscribing::Connect(prefix)),
            |s: Subscribing, a: Answer| subscribe_accepts(s, a),
            |s: Subscribing, now: UnixTime| true,
        ),
        can_go_on(
            subscribe_next(state, answer),
            |s: Subscribing, a: Answer| subscribe_accepts(s, a),
            |s: Subscribing, now: UnixTime| true,
        ),
{
}

proof fn onward_delivery_goes_on(interest: Interest, rest: Seq<Change>)
    ensures
        can_go_on(
            delivery_onward(interest, rest),
            |s: Delivering, a: Answer| delivery_accepts(s, a),
            |s: Delivering, now: UnixTime| true,
        ),
    decreases rest.len(),
{
    if rest.len() > 0 {
        onward_delivery_goes_on(interest, rest.drop_last());
    }
}

/// Handing messages over never gets stuck.
pub proof fn delivery_goes_on(interest: Interest, state: Delivering, answer: Answer)
    requires
        delivery_accepts(state, answer),
    ensures
        can_go_on(
            DeliveryNext::Ask(Call::PollClosed, Delivering::Poll(interest)),
            |s: Delivering, a: Answer| delivery_accepts(s, a),
            |s: Delivering, now: UnixTime| true,
        ),
        can_go_on(
            delivery_next(state, answer),
            |s: Delivering, a: Answer| delivery_accepts(s, a),
            |s: Delivering, now: UnixTime| true,
        ),
{
    match (state, answer) {
        (Delivering::Receive(interest), Answer::Events(Some(events))) => {
            onward_delivery_goes_on(interest, events.reverse());
        },
        (Delivering::Decode(interest, rest), _) => {
            onward_delivery_goes_on(interest, rest);
        },
        (Delivering::Deliver(interest, rest), _) => {
            onward_delivery_goes_on(interest, rest);
        },
        _ => {},
    }
}

proof fn onward_gathering_goes_on(
    has_ca: bool,
    domain_name: Option<Seq<char>>,
    resolved: Seq<Seq<u8>>,
    rest: Seq<Seq<char>>,
)
    ensures
        can_go_on(
            tls_onward(has_ca, domain_name, resolved, rest),
            |s: Gathering, a: Answer| fits(Kind::Bytes, a),
            |s: Gathering, now: UnixTime| true,
        ),
    decreases rest.len(),
{
    if rest.len() > 0 && is_inline(rest.last()) {
        onward_gathering_goes_on(
            has_ca,
            domain_name,
            resolved.push(encode_utf8(rest.last())),
            rest.drop_last(),
        );
    }
}

/// Gathering the TLS material never gets stuck.
pub proof fn gathering_goes_on(tls: Option<TlsMaterial>, state: Gathering, answer: Answer)
    requires
        fits(Kind::Bytes, answer),
    ensures
        can_go_on(
            tls_first(tls),
            |s: Gathering, a: Answer| fits(Kind::Bytes, a),
            |s: Gathering, now: UnixTime| true,
        ),
        can_go_on(
            tls_next(state, answer),
            |s: Gathering, a: Answer| fits(Kind::Bytes, a),
            |s: Gathering, now: UnixTime| true,
        ),
{
    match tls {
        Some(tls) => {
            onward_gathering_goes_on(
                tls.ca_cert is Some,
                tls.domain_name,
                Seq::empty(),
                pem_values(tls).reverse(),
            );
        },
        None => {},
    }
    match answer {
        Answer::Bytes(bytes) => {
            onward_gathering_goes_on(
                state.has_ca,
                state.domain_name,
                state.resolved.push(bytes),
                state.rest,
            );
        },
        _ => {},
    }
}

/// Connecting never gets stuck.
pub proof fn connect_goes_on(c: Settings, state: Connecting, answer: Answer)
    requires
        connect_accepts(state, answer),
    ensures
        can_go_on(
            connect_first(c),
            |s: Connecting, a: Answer| connect_accepts(s, a),
            |s: Connecting, now: UnixTime| true,
        ),
        can_go_on(
            connect_next(state, answer),
            |s: Connecting, a: Answer| connect_accepts(s, a),
            |s: Connecting, now: UnixTime| true,
        ),
{
    match state {
        Connecting::Gather(inner, _, _) => {
            gathering_goes_on(c.tls, inner, answer);
        },
        Connecting::Open => {
            match tls_first(c.tls) {
                Next::Ask(_, inner) => {
                    gathering_goes_on(c.tls, inner, Answer::Bytes(Seq::empty()));
                },
                Next::Finished(_) => {},
            }
        },
    }
}

} // verus!
