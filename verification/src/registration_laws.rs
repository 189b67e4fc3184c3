//! The coordinator registers nobody: no operation writes a key under the peers
//! prefix. Peers are what others write there.
use vstd::prelude::*;
use vstd::utf8::encode_utf8;

use crate::backend::{connect_accepts, connect_first, connect_next, Connecting};
use crate::config::Settings;
use crate::events::{
    delivery_accepts, delivery_next, delivery_onward, publish_accepts, publish_next,
    subscribe_accepts, subscribe_next, Delivering, Interest, PublishNext, Publishing, Subscribing,
};
use crate::kv::{
    as_listed, claim_accepts, claim_first, claim_next, delete_next, expire_accepts, expire_next,
    expiry, get_accepts, get_next, list_accepts, list_next, list_onward, put_accepts, put_first,
    put_next, Claiming, ExpireNext, Expiring, Found, Getting, ListState, ListedKey, Listing,
    Putting,
};
use crate::lease::{
    acquire_accepts, acquire_first, acquire_next, lock_key_of, release_first, release_next,
    renew_accepts, renew_first, renew_next, try_accepts, try_first, try_next, Acquiring, Lease,
    Releasing, Renewing, Trying,
};
use crate::names::{event_name, keyspaces_are_disjoint, name_in, Keyspace};
use crate::peers::{
    list_peers_accepts, list_peers_next, peer_watch_accepts, peer_watch_next, peer_watch_onward,
    watch_peers_accepts, watch_peers_next, ListingPeers, PeerWatching, StartingWatch,
};
use crate::protocol::{fits, Answer, Call, Change, Kind, Next, Record};
use crate::text::decimal;
use crate::time::TimeSpan;
use crate::tls::{is_inline, pem_values, tls_onward};

verus! {

/// The key that a call asks etcd to write.
pub open spec fn written_key(call: Call) -> Option<Seq<char>> {
    match call {
        Call::Put(key, _, _) => Some(key),
        Call::PutIfAbsent(key, _, _) => Some(key),
        _ => None,
    }
}

/// Whether the key lies under the peers prefix of the namespace `prefix`.
pub open spec fn is_peer_key(prefix: Seq<char>, key: Seq<char>) -> bool {
    name_in(prefix, Keyspace::Peers, Seq::empty()).is_prefix_of(key)
}

/// Whether the call writes a key under the peers prefix.
pub open spec fn registers(prefix: Seq<char>, call: Call) -> bool {
    match written_key(call) {
        Some(key) => is_peer_key(prefix, key),
        None => false,
    }
}

/// Whether an operation that is at `at` registers nobody while it goes on with
/// `answers`, as far as it accepts them.
pub open spec fn keeps_off_peers<S, R>(
    prefix: Seq<char>,
    step: spec_fn(S, Answer) -> Next<S, R>,
    accepts: spec_fn(S, Answer) -> bool,
    at: Next<S, R>,
    answers: Seq<Answer>,
) -> bool
    decreases answers.len(),
{
    match at {
        Next::Finished(_) => true,
        Next::Ask(call, state) => {
            &&& !registers(prefix, call)
            &&& answers.len() > 0 && accepts(state, answers[0]) ==> keeps_off_peers(
                prefix,
                step,
                accepts,
                step(state, answers[0]),
                answers.drop_first(),
            )
        },
    }
}

/// Whether the next call registers nobody and leaves a state that is `safe`.
spec fn is_safe<S, R>(prefix: Seq<char>, at: Next<S, R>, safe: spec_fn(S) -> bool) -> bool {
    match at {
        Next::Finished(_) => true,
        Next::Ask(call, state) => !registers(prefix, call) && safe(state),
    }
}

proof fn safe_steps_keep_off_peers<S, R>(
    prefix: Seq<char>,
    step: spec_fn(S, Answer) -> Next<S, R>,
    accepts: spec_fn(S, Answer) -> bool,
    safe: spec_fn(S) -> bool,
    at: Next<S, R>,
    answers: Seq<Answer>,
)
    requires
        is_safe(prefix, at, safe),
        forall|s: S, a: Answer| safe(s) && accepts(s, a) ==> is_safe(
            prefix,
            #[trigger] step(s, a),
            safe,
        ),
    ensures
        keeps_off_peers(prefix, step, accepts, at, answers),
    decreases answers.len(),
{
    match at {
        Next::Finished(_) => {},
        Next::Ask(_, state) => {
            if answers.len() > 0 && accepts(state, answers[0]) {
                safe_steps_keep_off_peers(
                    prefix,
                    step,
                    accepts,
                    safe,
                    step(state, answers[0]),
                    answers.drop_first(),
                );
            }
        },
    }
}

/// A name in another keyspace does not lie under the peers prefix, whatever is
/// added to it.
pub proof fn other_keyspaces_hold_no_peers(
    prefix: Seq<char>,
    space: Keyspace,
    rest: Seq<char>,
    more: Seq<char>,
)
    requires
        space != Keyspace::Peers,
    ensures
        !is_peer_key(prefix, name_in(prefix, space, rest)),
        !is_peer_key(prefix, name_in(prefix, space, rest) + more),
{
    let peers = name_in(prefix, Keyspace::Peers, Seq::empty());
    let name = name_in(prefix, space, rest);
    let longer = name + more;
    assert(longer =~= name_in(prefix, space, rest + more));
    if is_peer_key(prefix, name) {
        let node = name.skip(peers.len() as int);
        assert(name.take(peers.len() as int) == peers);
        assert(name =~= name.take(peers.len() as int) + node);
        assert(name =~= name_in(prefix, Keyspace::Peers, node));
        keyspaces_are_disjoint(prefix, space, Keyspace::Peers, rest, node);
    }
    if is_peer_key(prefix, longer) {
        let node = longer.skip(peers.len() as int);
        assert(longer.take(peers.len() as int) == peers);
        assert(longer =~= longer.take(peers.len() as int) + node);
        assert(longer =~= name_in(prefix, Keyspace::Peers, node));
        keyspaces_are_disjoint(prefix, space, Keyspace::Peers, rest + more, node);
    }
}

/// Writing a key of the store registers nobody.
pub proof fn put_registers_nobody(
    prefix: Seq<char>,
    key: Seq<char>,
    value: Seq<u8>,
    ttl: Option<TimeSpan>,
    answers: Seq<Answer>,
)
    ensures
        keeps_off_peers(
            prefix,
            |s: Putting, a: Answer| put_next(s, a),
            |s: Putting, a: Answer| put_accepts(s, a),
            put_first(name_in(prefix, Keyspace::Kv, Seq::empty()) + key, value, ttl),
            answers,
        ),
{
    other_keyspaces_hold_no_peers(prefix, Keyspace::Kv, Seq::empty(), key);
    let safe = |s: Putting|
        match s {
            Putting::Grant(key, _) => !is_peer_key(prefix, key),
            Putting::Write => true,
        };
    safe_steps_keep_off_peers(
        prefix,
        |s: Putting, a: Answer| put_next(s, a),
        |s: Putting, a: Answer| put_accepts(s, a),
        safe,
        put_first(name_in(prefix, Keyspace::Kv, Seq::empty()) + key, value, ttl),
        answers,
    );
}

/// Claiming a key of the store registers nobody.
pub proof fn claim_registers_nobody(
    prefix: Seq<char>,
    key: Seq<char>,
    value: Seq<u8>,
    ttl: Option<TimeSpan>,
    answers: Seq<Answer>,
)
    ensures
        keeps_off_peers(
            prefix,
            |s: Claiming, a: Answer| claim_next(s, a),
            |s: Claiming, a: Answer| claim_accepts(s, a),
            claim_first(name_in(prefix, Keyspace::Kv, Seq::empty()) + key, value, ttl),
            answers,
        ),
{
    other_keyspaces_hold_no_peers(prefix, Keyspace::Kv, Seq::empty(), key);
    let safe = |s: Claiming|
        match s {
            Claiming::Grant(key, _) => !is_peer_key(prefix, key),
            _ => true,
        };
    safe_steps_keep_off_peers(
        prefix,
        |s: Claiming, a: Answer| claim_next(s, a),
        |s: Claiming, a: Answer| claim_accepts(s, a),
        safe,
        claim_first(name_in(prefix, Keyspace::Kv, Seq::empty()) + key, value, ttl),
        answers,
    );
}

/// Changing the time to live of a key of the store registers nobody.
pub proof fn expire_registers_nobody(
    prefix: Seq<char>,
    key: Seq<char>,
    ttl: Option<TimeSpan>,
    answers: Seq<Answer>,
)
    ensures
        ({
            let full = name_in(prefix, Keyspace::Kv, Seq::empty()) + key;
            keeps_off_peers(
                prefix,
                |s: Expiring, a: Answer| expire_next(s, a),
                |s: Expiring, a: Answer| expire_accepts(s, a),
                ExpireNext::Ask(Call::Get(full), Expiring::Fetch(full, ttl)),
                answers,
            )
        }),
{
    let full = name_in(prefix, Keyspace::Kv, Seq::empty()) + key;
    other_keyspaces_hold_no_peers(prefix, Keyspace::Kv, Seq::empty(), key);
    let safe = |s: Expiring|
        match s {
            Expiring::Fetch(key, _) => !is_peer_key(prefix, key),
            Expiring::Grant(key, _) => !is_peer_key(prefix, key),
            _ => true,
        };
    safe_steps_keep_off_peers(
        prefix,
        |s: Expiring, a: Answer| expire_next(s, a),
        |s: Expiring, a: Answer| expire_accepts(s, a),
        safe,
        ExpireNext::Ask(Call::Get(full), Expiring::Fetch(full, ttl)),
        answers,
    );
}

/// Whether an attempt is after a key that is no peer's.
spec fn try_is_safe(prefix: Seq<char>, s: Trying) -> bool {
    match s {
        Trying::Grant(key, _) => !is_peer_key(prefix, key),
        _ => true,
    }
}

/// Acquiring the leadership of a role or a lock, by an attempt or by waiting,
/// registers nobody.
pub proof fn leases_register_nobody(
    prefix: Seq<char>,
    space: Keyspace,
    name: Seq<char>,
    ttl: TimeSpan,
    answers: Seq<Answer>,
)
    requires
        space == Keyspace::Leadership || space == Keyspace::Locks,
    ensures
        keeps_off_peers(
            prefix,
            |s: Trying, a: Answer| try_next(s, a),
            |s: Trying, a: Answer| try_accepts(s, a),
            try_first(name_in(prefix, space, name), ttl),
            answers,
        ),
        keeps_off_peers(
            prefix,
            |s: Acquiring, a: Answer| acquire_next(s, a),
            |s: Acquiring, a: Answer| acquire_accepts(s, a),
            acquire_first(name_in(prefix, space, name), ttl),
            answers,
        ),
{
    let full = name_in(prefix, space, name);
    other_keyspaces_hold_no_peers(prefix, space, name, "/lock"@);
    safe_steps_keep_off_peers(
        prefix,
        |s: Trying, a: Answer| try_next(s, a),
        |s: Trying, a: Answer| try_accepts(s, a),
        |s: Trying| try_is_safe(prefix, s),
        try_first(full, ttl),
        answers,
    );
    let safe = |s: Acquiring|
        match s {
            Acquiring::Attempt(inner, name, _, _) => try_is_safe(prefix, inner) && !is_peer_key(
                prefix,
                lock_key_of(name),
            ),
            Acquiring::Backoff(name, _, _) => !is_peer_key(prefix, lock_key_of(name)),
        };
    safe_steps_keep_off_peers(
        prefix,
        |s: Acquiring, a: Answer| acquire_next(s, a),
        |s: Acquiring, a: Answer| acquire_accepts(s, a),
        safe,
        acquire_first(full, ttl),
        answers,
    );
}

/// Publishing registers nobody.
pub proof fn publish_registers_nobody(
    prefix: Seq<char>,
    topic: Seq<char>,
    nanos: nat,
    random: nat,
    ttl: i64,
    routing_key: Option<Seq<char>>,
    payload: Seq<u8>,
    answers: Seq<Answer>,
)
    ensures
        keeps_off_peers(
            prefix,
            |s: Publishing, a: Answer| publish_next(s, a),
            |s: Publishing, a: Answer| publish_accepts(s, a),
            PublishNext::Ask(
                Call::Encode(routing_key, payload),
                Publishing::Encode(event_name(prefix, topic, nanos, random), ttl),
            ),
            answers,
        ),
{
    let key = event_name(prefix, topic, nanos, random);
    let tail = decimal(nanos) + "-"@ + decimal(random);
    other_keyspaces_hold_no_peers(prefix, Keyspace::Events, topic + "/"@, tail);
    assert(key =~= name_in(prefix, Keyspace::Events, topic + "/"@) + tail);
    let safe = |s: Publishing|
        match s {
            Publishing::Encode(key, _) => !is_peer_key(prefix, key),
            Publishing::Connect(key, _, _) => !is_peer_key(prefix, key),
            Publishing::Grant(key, _) => !is_peer_key(prefix, key),
            Publishing::Write => true,
        };
    safe_steps_keep_off_peers(
        prefix,
        |s: Publishing, a: Answer| publish_next(s, a),
        |s: Publishing, a: Answer| publish_accepts(s, a),
        safe,
        PublishNext::Ask(
            Call::Encode(routing_key, payload),
            Publishing::Encode(key, ttl),
        ),
        answers,
    );
}

// ---------------------------------------------------------------------------
// operations that write nothing
// ---------------------------------------------------------------------------

/// Whether an operation that is at `at` asks to write no key.
pub open spec fn writes_nothing<S, R>(at: Next<S, R>) -> bool {
    match at {
        Next::Finished(_) => true,
        Next::Ask(call, _) => written_key(call) is None,
    }
}

/// Reading, listing and removing write no key.
pub proof fn reads_write_nothing(
    getting: Getting,
    listing: ListState,
    answer: Answer,
)
    ensures
        get_accepts(getting, answer) ==> writes_nothing(get_next(getting, answer)),
        list_accepts(listing, answer) ==> writes_nothing(list_next(listing, answer)),
        fits(Kind::Deleted, answer) ==> writes_nothing(delete_next(answer)),
{
    match (listing, answer) {
        (ListState::Fetch(prefix), Answer::KeyValues(kvs)) => {
            onward_listing_writes_nothing(
                Seq::empty(),
                kvs.map_values(|r: Record| as_listed(prefix, r)).reverse(),
            );
        },
        (ListState::Lease(out, rest, key, value), _) => {
            onward_listing_writes_nothing(
                out.push((key, Found { bytes: value, expires_at: None })),
                rest,
            );
        },
        (ListState::Clock(out, rest, key, value, ttl), Answer::Clock(now)) => {
            onward_listing_writes_nothing(
                out.push((key, Found { bytes: value, expires_at: Some(expiry(now, ttl)) })),
                rest,
            );
        },
        _ => {},
    }
}

proof fn onward_listing_writes_nothing(out: Listing, rest: Seq<ListedKey>)
    ensures
        writes_nothing(list_onward(out, rest)),
    decreases rest.len(),
{
    if rest.len() > 0 && rest.last().lease == 0 {
        let top = rest.last();
        onward_listing_writes_nothing(
            out.push((top.key, Found { bytes: top.value, expires_at: None })),
            rest.drop_last(),
        );
    }
}

/// Renewing and giving up a lease write no key.
pub proof fn upkeep_writes_nothing(
    lease: Option<Lease>,
    renewing: Renewing,
    releasing: Releasing,
    answer: Answer,
)
    ensures
        writes_nothing(renew_first(lease)),
        renew_accepts(renewing, answer) ==> writes_nothing(renew_next(renewing, answer)),
        writes_nothing(release_first(lease)),
        writes_nothing(release_next(releasing)),
{
}

/// Listing and watching the peers write no key: the peers are only read.
pub proof fn peers_are_only_read(
    listing: ListingPeers,
    starting: StartingWatch,
    watching: PeerWatching,
    answer: Answer,
)
    ensures
        list_peers_accepts(listing, answer) ==> writes_nothing(list_peers_next(listing, answer)),
        watch_peers_accepts(starting, answer) ==> writes_nothing(
            watch_peers_next(starting, answer),
        ),
        peer_watch_accepts(watching, answer) ==> writes_nothing(
            peer_watch_next(watching, answer),
        ),
{
    match (watching, answer) {
        (PeerWatching::Receive(prefix), Answer::Events(Some(events))) => {
            onward_telling_writes_nothing(prefix, events.reverse());
        },
        (PeerWatching::Deliver(prefix, rest), _) => {
            onward_telling_writes_nothing(prefix, rest);
        },
        _ => {},
    }
}

proof fn onward_telling_writes_nothing(prefix: Seq<char>, rest: Seq<Change>)
    ensures
        writes_nothing(peer_watch_onward(prefix, rest)),
    decreases rest.len(),
{
    if rest.len() > 0 && rest.last().kv is None {
        onward_telling_writes_nothing(prefix, rest.drop_last());
    }
}

/// Subscribing writes no key.
pub proof fn subscriptions_write_nothing(
    subscribing: Subscribing,
    delivering: Delivering,
    answer: Answer,
)
    ensures
        subscribe_accepts(subscribing, answer) ==> writes_nothing(
            subscribe_next(subscribing, answer),
        ),
        delivery_accepts(delivering, answer) ==> writes_nothing(delivery_next(delivering, answer)),
{
    match (delivering, answer) {
        (Delivering::Receive(interest), Answer::Events(Some(events))) => {
            onward_delivery_writes_nothing(interest, events.reverse());
        },
        (Delivering::Decode(interest, rest), _) => {
            onward_delivery_writes_nothing(interest, rest);
        },
        (Delivering::Deliver(interest, rest), _) => {
            onward_delivery_writes_nothing(interest, rest);
        },
        _ => {},
    }
}

proof fn onward_delivery_writes_nothing(interest: Interest, rest: Seq<Change>)
    ensures
        writes_nothing(delivery_onward(interest, rest)),
    decreases rest.len(),
{
    if rest.len() > 0 {
        onward_delivery_writes_nothing(interest, rest.drop_last());
    }
}

/// Connecting writes no key.
pub proof fn connecting_writes_nothing(c: Settings, state: Connecting, answer: Answer)
    ensures
        writes_nothing(connect_first(c)),
        connect_accepts(state, answer) ==> writes_nothing(connect_next(state, answer)),
{
    match c.tls {
        Some(tls) => {
            onward_gathering_writes_nothing(
                tls.ca_cert is Some,
                tls.domain_name,
                Seq::empty(),
                pem_values(tls).reverse(),
            );
        },
        None => {},
    }
    match (state, answer) {
        (Connecting::Gather(inner, _, _), Answer::Bytes(bytes)) => {
            onward_gathering_writes_nothing(
                inner.has_ca,
                inner.domain_name,
                inner.resolved.push(bytes),
                inner.rest,
            );
        },
        _ => {},
    }
}

proof fn onward_gathering_writes_nothing(
    has_ca: bool,
    domain_name: Option<Seq<char>>,
    resolved: Seq<Seq<u8>>,
    rest: Seq<Seq<char>>,
)
    ensures
        writes_nothing(tls_onward(has_ca, domain_name, resolved, rest)),
    decreases rest.len(),
{
    if rest.len() > 0 && is_inline(rest.last()) {
        onward_gathering_writes_nothing(
            has_ca,
            domain_name,
            resolved.push(encode_utf8(rest.last())),
            rest.drop_last(),
        );
    }
}

} // verus!
