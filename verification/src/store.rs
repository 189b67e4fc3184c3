//! A model of etcd, over which the laws of the operations are stated.
//!
//! The model says what etcd holds and how it answers a call. An operation is
//! seen as a sequence of exchanges with it.
use vstd::prelude::*;
use vstd::utf8::*;

use crate::protocol::{answer_kind, fits, Answer, Call, Next, Record};

verus! {

/// What etcd holds of one key.
pub struct Held {
    pub value: Seq<u8>,
    /// The attached lease; 0 stands for none.
    pub lease: i64,
    /// How often the key was written since it was created.
    pub version: i64,
}

/// What etcd holds: keys, and live leases with the seconds that they were asked
/// for. How long a lease does live is etcd's choice.
pub struct Store {
    pub keys: Map<Seq<char>, Held>,
    pub leases: Map<i64, i64>,
}

/// A held key as etcd returns it.
pub open spec fn record_of(key: Seq<char>, held: Held) -> Record {
    Record { key: encode_utf8(key), value: held.value, lease: held.lease, version: held.version }
}

/// The store with `key` written once more. Without a lease the key is
/// detached from the one it had.
pub open spec fn written(s: Store, key: Seq<char>, value: Seq<u8>, lease: Option<i64>) -> Store {
    let version = if s.keys.contains_key(key) {
        s.keys[key].version + 1
    } else {
        1
    };
    Store {
        keys: s.keys.insert(
            key,
            Held {
                value,
                lease: match lease {
                    Some(id) => id,
                    None => 0,
                },
                version: version as i64,
            },
        ),
        leases: s.leases,
    }
}

/// Whether a write may carry the lease.
pub open spec fn attachable(s: Store, lease: Option<i64>) -> bool {
    lease matches Some(id) ==> s.leases.contains_key(id)
}

/// The store with a lease gone, and with it the keys that were attached to it.
pub open spec fn revoked(s: Store, lease: i64) -> Store {
    Store {
        keys: s.keys.restrict(
            s.keys.dom().filter(|key: Seq<char>| s.keys[key].lease != lease),
        ),
        leases: s.leases.remove(lease),
    }
}

/// The store with a key gone.
pub open spec fn removed(s: Store, key: Seq<char>) -> Store {
    Store { keys: s.keys.remove(key), leases: s.leases }
}

/// Whether `record` is a held key that begins with `prefix`.
pub open spec fn is_held_under(s: Store, prefix: Seq<char>, record: Record) -> bool {
    exists|key: Seq<char>|
        #![trigger s.keys[key]]
        s.keys.contains_key(key) && prefix.is_prefix_of(key) && record == record_of(
            key,
            s.keys[key],
        )
}

/// Whether the call is not about what etcd holds.
pub open spec fn is_aside(call: Call) -> bool {
    match call {
        Call::ReadClock => true,
        Call::ReadFile(_) => true,
        Call::Connect => true,
        Call::Open(_, _, _) => true,
        Call::Encode(_, _) => true,
        Call::Decode(_) => true,
        Call::StartWatch(_) => true,
        Call::PollClosed => true,
        Call::DeliverPeerEvent(_) => true,
        Call::DeliverMessage(_) => true,
        Call::CancelWatch => true,
        Call::StopRenewal => true,
        _ => false,
    }
}

/// Whether `call` may be answered with `answer` while the store goes from
/// `before` to `after`. Of a failed call to etcd nothing is known: it may have
/// been carried out. While an operation waits, the store may change.
pub open spec fn answers(before: Store, call: Call, answer: Answer, after: Store) -> bool {
    if is_aside(call) {
        fits(answer_kind(call), answer) && after == before
    } else {
        fits(answer_kind(call), answer) && etcd_answers(before, call, answer, after)
    }
}

/// How etcd answers.
pub open spec fn etcd_answers(before: Store, call: Call, answer: Answer, after: Store) -> bool {
    match (call, answer) {
        (_, Answer::Failed(_)) => true,
        (Call::Get(key), Answer::KeyValues(kvs)) => {
            &&& after == before
            &&& kvs == if before.keys.contains_key(key) {
                seq![record_of(key, before.keys[key])]
            } else {
                Seq::empty()
            }
        },
        (Call::GetPrefix(prefix, limit), Answer::KeyValues(kvs)) => {
            &&& after == before
            &&& limit matches Some(most) ==> most > 0 ==> kvs.len() <= most
            &&& forall|i: int|
                0 <= i < kvs.len() ==> is_held_under(before, prefix, #[trigger] kvs[i])
            &&& forall|i: int, j: int|
                0 <= i < j < kvs.len() ==> (#[trigger] kvs[i]).key != (#[trigger] kvs[j]).key
            &&& (limit is None || limit->0 <= 0 || kvs.len() < limit->0) ==> forall|key: Seq<char>|
                before.keys.contains_key(key) && prefix.is_prefix_of(key) ==> kvs.contains(
                    record_of(key, #[trigger] before.keys[key]),
                )
        },
        (Call::Put(key, value, lease), Answer::Done) => {
            &&& attachable(before, lease)
            &&& after == written(before, key, value, lease)
        },
        (Call::Delete(key), Answer::Deleted(count)) => {
            &&& after == removed(before, key)
            &&& count == if before.keys.contains_key(key) {
                1
            } else {
                0i64
            }
        },
        (Call::PutIfAbsent(key, value, lease), Answer::Compared(succeeded)) => {
            &&& succeeded == !before.keys.contains_key(key)
            &&& if succeeded {
                attachable(before, lease) && after == written(before, key, value, lease)
            } else {
                after == before
            }
        },
        (Call::LeaseGrant(ttl), Answer::Granted(lease)) => {
            &&& lease != 0
            &&& !before.leases.contains_key(lease)
            &&& forall|key: Seq<char>|
                before.keys.contains_key(key) ==> (#[trigger] before.keys[key]).lease != lease
            &&& after == (Store { keys: before.keys, leases: before.leases.insert(lease, ttl) })
        },
        (Call::LeaseRevoke(lease), Answer::Done) => after == revoked(before, lease),
        (Call::LeaseTimeToLive(lease), Answer::TimeToLive(ttl)) => {
            &&& after == before
            &&& ttl > 0 ==> before.leases.contains_key(lease)
        },
        (Call::LeaseKeepAlive(_), Answer::Done) => after == before,
        (Call::SendHeartbeat, Answer::Done) => after == before,
        (Call::ReadHeartbeat, Answer::Heartbeat(_)) => after == before,
        (Call::Unlock(key), Answer::Done) => after == removed(before, key),
        (Call::Sleep(_), Answer::Done) => true,
        (Call::ReceiveEvents, Answer::Events(_)) => true,
        _ => false,
    }
}

/// One call's answer, and the store around it.
pub struct Exchange {
    pub before: Store,
    pub answer: Answer,
    pub after: Store,
}

/// Whether an operation that is at `at` ends with `result` through the
/// exchanges `trace`. Other clients may change the store in between.
pub open spec fn ends_with<S, R>(
    step: spec_fn(S, Answer) -> Next<S, R>,
    at: Next<S, R>,
    trace: Seq<Exchange>,
    result: R,
) -> bool
    decreases trace.len(),
{
    match at {
        Next::Finished(r) => trace.len() == 0 && r == result,
        Next::Ask(call, state) => {
            &&& trace.len() > 0
            &&& answers(trace[0].before, call, trace[0].answer, trace[0].after)
            &&& ends_with(step, step(state, trace[0].answer), trace.drop_first(), result)
        },
    }
}

/// Whether nobody else changes the store during `trace`, which begins at
/// `start`.
pub open spec fn undisturbed(start: Store, trace: Seq<Exchange>) -> bool {
    &&& trace.len() > 0 ==> trace[0].before == start
    &&& forall|i: int, j: int|
        0 <= i && j == i + 1 && j < trace.len() ==> (#[trigger] trace[j]).before == (
        #[trigger] trace[i]).after
}

/// The store after `trace`, which begins at `start`.
pub open spec fn outcome(start: Store, trace: Seq<Exchange>) -> Store {
    if trace.len() == 0 {
        start
    } else {
        trace.last().after
    }
}

} // verus!
