//! What acquiring, renewing and giving up a lease amount to.
use vstd::arithmetic::power2::{lemma2_to64, lemma_pow2_unfold, pow2};
use vstd::prelude::*;

use crate::lease::{
    acquire_first, acquire_next, after_renewal, attempt, grant_seconds, lock_key_of, longer,
    nameless, release_first, release_next, renew_first, renewal_nanos, token, try_first, try_next,
    AcquireNext, Acquiring, Lease, ReleaseNext, Releasing, RenewNext, Renewed, TryNext, Trying,
    FIRST_BACKOFF_MS,
};
use crate::names::{keyspaces_are_disjoint, name_in, Keyspace};
use crate::protocol::{Answer, Call, Next};
use crate::store::{ends_with, outcome, removed, revoked, undisturbed, written, Exchange, Store};
use crate::text::trimmed;
use crate::time::{longest, milliseconds, TimeSpan};

verus! {

/// Whether an attempt to acquire `name` ends with `won` through `trace`.
pub open spec fn tries(
    name: Seq<char>,
    ttl: TimeSpan,
    won: Option<Lease>,
    trace: Seq<Exchange>,
) -> bool {
    ends_with(|s: Trying, a: Answer| try_next(s, a), try_first(name, ttl), trace, Ok(won))
}

/// Whether acquiring `name` succeeds with `lease` through `trace`.
pub open spec fn acquires(
    name: Seq<char>,
    ttl: TimeSpan,
    lease: Lease,
    trace: Seq<Exchange>,
) -> bool {
    ends_with(
        |s: Acquiring, a: Answer| acquire_next(s, a),
        acquire_first(name, ttl),
        trace,
        Ok(lease),
    )
}

/// Whether giving `lease` up ends through `trace`.
pub open spec fn releases(lease: Lease, trace: Seq<Exchange>) -> bool {
    ends_with(|s: Releasing, a: Answer| release_next(s), release_first(Some(lease)), trace, Ok(()))
}

/// Whether the exchange created the key of `lease` for the lease `name`: the
/// key did not exist before, and is attached to the etcd lease after.
pub open spec fn creates(e: Exchange, name: Seq<char>, lease: Lease) -> bool {
    let key = lock_key_of(name);
    &&& lease.lock_key == key
    &&& !lease.released
    &&& !e.before.keys.contains_key(key)
    &&& e.after == written(e.before, key, Seq::empty(), Some(lease.id))
}

/// An attempt wins only by creating the key, whoever else is at work.
pub proof fn try_wins_a_free_lock(
    name: Seq<char>,
    ttl: TimeSpan,
    lease: Lease,
    trace: Seq<Exchange>,
)
    requires
        tries(name, ttl, Some(lease), trace),
    ensures
        trace.len() == 3,
        creates(trace[1], name, lease),
{
    reveal_with_fuel(ends_with, 5);
}

/// Alone with the store, an attempt wins if and only if nobody holds the lock.
/// The winner's key is attached to an etcd lease that was asked for the whole
/// seconds of `ttl`; the loser leaves nothing behind.
pub proof fn try_wins_if_and_only_if_free(
    start: Store,
    name: Seq<char>,
    ttl: TimeSpan,
    won: Option<Lease>,
    trace: Seq<Exchange>,
)
    requires
        undisturbed(start, trace),
        tries(name, ttl, won, trace),
    ensures
        won is Some <==> !start.keys.contains_key(lock_key_of(name)),
        won matches Some(lease) ==> {
            let end = outcome(start, trace);
            &&& end.keys.contains_key(lock_key_of(name))
            &&& end.keys[lock_key_of(name)].lease == lease.id
            &&& end.leases == start.leases.insert(lease.id, grant_seconds(ttl))
            &&& end.keys.remove(lock_key_of(name)) == start.keys
        },
        won is None && !(trace.last().answer is Failed) ==> outcome(start, trace) == start,
{
    reveal_with_fuel(ends_with, 5);
    let key = lock_key_of(name);
    let end = outcome(start, trace);
    assert(trace.len() == 3);
    assert(trace[1].before == trace[0].after);
    assert(trace[2].before == trace[1].after);
    if won is Some {
        assert(end.keys.remove(key) =~= start.keys);
    } else if !(trace[2].answer is Failed) {
        let lease = trace[0].answer->Granted_0;
        assert(end == revoked(trace[1].after, lease));
        assert(end.leases =~= start.leases);
        assert(end.keys =~= start.keys);
    }
}

/// How an attempt that is at `at` may still come to hold the lock `key`.
spec fn under_way(at: TryNext, key: Seq<char>) -> bool {
    match at {
        Next::Ask(Call::LeaseGrant(_), Trying::Grant(k, _)) => k == key,
        Next::Ask(Call::PutIfAbsent(k, value, lease), Trying::Compare(kept, _, id)) => {
            &&& k == key
            &&& kept == key
            &&& value == Seq::<u8>::empty()
            &&& lease == Some(id)
        },
        Next::Ask(Call::LeaseRevoke(_), Trying::Revoke) => true,
        Next::Finished(Ok(None)) => true,
        Next::Finished(Err(_)) => true,
        _ => false,
    }
}

/// The states of an acquisition that has not created the key.
spec fn not_held_yet(at: AcquireNext, name: Seq<char>) -> bool {
    match at {
        Next::Ask(Call::Sleep(_), Acquiring::Backoff(n, _, _)) => n == name,
        Next::Ask(call, Acquiring::Attempt(state, n, _, _)) => n == name && under_way(
            Next::Ask(call, state),
            lock_key_of(name),
        ),
        Next::Finished(Err(_)) => true,
        _ => false,
    }
}

proof fn acquisition_creates_the_key(
    at: AcquireNext,
    name: Seq<char>,
    lease: Lease,
    trace: Seq<Exchange>,
)
    requires
        not_held_yet(at, name),
        ends_with(|s: Acquiring, a: Answer| acquire_next(s, a), at, trace, Ok(lease)),
    ensures
        trace.len() >= 2,
        creates(trace[trace.len() - 2], name, lease),
    decreases trace.len(),
{
    let step = |s: Acquiring, a: Answer| acquire_next(s, a);
    match at {
        Next::Ask(call, state) => {
            let answer = trace[0].answer;
            let then = acquire_next(state, answer);
            let rest = trace.drop_first();
            assert(step(state, answer) == then);
            assert(ends_with(step, then, rest, Ok(lease)));
            if not_held_yet(then, name) {
                acquisition_creates_the_key(then, name, lease, rest);
                assert(trace[trace.len() - 2] == rest[rest.len() - 2]);
            } else {
                assert(state is Attempt);
                let inner = state->Attempt_0;
                assert(inner is Compare);
                assert(then is Ask);
                let last = acquire_next(then->Ask_1, rest[0].answer);
                assert(step(then->Ask_1, rest[0].answer) == last);
                assert(ends_with(step, last, rest.drop_first(), Ok(lease)));
                assert(last is Finished);
                assert(trace.len() == 2);
                assert(creates(trace[0], name, lease));
            }
        },
        Next::Finished(_) => {},
    }
}

/// Waiting for a lock ends only by creating the key, whoever else is at work.
pub proof fn acquire_wins_a_free_lock(
    name: Seq<char>,
    ttl: TimeSpan,
    lease: Lease,
    trace: Seq<Exchange>,
)
    requires
        acquires(name, ttl, lease, trace),
    ensures
        trace.len() >= 2,
        creates(trace[trace.len() - 2], name, lease),
{
    acquisition_creates_the_key(acquire_first(name, ttl), name, lease, trace);
}

/// As long as somebody's key stays, nobody else gets the lock, neither by
/// waiting nor by an attempt: a lease has one holder at a time.
pub proof fn a_held_lock_is_not_taken(
    name: Seq<char>,
    ttl: TimeSpan,
    lease: Lease,
    trace: Seq<Exchange>,
)
    requires
        forall|i: int|
            0 <= i < trace.len() ==> (#[trigger] trace[i]).before.keys.contains_key(
                lock_key_of(name),
            ),
    ensures
        !tries(name, ttl, Some(lease), trace),
        !acquires(name, ttl, lease, trace),
{
    if tries(name, ttl, Some(lease), trace) {
        try_wins_a_free_lock(name, ttl, lease, trace);
        assert(false);
    }
    if acquires(name, ttl, lease, trace) {
        acquire_wins_a_free_lock(name, ttl, lease, trace);
        assert(false);
    }
}

/// Leases of different names are held through different keys; a role and a
/// lock never stand in each other's way.
pub proof fn leases_do_not_collide(
    prefix: Seq<char>,
    name: Seq<char>,
    other: Seq<char>,
    role: Seq<char>,
    lock: Seq<char>,
)
    ensures
        name != other ==> lock_key_of(name) != lock_key_of(other),
        lock_key_of(name_in(prefix, Keyspace::Leadership, role)) != lock_key_of(
            name_in(prefix, Keyspace::Locks, lock),
        ),
{
    assert(lock_key_of(name).take(lock_key_of(name).len() - "/lock"@.len()) =~= name);
    assert(lock_key_of(other).take(lock_key_of(other).len() - "/lock"@.len()) =~= other);
    let leader = name_in(prefix, Keyspace::Leadership, role);
    let locked = name_in(prefix, Keyspace::Locks, lock);
    keyspaces_are_disjoint(prefix, Keyspace::Leadership, Keyspace::Locks, role, lock);
    assert(lock_key_of(leader).take(lock_key_of(leader).len() - "/lock"@.len()) =~= leader);
    assert(lock_key_of(locked).take(lock_key_of(locked).len() - "/lock"@.len()) =~= locked);
}

/// A lease without a name is refused, both ways, without a call.
pub proof fn nameless_leases_are_refused(name: Seq<char>, ttl: TimeSpan)
    requires
        trimmed(name).len() == 0,
    ensures
        try_first(name, ttl) == TryNext::Finished(Err(nameless())),
        acquire_first(name, ttl) == AcquireNext::Finished(Err(nameless())),
{
}

/// Giving a lease up frees its key and ends its etcd lease.
pub proof fn release_frees_the_lock(start: Store, lease: Lease, trace: Seq<Exchange>)
    requires
        !lease.released,
        undisturbed(start, trace),
        releases(lease, trace),
        forall|i: int| 0 <= i < trace.len() ==> !((#[trigger] trace[i]).answer is Failed),
    ensures
        !outcome(start, trace).keys.contains_key(lease.lock_key),
        outcome(start, trace) == revoked(removed(start, lease.lock_key), lease.id),
{
    reveal_with_fuel(ends_with, 5);
    assert(trace.len() == 3);
    assert(!(trace[1].answer is Failed));
    assert(!(trace[2].answer is Failed));
    assert(trace[1].before == trace[0].after);
    assert(trace[2].before == trace[1].after);
}

/// Where the key could not be given up but the etcd lease was revoked, no key
/// is left that was attached to it.
pub proof fn revocation_is_enough(start: Store, lease: Lease, trace: Seq<Exchange>)
    requires
        !lease.released,
        undisturbed(start, trace),
        releases(lease, trace),
        !(trace.last().answer is Failed),
    ensures
        !outcome(start, trace).leases.contains_key(lease.id),
        forall|key: Seq<char>| #[trigger]
            outcome(start, trace).keys.contains_key(key) ==> outcome(start, trace).keys[key].lease
                != lease.id,
{
    reveal_with_fuel(ends_with, 5);
    assert(trace.len() == 3);
}

/// A lock that was given up can be taken again.
pub proof fn a_released_lock_can_be_taken(
    start: Store,
    name: Seq<char>,
    lease: Lease,
    releasing: Seq<Exchange>,
    ttl: TimeSpan,
    won: Option<Lease>,
    trying: Seq<Exchange>,
)
    requires
        !lease.released,
        lease.lock_key == lock_key_of(name),
        undisturbed(start, releasing),
        releases(lease, releasing),
        forall|i: int| 0 <= i < releasing.len() ==> !((#[trigger] releasing[i]).answer is Failed),
        undisturbed(outcome(start, releasing), trying),
        tries(name, ttl, won, trying),
    ensures
        won is Some,
{
    release_frees_the_lock(start, lease, releasing);
    try_wins_if_and_only_if_free(outcome(start, releasing), name, ttl, won, trying);
}

/// Giving a lease up once more does nothing.
pub proof fn release_is_idempotent(lease: Lease)
    ensures
        release_first(Some(Lease { released: true, ..lease })) == ReleaseNext::Finished(Ok(())),
{
}

/// A lease that was given up cannot be renewed, and etcd is not asked.
pub proof fn a_released_lease_is_not_renewed(lease: Lease)
    ensures
        renew_first(Some(Lease { released: true, ..lease })) == RenewNext::Finished(
            Renewed::Lapsed,
        ),
{
}

/// A lease that was found lapsed stays lapsed: later renewals fail and giving
/// it up asks nothing of etcd. No renewal brings a lease back.
pub proof fn a_lapsed_lease_stays_lapsed(lease: Lease, later: Renewed)
    ensures
        after_renewal(lease, Renewed::Lapsed).released,
        lease.released ==> after_renewal(lease, later).released,
        lease.released ==> renew_first(Some(lease)) is Finished,
        lease.released ==> release_first(Some(lease)) is Finished,
{
}

/// A renewal changes neither the key nor the fencing token.
pub proof fn renewal_keeps_the_holder(lease: Lease, renewed: Renewed)
    ensures
        after_renewal(lease, renewed).id == lease.id,
        after_renewal(lease, renewed).lock_key == lease.lock_key,
{
}

/// Different etcd leases have different fencing tokens, which fit an unsigned
/// number; the tokens of the ids that etcd issues, which are positive, are
/// those ids, so that they grow as the ids grow.
pub proof fn fencing_tokens_tell_holders_apart(a: i64, b: i64)
    ensures
        0 <= token(a) <= u64::MAX,
        token(a) == token(b) ==> a == b,
        0 <= a < b ==> token(a) < token(b),
        a >= 0 ==> token(a) == a,
{
}

/// The wait after attempt `n` that was lost, counted from 0, in milliseconds.
pub open spec fn backoff_after(n: nat) -> u64
    decreases n,
{
    if n == 0 {
        FIRST_BACKOFF_MS
    } else {
        longer(backoff_after((n - 1) as nat))
    }
}

/// The waits double from 50 milliseconds up to 2 seconds.
pub proof fn backoff_doubles_up_to_the_longest(n: nat)
    ensures
        backoff_after(n) == if 50 * pow2(n) < 2000 {
            50 * pow2(n)
        } else {
            2000
        },
    decreases n,
{
    lemma2_to64();
    if n > 0 {
        backoff_doubles_up_to_the_longest((n - 1) as nat);
        lemma_pow2_unfold(n);
    }
}

/// A lost attempt is followed by the wait, and the wait by an attempt whose
/// loss is followed by the next longer wait.
pub proof fn attempts_back_off(name: Seq<char>, ttl: TimeSpan, backoff_ms: u64, answer: Answer)
    ensures
        attempt(Next::Finished(Ok(None)), name, ttl, backoff_ms) == AcquireNext::Ask(
            Call::Sleep(milliseconds(backoff_ms)),
            Acquiring::Backoff(name, ttl, backoff_ms),
        ),
        acquire_next(Acquiring::Backoff(name, ttl, backoff_ms), answer) == attempt(
            try_first(name, ttl),
            name,
            ttl,
            longer(backoff_ms),
        ),
{
}

/// A lease is renewed before its time is over, at the configured share of it.
/// For less than 100 nanoseconds there is no such point.
pub proof fn renewal_comes_in_time(ttl: nat, percent_left: u32)
    requires
        100 <= ttl <= longest(),
    ensures
        0 < renewal_nanos(ttl, percent_left) < ttl,
        1 <= percent_left <= 99 && ttl * (100 - percent_left) <= longest() ==> renewal_nanos(
            ttl,
            percent_left,
        ) == ttl * (100 - percent_left) / 100,
{
    let percent = if percent_left < 1 {
        1int
    } else if percent_left > 99 {
        99
    } else {
        percent_left as int
    };
    assert(ttl <= ttl * (100 - percent) <= ttl * 99) by (nonlinear_arith)
        requires
            1 <= percent <= 99,
            ttl >= 0,
    ;
}

/// The share of the time that is left at a renewal is taken between 1 and 99
/// percent.
pub proof fn renewal_shares_are_clamped(ttl: nat, percent_left: u32)
    ensures
        percent_left < 1 ==> renewal_nanos(ttl, percent_left) == renewal_nanos(ttl, 1),
        percent_left > 99 ==> renewal_nanos(ttl, percent_left) == renewal_nanos(ttl, 99),
{
}

/// A lease of whole seconds, or of less than one, is renewed before the seconds
/// that etcd was asked for are over.
pub proof fn renewal_comes_within_the_asked_seconds(ttl: TimeSpan, percent_left: u32)
    requires
        ttl.wf(),
        100 <= ttl.length(),
        ttl.nanos == 0 || ttl.secs == 0,
        ttl.secs <= i64::MAX,
    ensures
        renewal_nanos(ttl.length(), percent_left) < grant_seconds(ttl) * 1_000_000_000,
{
    renewal_comes_in_time(ttl.length(), percent_left);
}

} // verus!
