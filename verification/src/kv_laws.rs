//! What the operations of the key-value store amount to.
use vstd::prelude::*;
use vstd::utf8::encode_utf8;

use crate::kv::{
    as_listed, claim_first, claim_next, delete_next, expire_next, expiry, get_next, lease_seconds,
    list_next, list_onward, logical, logical_undoes_full, put_first, put_next, Claiming,
    DeleteNext, ExpireNext, Expiring, Found, GetNext, Getting, ListNext, ListState, ListedKey,
    Listing, Putting,
};
use crate::protocol::{Answer, Call, Next, Record};
use crate::store::{
    answers, ends_with, is_held_under, outcome, record_of, removed, revoked, undisturbed, Exchange,
    Store,
};
use crate::text::{as_text, encoded_text_is_read_back};
use crate::time::{TimeSpan, UnixTime};

verus! {

/// Whether a write of `value` under `full` succeeds through `trace`.
pub open spec fn puts(
    full: Seq<char>,
    value: Seq<u8>,
    ttl: Option<TimeSpan>,
    trace: Seq<Exchange>,
) -> bool {
    ends_with(
        |s: Putting, a: Answer| put_next(s, a),
        put_first(full, value, ttl),
        trace,
        Ok(()),
    )
}

/// Whether a read of `full` yields `found` through `trace`.
pub open spec fn gets(full: Seq<char>, found: Option<Found>, trace: Seq<Exchange>) -> bool {
    ends_with(
        |s: Getting, a: Answer| get_next(s, a),
        GetNext::Ask(Call::Get(full), Getting::Fetch),
        trace,
        Ok(found),
    )
}

/// Whether a claim of `full` ends with `won` through `trace`.
pub open spec fn claims(
    full: Seq<char>,
    value: Seq<u8>,
    ttl: Option<TimeSpan>,
    won: bool,
    trace: Seq<Exchange>,
) -> bool {
    ends_with(
        |s: Claiming, a: Answer| claim_next(s, a),
        claim_first(full, value, ttl),
        trace,
        Ok(won),
    )
}

/// Whether a removal of `full` ends with `existed` through `trace`.
pub open spec fn deletes(full: Seq<char>, existed: bool, trace: Seq<Exchange>) -> bool {
    ends_with(
        |s: (), a: Answer| delete_next(a),
        DeleteNext::Ask(Call::Delete(full), ()),
        trace,
        Ok(existed),
    )
}

/// Whether a change of the time to live of `full` ends with `existed` through
/// `trace`.
pub open spec fn expires(
    full: Seq<char>,
    ttl: Option<TimeSpan>,
    existed: bool,
    trace: Seq<Exchange>,
) -> bool {
    ends_with(
        |s: Expiring, a: Answer| expire_next(s, a),
        ExpireNext::Ask(Call::Get(full), Expiring::Fetch(full, ttl)),
        trace,
        Ok(existed),
    )
}

/// Whether `s` holds `value` under `full`: attached to a live lease that was
/// asked for as long as `ttl`, or for good.
pub open spec fn holds(s: Store, full: Seq<char>, value: Seq<u8>, ttl: Option<TimeSpan>) -> bool {
    &&& s.keys.contains_key(full)
    &&& s.keys[full].value == value
    &&& match ttl {
        Some(ttl) => {
            let lease = s.keys[full].lease;
            lease != 0 && s.leases.contains_key(lease) && s.leases[lease] == lease_seconds(ttl)
        },
        None => s.keys[full].lease == 0,
    }
}

/// Whether the two stores hold the same but for `full`.
pub open spec fn same_elsewhere(a: Store, b: Store, full: Seq<char>) -> bool {
    a.keys.remove(full) == b.keys.remove(full)
}

/// A write that succeeds leaves the value in the store, under a lease that was
/// asked for its time to live or under none, and changes no other key.
pub proof fn put_stores_the_value(
    start: Store,
    full: Seq<char>,
    value: Seq<u8>,
    ttl: Option<TimeSpan>,
    trace: Seq<Exchange>,
)
    requires
        undisturbed(start, trace),
        puts(full, value, ttl, trace),
    ensures
        holds(outcome(start, trace), full, value, ttl),
        same_elsewhere(start, outcome(start, trace), full),
{
    reveal_with_fuel(ends_with, 4);
    let end = outcome(start, trace);
    if ttl is Some {
        assert(trace.len() == 2);
        assert(trace[1].before == trace[0].after);
    } else {
        assert(trace.len() == 1);
    }
    assert(start.keys.remove(full) =~= end.keys.remove(full));
}

/// When a value that is read expires: where its lease has time left, that
/// much after the clock reading; otherwise it does not say.
pub open spec fn tells_expiry(s: Store, full: Seq<char>, f: Found, trace: Seq<Exchange>) -> bool {
    match f.expires_at {
        Some(at) => {
            let left = trace[1].answer->TimeToLive_0;
            &&& trace.len() == 3
            &&& trace[1].answer is TimeToLive
            &&& trace[2].answer is Clock
            &&& s.keys[full].lease != 0
            &&& s.leases.contains_key(s.keys[full].lease)
            &&& left > 0
            &&& at == expiry(trace[2].answer->Clock_0, left)
        },
        None => s.keys[full].lease == 0 || trace[1].answer is Failed
            || trace[1].answer->TimeToLive_0 <= 0,
    }
}

/// A read yields what the store holds, and when it expires. It changes
/// nothing.
pub proof fn get_reads_the_store(
    start: Store,
    full: Seq<char>,
    found: Option<Found>,
    trace: Seq<Exchange>,
)
    requires
        undisturbed(start, trace),
        gets(full, found, trace),
    ensures
        found is Some <==> start.keys.contains_key(full),
        found matches Some(f) ==> f.bytes == start.keys[full].value && tells_expiry(
            start,
            full,
            f,
            trace,
        ),
        !(trace.last().answer is Failed) ==> outcome(start, trace) == start,
{
    reveal_with_fuel(ends_with, 5);
    if trace.len() > 1 {
        assert(trace[1].before == trace[0].after);
    }
    if trace.len() > 2 {
        assert(trace[2].before == trace[1].after);
    }
}

/// A read after a write yields the value that was written. Where the write
/// had no time to live, the value does not expire; where it had one, it
/// expires as much after the clock reading as etcd says the lease lasts yet.
pub proof fn get_returns_what_put_wrote(
    start: Store,
    full: Seq<char>,
    value: Seq<u8>,
    ttl: Option<TimeSpan>,
    writing: Seq<Exchange>,
    found: Option<Found>,
    reading: Seq<Exchange>,
)
    requires
        undisturbed(start, writing),
        puts(full, value, ttl, writing),
        undisturbed(outcome(start, writing), reading),
        gets(full, found, reading),
    ensures
        found is Some,
        found->0.bytes == value,
        ttl is None ==> found->0.expires_at is None,
        tells_expiry(outcome(start, writing), full, found->0, reading),
{
    put_stores_the_value(start, full, value, ttl, writing);
    get_reads_the_store(outcome(start, writing), full, found, reading);
}

/// A claim is won if and only if the key does not exist. A won claim leaves the
/// value in the store; a lost one leaves every key as it was, and no lease
/// behind.
pub proof fn claim_is_won_on_an_absent_key(
    start: Store,
    full: Seq<char>,
    value: Seq<u8>,
    ttl: Option<TimeSpan>,
    won: bool,
    trace: Seq<Exchange>,
)
    requires
        undisturbed(start, trace),
        claims(full, value, ttl, won, trace),
    ensures
        won == !start.keys.contains_key(full),
        won ==> holds(outcome(start, trace), full, value, ttl),
        won ==> same_elsewhere(start, outcome(start, trace), full),
        !won && !(trace.last().answer is Failed) ==> outcome(start, trace) == start,
{
    reveal_with_fuel(ends_with, 5);
    let end = outcome(start, trace);
    if ttl is Some {
        assert(trace[1].before == trace[0].after);
        if trace.len() > 2 {
            assert(trace.len() == 3);
            assert(trace[2].before == trace[1].after);
            if !(trace[2].answer is Failed) {
                let lease = trace[0].answer->Granted_0;
                assert(end == revoked(trace[1].after, lease));
                assert(end.leases =~= start.leases);
                assert(end.keys =~= start.keys);
            }
        }
    } else {
        assert(trace.len() == 1);
    }
    assert(won ==> start.keys.remove(full) =~= end.keys.remove(full));
}

/// Where the transaction of a claim stands among its exchanges: a claim with a
/// time to live asks for a lease first.
pub open spec fn claim_at(ttl: Option<TimeSpan>) -> int {
    if ttl is Some {
        1
    } else {
        0
    }
}

/// A claim is decided by its transaction alone, whoever else is at work before
/// and after it: it is won if and only if the key does not exist then, and the
/// transaction of a lost claim changes nothing.
pub proof fn claims_are_decided_by_their_transaction(
    full: Seq<char>,
    value: Seq<u8>,
    ttl: Option<TimeSpan>,
    won: bool,
    trace: Seq<Exchange>,
)
    requires
        claims(full, value, ttl, won, trace),
    ensures
        ({
            let at = claim_at(ttl);
            &&& at < trace.len()
            &&& won == !trace[at].before.keys.contains_key(full)
            &&& won ==> trace[at].after.keys.contains_key(full)
            &&& won ==> trace[at].after.keys[full].value == value
            &&& won ==> same_elsewhere(trace[at].before, trace[at].after, full)
            &&& !won ==> trace[at].after == trace[at].before
        }),
{
    reveal_with_fuel(ends_with, 5);
    let e = trace[claim_at(ttl)];
    assert(won ==> e.before.keys.remove(full) =~= e.after.keys.remove(full));
}

/// Of two claims of one key, however their exchanges and those of others
/// interleave, only one is won: where the key that the first claim created is
/// still there at the second one's transaction, the second is lost.
pub proof fn claims_have_a_single_winner(
    full: Seq<char>,
    value: Seq<u8>,
    ttl: Option<TimeSpan>,
    winning: Seq<Exchange>,
    other_value: Seq<u8>,
    other_ttl: Option<TimeSpan>,
    won: bool,
    claiming: Seq<Exchange>,
)
    requires
        claims(full, value, ttl, true, winning),
        claims(full, other_value, other_ttl, won, claiming),
        winning[claim_at(ttl)].after.keys.contains_key(full) ==> claiming[claim_at(
            other_ttl,
        )].before.keys.contains_key(full),
    ensures
        !won,
{
    claims_are_decided_by_their_transaction(full, value, ttl, true, winning);
    claims_are_decided_by_their_transaction(full, other_value, other_ttl, won, claiming);
}

/// A removal says whether the key existed; after it the key does not, and the
/// others are as they were.
pub proof fn delete_removes_the_key(
    start: Store,
    full: Seq<char>,
    existed: bool,
    trace: Seq<Exchange>,
)
    requires
        undisturbed(start, trace),
        deletes(full, existed, trace),
    ensures
        existed == start.keys.contains_key(full),
        outcome(start, trace) == removed(start, full),
{
    reveal_with_fuel(ends_with, 3);
    assert(trace.len() == 1);
}

/// A read after a removal finds nothing.
pub proof fn get_finds_nothing_after_delete(
    start: Store,
    full: Seq<char>,
    existed: bool,
    removing: Seq<Exchange>,
    found: Option<Found>,
    reading: Seq<Exchange>,
)
    requires
        undisturbed(start, removing),
        deletes(full, existed, removing),
        undisturbed(outcome(start, removing), reading),
        gets(full, found, reading),
    ensures
        found is None,
{
    delete_removes_the_key(start, full, existed, removing);
    get_reads_the_store(outcome(start, removing), full, found, reading);
}

/// A change of the time to live keeps the value, and does nothing to a key
/// that does not exist.
pub proof fn expire_keeps_the_value(
    start: Store,
    full: Seq<char>,
    ttl: Option<TimeSpan>,
    existed: bool,
    trace: Seq<Exchange>,
)
    requires
        undisturbed(start, trace),
        expires(full, ttl, existed, trace),
    ensures
        existed == start.keys.contains_key(full),
        existed ==> holds(outcome(start, trace), full, start.keys[full].value, ttl),
        existed ==> same_elsewhere(start, outcome(start, trace), full),
        !existed ==> outcome(start, trace) == start,
{
    reveal_with_fuel(ends_with, 5);
    let end = outcome(start, trace);
    if trace.len() > 1 {
        assert(trace[1].before == trace[0].after);
    }
    if trace.len() > 2 {
        assert(trace[2].before == trace[1].after);
    }
    assert(existed ==> start.keys.remove(full) =~= end.keys.remove(full));
}

/// A value with a time to live is absent once its lease has lapsed, which
/// removes what was attached to it; a read then finds nothing.
pub proof fn expired_is_absent(
    held: Store,
    full: Seq<char>,
    value: Seq<u8>,
    ttl: TimeSpan,
    found: Option<Found>,
    reading: Seq<Exchange>,
)
    requires
        holds(held, full, value, Some(ttl)),
        undisturbed(revoked(held, held.keys[full].lease), reading),
        gets(full, found, reading),
    ensures
        !revoked(held, held.keys[full].lease).keys.contains_key(full),
        found is None,
{
    get_reads_the_store(revoked(held, held.keys[full].lease), full, found, reading);
}

/// A value without a time to live outlasts every lease.
pub proof fn permanent_values_stay(held: Store, full: Seq<char>, value: Seq<u8>, lease: i64)
    requires
        holds(held, full, value, None),
        lease != 0,
    ensures
        holds(revoked(held, lease), full, value, None),
{
}

// ---------------------------------------------------------------------------
// listing
// ---------------------------------------------------------------------------

/// Whether a listing of the keys that begin with `under`, in a store with
/// namespace `prefix`, yields `out` through `trace`.
pub open spec fn lists(
    prefix: Seq<char>,
    under: Seq<char>,
    limit: Option<i64>,
    out: Listing,
    trace: Seq<Exchange>,
) -> bool {
    ends_with(
        |s: ListState, a: Answer| list_next(s, a),
        ListNext::Ask(Call::GetPrefix(prefix + under, limit), ListState::Fetch(prefix)),
        trace,
        Ok(out),
    )
}

/// Keys with their values.
pub open spec fn plain(out: Listing) -> Seq<(Seq<char>, Seq<u8>)> {
    out.map_values(|e: (Seq<char>, Found)| (e.0, e.1.bytes))
}

/// Keys with their values, for keys of which the next one stands last.
pub open spec fn plain_rest(rest: Seq<ListedKey>) -> Seq<(Seq<char>, Seq<u8>)> {
    rest.reverse().map_values(|k: ListedKey| (k.key, k.value))
}

/// The keys and values that a listing which is at `at` will end with.
pub open spec fn promised(at: ListNext) -> Seq<(Seq<char>, Seq<u8>)> {
    match at {
        Next::Finished(Ok(out)) => plain(out),
        Next::Ask(_, ListState::Lease(out, rest, key, value)) => plain(out).push((key, value))
            + plain_rest(rest),
        Next::Ask(_, ListState::Clock(out, rest, key, value, _)) => plain(out).push((key, value))
            + plain_rest(rest),
        _ => Seq::empty(),
    }
}

/// Whether the keys have been read.
pub open spec fn is_past_fetch(at: ListNext) -> bool {
    match at {
        Next::Ask(Call::LeaseTimeToLive(_), ListState::Lease(_, _, _, _)) => true,
        Next::Ask(Call::ReadClock, ListState::Clock(_, _, _, _, _)) => true,
        Next::Finished(Ok(_)) => true,
        _ => false,
    }
}

proof fn onward_keeps_the_promise(out: Listing, rest: Seq<ListedKey>)
    ensures
        promised(list_onward(out, rest)) == plain(out) + plain_rest(rest),
        is_past_fetch(list_onward(out, rest)),
    decreases rest.len(),
{
    if rest.len() == 0 {
        assert(plain(out) + plain_rest(rest) =~= plain(out));
    } else {
        let top = rest.last();
        assert(plain_rest(rest) =~= seq![(top.key, top.value)] + plain_rest(rest.drop_last()));
        if top.lease == 0 {
            let more = out.push((top.key, Found { bytes: top.value, expires_at: None }));
            onward_keeps_the_promise(more, rest.drop_last());
            assert(plain(more) =~= plain(out).push((top.key, top.value)));
        }
        assert(plain(out).push((top.key, top.value)) + plain_rest(rest.drop_last()) =~= plain(out)
            + plain_rest(rest));
    }
}

proof fn later_steps_keep_the_promise(at: ListNext, trace: Seq<Exchange>, out: Listing)
    requires
        is_past_fetch(at),
        ends_with(|s: ListState, a: Answer| list_next(s, a), at, trace, Ok(out)),
    ensures
        plain(out) == promised(at),
    decreases trace.len(),
{
    let step = |s: ListState, a: Answer| list_next(s, a);
    match at {
        Next::Ask(_, state) => {
            let answer = trace[0].answer;
            let then = list_next(state, answer);
            assert(step(state, answer) == then);
            match state {
                ListState::Lease(known, rest, key, value) => {
                    let more = known.push((key, Found { bytes: value, expires_at: None }));
                    onward_keeps_the_promise(more, rest);
                    assert(plain(more) =~= plain(known).push((key, value)));
                },
                ListState::Clock(known, rest, key, value, ttl) => {
                    let now = answer->Clock_0;
                    let more = known.push(
                        (key, Found { bytes: value, expires_at: Some(expiry(now, ttl)) }),
                    );
                    onward_keeps_the_promise(more, rest);
                    assert(plain(more) =~= plain(known).push((key, value)));
                },
                ListState::Fetch(_) => {},
            }
            later_steps_keep_the_promise(then, trace.drop_first(), out);
        },
        Next::Finished(_) => {},
    }
}

proof fn listing_is_what_was_read(
    prefix: Seq<char>,
    under: Seq<char>,
    limit: Option<i64>,
    out: Listing,
    trace: Seq<Exchange>,
)
    requires
        lists(prefix, under, limit, out, trace),
    ensures
        trace.len() > 0,
        trace[0].answer is KeyValues,
        plain(out) == trace[0].answer->KeyValues_0.map_values(
            |r: Record| (logical(prefix, as_text(r.key)), r.value),
        ),
{
    let step = |s: ListState, a: Answer| list_next(s, a);
    let answer = trace[0].answer;
    let then = list_next(ListState::Fetch(prefix), answer);
    assert(step(ListState::Fetch(prefix), answer) == then);
    assert(ends_with(step, then, trace.drop_first(), Ok(out)));
    if answer is Failed {
        assert(false);
    }
    let kvs = answer->KeyValues_0;
    let rest = kvs.map_values(|r: Record| as_listed(prefix, r)).reverse();
    onward_keeps_the_promise(Seq::empty(), rest);
    later_steps_keep_the_promise(then, trace.drop_first(), out);
    assert(plain(Seq::empty()) + plain_rest(rest) =~= kvs.map_values(
        |r: Record| (logical(prefix, as_text(r.key)), r.value),
    ));
}

/// Whether `at` lies some time after a clock reading.
pub open spec fn is_expiry(at: UnixTime) -> bool {
    exists|now: UnixTime, left: i64| left > 0 && at == #[trigger] expiry(now, left)
}

/// Whether a listed value says that it expires only if it is under a lease,
/// and then when.
pub open spec fn expires_by_lease(lease: i64, f: Found) -> bool {
    f.expires_at matches Some(at) ==> lease != 0 && is_expiry(at)
}

/// Whether what is known of the first keys goes by their leases.
spec fn go_by_leases(keys: Seq<ListedKey>, out: Listing) -> bool {
    &&& out.len() <= keys.len()
    &&& forall|i: int|
        0 <= i < out.len() ==> expires_by_lease(keys[i].lease, (#[trigger] out[i]).1)
}

/// Whether a listing of `keys` that is at `at` goes by the leases so far.
spec fn listing_goes_by_leases(keys: Seq<ListedKey>, at: ListNext) -> bool {
    match at {
        Next::Finished(Ok(out)) => go_by_leases(keys, out),
        Next::Ask(_, ListState::Lease(out, rest, _, _)) => {
            &&& go_by_leases(keys, out)
            &&& out.len() < keys.len()
            &&& keys[out.len() as int].lease != 0
            &&& rest == keys.skip(out.len() as int + 1).reverse()
        },
        Next::Ask(Call::ReadClock, ListState::Clock(out, rest, _, _, ttl)) => {
            &&& go_by_leases(keys, out)
            &&& out.len() < keys.len()
            &&& keys[out.len() as int].lease != 0
            &&& rest == keys.skip(out.len() as int + 1).reverse()
            &&& ttl > 0
        },
        _ => false,
    }
}

proof fn onward_goes_by_leases(keys: Seq<ListedKey>, out: Listing)
    requires
        go_by_leases(keys, out),
    ensures
        listing_goes_by_leases(keys, list_onward(out, keys.skip(out.len() as int).reverse())),
    decreases keys.len() - out.len(),
{
    let known = out.len() as int;
    let rest = keys.skip(known).reverse();
    if rest.len() > 0 {
        assert(rest.last() == keys[known]);
        assert(rest.drop_last() =~= keys.skip(known + 1).reverse());
        if rest.last().lease == 0 {
            let more = out.push(
                (rest.last().key, Found { bytes: rest.last().value, expires_at: None }),
            );
            onward_goes_by_leases(keys, more);
        }
    }
}

proof fn later_steps_go_by_leases(
    keys: Seq<ListedKey>,
    at: ListNext,
    trace: Seq<Exchange>,
    out: Listing,
)
    requires
        listing_goes_by_leases(keys, at),
        ends_with(|s: ListState, a: Answer| list_next(s, a), at, trace, Ok(out)),
    ensures
        go_by_leases(keys, out),
    decreases trace.len(),
{
    let step = |s: ListState, a: Answer| list_next(s, a);
    match at {
        Next::Ask(_, state) => {
            let answer = trace[0].answer;
            let then = list_next(state, answer);
            assert(step(state, answer) == then);
            match state {
                ListState::Lease(known, _, key, value) => {
                    onward_goes_by_leases(
                        keys,
                        known.push((key, Found { bytes: value, expires_at: None })),
                    );
                },
                ListState::Clock(known, _, key, value, ttl) => {
                    let end = expiry(answer->Clock_0, ttl);
                    assert(is_expiry(end));
                    onward_goes_by_leases(
                        keys,
                        known.push((key, Found { bytes: value, expires_at: Some(end) })),
                    );
                },
                ListState::Fetch(_) => {},
            }
            later_steps_go_by_leases(keys, then, trace.drop_first(), out);
        },
        Next::Finished(_) => {},
    }
}

proof fn listing_goes_by_what_was_read(
    prefix: Seq<char>,
    under: Seq<char>,
    limit: Option<i64>,
    out: Listing,
    trace: Seq<Exchange>,
)
    requires
        lists(prefix, under, limit, out, trace),
    ensures
        forall|i: int|
            0 <= i < out.len() ==> expires_by_lease(
                trace[0].answer->KeyValues_0[i].lease,
                (#[trigger] out[i]).1,
            ),
{
    let step = |s: ListState, a: Answer| list_next(s, a);
    let answer = trace[0].answer;
    let then = list_next(ListState::Fetch(prefix), answer);
    assert(step(ListState::Fetch(prefix), answer) == then);
    assert(ends_with(step, then, trace.drop_first(), Ok(out)));
    if answer is Failed {
        assert(false);
    }
    let kvs = answer->KeyValues_0;
    let keys = kvs.map_values(|r: Record| as_listed(prefix, r));
    let none: Listing = Seq::empty();
    assert(keys.skip(0) =~= keys);
    onward_goes_by_leases(keys, none);
    later_steps_go_by_leases(keys, then, trace.drop_first(), out);
    assert forall|i: int| 0 <= i < out.len() implies expires_by_lease(
        kvs[i].lease,
        (#[trigger] out[i]).1,
    ) by {
        assert(keys[i].lease == kvs[i].lease);
    }
}

/// A listing yields one entry for each key that was read, in the order read,
/// and none twice: keys that the store holds under the prefix, with their
/// values and under their logical names, and no more of them than the limit.
/// Where the limit does not cut it short, it yields all of them. An entry that
/// expires is under a lease.
pub proof fn list_yields_what_is_held(
    start: Store,
    prefix: Seq<char>,
    under: Seq<char>,
    limit: Option<i64>,
    out: Listing,
    trace: Seq<Exchange>,
)
    requires
        undisturbed(start, trace),
        lists(prefix, under, limit, out, trace),
    ensures
        trace.len() > 0,
        trace[0].answer is KeyValues,
        plain(out) == trace[0].answer->KeyValues_0.map_values(
            |r: Record| (logical(prefix, as_text(r.key)), r.value),
        ),
        forall|i: int, j: int|
            0 <= i < j < out.len() ==> (#[trigger] out[i]).0 != (#[trigger] out[j]).0,
        limit matches Some(most) ==> most > 0 ==> out.len() <= most,
        forall|i: int|
            0 <= i < out.len() ==> {
                &&& start.keys.contains_key(prefix + (#[trigger] out[i]).0)
                &&& under.is_prefix_of(out[i].0)
                &&& start.keys[prefix + out[i].0].value == out[i].1.bytes
                &&& expires_by_lease(start.keys[prefix + out[i].0].lease, out[i].1)
            },
        limit is None || limit->0 <= 0 || out.len() < limit->0 ==> forall|key: Seq<char>|
            #![trigger start.keys.contains_key(prefix + key)]
            start.keys.contains_key(prefix + key) && under.is_prefix_of(key) ==> plain(
                out,
            ).contains((key, start.keys[prefix + key].value)),
{
    listing_is_what_was_read(prefix, under, limit, out, trace);
    listing_goes_by_what_was_read(prefix, under, limit, out, trace);
    let kvs = trace[0].answer->KeyValues_0;
    let full_prefix = prefix + under;
    assert(answers(start, Call::GetPrefix(full_prefix, limit), trace[0].answer, trace[0].after));
    assert(out.len() == plain(out).len());
    assert forall|i: int| 0 <= i < out.len() implies {
        &&& start.keys.contains_key(prefix + (#[trigger] out[i]).0)
        &&& under.is_prefix_of(out[i].0)
        &&& kvs[i] == record_of(prefix + out[i].0, start.keys[prefix + out[i].0])
        &&& start.keys[prefix + out[i].0].value == out[i].1.bytes
        &&& expires_by_lease(start.keys[prefix + out[i].0].lease, out[i].1)
    } by {
        assert(plain(out)[i] == (logical(prefix, as_text(kvs[i].key)), kvs[i].value));
        assert(is_held_under(start, full_prefix, kvs[i]));
        let key = choose|key: Seq<char>|
            #![trigger start.keys[key]]
            start.keys.contains_key(key) && full_prefix.is_prefix_of(key) && kvs[i] == record_of(
                key,
                start.keys[key],
            );
        encoded_text_is_read_back(key);
        let rest = key.skip(prefix.len() as int);
        assert(key.take(full_prefix.len() as int) == full_prefix);
        assert(key =~= prefix + rest) by {
            assert forall|j: int| 0 <= j < prefix.len() implies key[j] == prefix[j] by {
                assert(key.take(full_prefix.len() as int)[j] == full_prefix[j]);
            }
        }
        logical_undoes_full(prefix, rest);
        assert(rest.take(under.len() as int) =~= under) by {
            assert forall|j: int| 0 <= j < under.len() implies rest[j] == under[j] by {
                assert(key.take(full_prefix.len() as int)[prefix.len() + j]
                    == full_prefix[prefix.len() + j]);
            }
        }
    }
    assert forall|i: int, j: int| 0 <= i < j < out.len() implies (#[trigger] out[i]).0 != (
    #[trigger] out[j]).0 by {
        assert(kvs[i].key != kvs[j].key);
        assert(kvs[i].key == encode_utf8(prefix + out[i].0));
        assert(kvs[j].key == encode_utf8(prefix + out[j].0));
    }
    if limit is None || limit->0 <= 0 || out.len() < limit->0 {
        assert forall|key: Seq<char>|
            #![trigger start.keys.contains_key(prefix + key)]
            start.keys.contains_key(prefix + key) && under.is_prefix_of(key) implies plain(
            out,
        ).contains((key, start.keys[prefix + key].value)) by {
            let full = prefix + key;
            assert(full.take(full_prefix.len() as int) =~= full_prefix) by {
                assert(key.take(under.len() as int) == under);
                assert forall|j: int| 0 <= j < full_prefix.len() implies full[j]
                    == full_prefix[j] by {
                    if j >= prefix.len() {
                        assert(key.take(under.len() as int)[j - prefix.len()] == key[j
                            - prefix.len()]);
                    }
                }
            }
            let record = record_of(full, start.keys[full]);
            assert(kvs.contains(record));
            let i = choose|i: int| 0 <= i < kvs.len() && kvs[i] == record;
            encoded_text_is_read_back(full);
            logical_undoes_full(prefix, key);
            assert(plain(out)[i] == (key, start.keys[full].value));
        }
    }
}

} // verus!
