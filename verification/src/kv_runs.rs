//! What the operations of the key-value store ask of etcd, and what they make
//! of its answers.
use vstd::prelude::*;

use crate::error::{kv_call_failed, Fault};
use crate::kv::{
    as_listed, claim_accepts, claim_first, claim_next, delete_next, expire_accepts, expire_next,
    get_accepts, get_next, list_accepts, list_first, list_next, list_onward, logical, put_accepts,
    put_first, put_next, Claiming, DeleteNext, ExpireNext, Expiring, Found, GetNext, Getting,
    ListNext, ListState, Listing, Putting,
};
use crate::protocol::{fits, Answer, Call, Kind, Record};
use crate::runs::{run_begins, runs, turn, Turn};
use crate::text::as_text;
use crate::time::{TimeSpan, UnixTime};

verus! {

/// Whether `seconds` are the whole seconds of `ttl`: a part of a second counts
/// as one, and no more are asked for than a signed number holds.
pub open spec fn are_whole_seconds(seconds: i64, ttl: TimeSpan) -> bool {
    &&& ttl.secs == 0 ==> seconds == 1
    &&& 1 <= ttl.secs <= 0x7fff_ffff_ffff_ffff ==> seconds == ttl.secs
    &&& ttl.secs > 0x7fff_ffff_ffff_ffff ==> seconds == 0x7fff_ffff_ffff_ffff
}

/// Whether the answer says that the call was carried out or that it failed.
pub open spec fn is_done_or_failed(answer: Answer) -> bool {
    answer is Done || answer is Failed
}

/// Whether `left` seconds can be added to the clock reading.
pub open spec fn can_be_added(now: UnixTime, left: i64) -> bool {
    now.nanos < 1_000_000_000 && now.secs + left <= 0x7fff_ffff_ffff_ffff
}

/// The clock reading `left` seconds later.
pub open spec fn later(now: UnixTime, left: i64) -> UnixTime {
    UnixTime { secs: (now.secs + left) as i64, nanos: now.nanos }
}

/// A failed call of the store is reported by its name and its detail.
pub proof fn kv_failures_name_the_call(detail: Seq<char>)
    ensures
        kv_call_failed("get"@, detail) == Fault::BackendUnavailable(
            "etcd kv get: "@ + detail,
        ),
        kv_call_failed("put"@, detail) == Fault::BackendUnavailable(
            "etcd kv put: "@ + detail,
        ),
        kv_call_failed("lease_grant"@, detail) == Fault::BackendUnavailable(
            "etcd kv lease_grant: "@ + detail,
        ),
        kv_call_failed("txn"@, detail) == Fault::BackendUnavailable(
            "etcd kv txn: "@ + detail,
        ),
        kv_call_failed("delete"@, detail) == Fault::BackendUnavailable(
            "etcd kv delete: "@ + detail,
        ),
        kv_call_failed("list_prefix"@, detail) == Fault::BackendUnavailable(
            "etcd kv list_prefix: "@ + detail,
        ),
        kv_call_failed("expire get"@, detail) == Fault::BackendUnavailable(
            "etcd kv expire get: "@ + detail,
        ),
        kv_call_failed("expire lease_grant"@, detail) == Fault::BackendUnavailable(
            "etcd kv expire lease_grant: "@ + detail,
        ),
        kv_call_failed("expire put"@, detail) == Fault::BackendUnavailable(
            "etcd kv expire put: "@ + detail,
        ),
{
    reveal_strlit("etcd kv ");
    reveal_strlit(": ");
    reveal_strlit("get");
    reveal_strlit("etcd kv get: ");
    reveal_strlit("put");
    reveal_strlit("etcd kv put: ");
    reveal_strlit("lease_grant");
    reveal_strlit("etcd kv lease_grant: ");
    reveal_strlit("txn");
    reveal_strlit("etcd kv txn: ");
    reveal_strlit("delete");
    reveal_strlit("etcd kv delete: ");
    reveal_strlit("list_prefix");
    reveal_strlit("etcd kv list_prefix: ");
    reveal_strlit("expire get");
    reveal_strlit("etcd kv expire get: ");
    reveal_strlit("expire lease_grant");
    reveal_strlit("etcd kv expire lease_grant: ");
    reveal_strlit("expire put");
    reveal_strlit("etcd kv expire put: ");
    assert("etcd kv "@ + "get"@ + ": "@ + detail =~= "etcd kv get: "@ + detail);
    assert("etcd kv "@ + "put"@ + ": "@ + detail =~= "etcd kv put: "@ + detail);
    assert("etcd kv "@ + "lease_grant"@ + ": "@ + detail =~= "etcd kv lease_grant: "@ + detail);
    assert("etcd kv "@ + "txn"@ + ": "@ + detail =~= "etcd kv txn: "@ + detail);
    assert("etcd kv "@ + "delete"@ + ": "@ + detail =~= "etcd kv delete: "@ + detail);
    assert("etcd kv "@ + "list_prefix"@ + ": "@ + detail =~= "etcd kv list_prefix: "@ + detail);
    assert("etcd kv "@ + "expire get"@ + ": "@ + detail =~= "etcd kv expire get: "@ + detail);
    assert("etcd kv "@ + "expire lease_grant"@ + ": "@ + detail
        =~= "etcd kv expire lease_grant: "@ + detail);
    assert("etcd kv "@ + "expire put"@ + ": "@ + detail =~= "etcd kv expire put: "@ + detail);
}

// ---------------------------------------------------------------------------
// put
// ---------------------------------------------------------------------------

/// Whether a write runs through `turns` to `result`.
pub open spec fn put_runs(
    full: Seq<char>,
    value: Seq<u8>,
    ttl: Option<TimeSpan>,
    turns: Seq<Turn>,
    result: Result<(), Fault>,
) -> bool {
    runs(
        |s: Putting, a: Answer| put_next(s, a),
        |s: Putting, a: Answer| put_accepts(s, a),
        put_first(full, value, ttl),
        turns,
        result,
    )
}

/// A write without a time to live puts the value under its key, without a
/// lease, and does nothing else.
pub proof fn permanent_put_runs(full: Seq<char>, value: Seq<u8>, detail: Seq<char>)
    ensures
        put_runs(full, value, None, seq![turn(Call::Put(full, value, None), Answer::Done)], Ok(())),
        put_runs(
            full,
            value,
            None,
            seq![turn(Call::Put(full, value, None), Answer::Failed(detail))],
            Err(Fault::BackendUnavailable("etcd kv put: "@ + detail)),
        ),
{
    reveal_with_fuel(runs, 4);
    kv_failures_name_the_call(detail);
}

/// A write with a time to live asks for a lease of its whole seconds and puts
/// the value under its key, attached to the lease that was granted.
pub proof fn passing_put_runs(
    full: Seq<char>,
    value: Seq<u8>,
    ttl: TimeSpan,
    seconds: i64,
    lease: i64,
    detail: Seq<char>,
)
    requires
        are_whole_seconds(seconds, ttl),
    ensures
        put_runs(
            full,
            value,
            Some(ttl),
            seq![
                turn(Call::LeaseGrant(seconds), Answer::Granted(lease)),
                turn(Call::Put(full, value, Some(lease)), Answer::Done),
            ],
            Ok(()),
        ),
        put_runs(
            full,
            value,
            Some(ttl),
            seq![turn(Call::LeaseGrant(seconds), Answer::Failed(detail))],
            Err(Fault::BackendUnavailable("etcd kv lease_grant: "@ + detail)),
        ),
        put_runs(
            full,
            value,
            Some(ttl),
            seq![
                turn(Call::LeaseGrant(seconds), Answer::Granted(lease)),
                turn(Call::Put(full, value, Some(lease)), Answer::Failed(detail)),
            ],
            Err(Fault::BackendUnavailable("etcd kv put: "@ + detail)),
        ),
{
    reveal_with_fuel(runs, 4);
    kv_failures_name_the_call(detail);
}

// ---------------------------------------------------------------------------
// get
// ---------------------------------------------------------------------------

/// Whether a read runs through `turns` to `result`.
pub open spec fn get_runs(
    full: Seq<char>,
    turns: Seq<Turn>,
    result: Result<Option<Found>, Fault>,
) -> bool {
    runs(
        |s: Getting, a: Answer| get_next(s, a),
        |s: Getting, a: Answer| get_accepts(s, a),
        GetNext::Ask(Call::Get(full), Getting::Fetch),
        turns,
        result,
    )
}

/// A read of a key that is absent finds nothing; one that fails says so.
pub proof fn get_of_an_absent_key_runs(full: Seq<char>, detail: Seq<char>)
    ensures
        get_runs(
            full,
            seq![turn(Call::Get(full), Answer::KeyValues(Seq::empty()))],
            Ok(None),
        ),
        get_runs(
            full,
            seq![turn(Call::Get(full), Answer::Failed(detail))],
            Err(Fault::BackendUnavailable("etcd kv get: "@ + detail)),
        ),
{
    reveal_with_fuel(runs, 3);
    kv_failures_name_the_call(detail);
}

/// A read of a key yields its value. It expires if and only if the key has a
/// lease whose time to live is answered with more than nothing: then exactly
/// that many seconds after the clock reading that follows.
pub proof fn get_of_a_held_key_runs(
    full: Seq<char>,
    kvs: Seq<Record>,
    left: i64,
    now: UnixTime,
    detail: Seq<char>,
)
    requires
        kvs.len() > 0,
        can_be_added(now, left),
    ensures
        kvs[0].lease == 0 ==> get_runs(
            full,
            seq![turn(Call::Get(full), Answer::KeyValues(kvs))],
            Ok(Some(Found { bytes: kvs[0].value, expires_at: None })),
        ),
        kvs[0].lease != 0 ==> get_runs(
            full,
            seq![
                turn(Call::Get(full), Answer::KeyValues(kvs)),
                turn(Call::LeaseTimeToLive(kvs[0].lease), Answer::Failed(detail)),
            ],
            Ok(Some(Found { bytes: kvs[0].value, expires_at: None })),
        ),
        kvs[0].lease != 0 && left <= 0 ==> get_runs(
            full,
            seq![
                turn(Call::Get(full), Answer::KeyValues(kvs)),
                turn(Call::LeaseTimeToLive(kvs[0].lease), Answer::TimeToLive(left)),
            ],
            Ok(Some(Found { bytes: kvs[0].value, expires_at: None })),
        ),
        kvs[0].lease != 0 && left > 0 ==> get_runs(
            full,
            seq![
                turn(Call::Get(full), Answer::KeyValues(kvs)),
                turn(Call::LeaseTimeToLive(kvs[0].lease), Answer::TimeToLive(left)),
                turn(Call::ReadClock, Answer::Clock(now)),
            ],
            Ok(Some(Found { bytes: kvs[0].value, expires_at: Some(later(now, left)) })),
        ),
{
    reveal_with_fuel(runs, 5);
}

// ---------------------------------------------------------------------------
// put_if_absent
// ---------------------------------------------------------------------------

/// Whether a claim runs through `turns` to `result`.
pub open spec fn claim_runs(
    full: Seq<char>,
    value: Seq<u8>,
    ttl: Option<TimeSpan>,
    turns: Seq<Turn>,
    result: Result<bool, Fault>,
) -> bool {
    runs(
        |s: Claiming, a: Answer| claim_next(s, a),
        |s: Claiming, a: Answer| claim_accepts(s, a),
        claim_first(full, value, ttl),
        turns,
        result,
    )
}

/// A claim without a time to live is one transaction, whose outcome it tells.
pub proof fn permanent_claim_runs(
    full: Seq<char>,
    value: Seq<u8>,
    succeeded: bool,
    detail: Seq<char>,
)
    ensures
        claim_runs(
            full,
            value,
            None,
            seq![turn(Call::PutIfAbsent(full, value, None), Answer::Compared(succeeded))],
            Ok(succeeded),
        ),
        claim_runs(
            full,
            value,
            None,
            seq![turn(Call::PutIfAbsent(full, value, None), Answer::Failed(detail))],
            Err(Fault::BackendUnavailable("etcd kv txn: "@ + detail)),
        ),
{
    reveal_with_fuel(runs, 3);
    kv_failures_name_the_call(detail);
}

/// A claim with a time to live asks for a lease of its whole seconds and makes
/// the transaction with it. A lost claim revokes the lease, and is lost
/// whatever comes of that.
pub proof fn passing_claim_runs(
    full: Seq<char>,
    value: Seq<u8>,
    ttl: TimeSpan,
    seconds: i64,
    lease: i64,
    revoked: Answer,
    detail: Seq<char>,
)
    requires
        are_whole_seconds(seconds, ttl),
        is_done_or_failed(revoked),
    ensures
        claim_runs(
            full,
            value,
            Some(ttl),
            seq![
                turn(Call::LeaseGrant(seconds), Answer::Granted(lease)),
                turn(Call::PutIfAbsent(full, value, Some(lease)), Answer::Compared(true)),
            ],
            Ok(true),
        ),
        claim_runs(
            full,
            value,
            Some(ttl),
            seq![
                turn(Call::LeaseGrant(seconds), Answer::Granted(lease)),
                turn(Call::PutIfAbsent(full, value, Some(lease)), Answer::Compared(false)),
                turn(Call::LeaseRevoke(lease), revoked),
            ],
            Ok(false),
        ),
        claim_runs(
            full,
            value,
            Some(ttl),
            seq![turn(Call::LeaseGrant(seconds), Answer::Failed(detail))],
            Err(Fault::BackendUnavailable("etcd kv lease_grant: "@ + detail)),
        ),
        claim_runs(
            full,
            value,
            Some(ttl),
            seq![
                turn(Call::LeaseGrant(seconds), Answer::Granted(lease)),
                turn(Call::PutIfAbsent(full, value, Some(lease)), Answer::Failed(detail)),
            ],
            Err(Fault::BackendUnavailable("etcd kv txn: "@ + detail)),
        ),
{
    reveal_with_fuel(runs, 5);
    kv_failures_name_the_call(detail);
}

// ---------------------------------------------------------------------------
// delete
// ---------------------------------------------------------------------------

/// A removal tells whether any key was removed.
pub proof fn delete_runs(full: Seq<char>, count: i64, detail: Seq<char>)
    ensures
        runs(
            |s: (), a: Answer| delete_next(a),
            |s: (), a: Answer| fits(Kind::Deleted, a),
            DeleteNext::Ask(Call::Delete(full), ()),
            seq![turn(Call::Delete(full), Answer::Deleted(count))],
            Ok(count > 0),
        ),
        runs(
            |s: (), a: Answer| delete_next(a),
            |s: (), a: Answer| fits(Kind::Deleted, a),
            DeleteNext::Ask(Call::Delete(full), ()),
            seq![turn(Call::Delete(full), Answer::Failed(detail))],
            Err(Fault::BackendUnavailable("etcd kv delete: "@ + detail)),
        ),
{
    reveal_with_fuel(runs, 3);
    kv_failures_name_the_call(detail);
}

// ---------------------------------------------------------------------------
// expire
// ---------------------------------------------------------------------------

/// Whether a change of the time to live runs through `turns` to `result`.
pub open spec fn expire_runs(
    full: Seq<char>,
    ttl: Option<TimeSpan>,
    turns: Seq<Turn>,
    result: Result<bool, Fault>,
) -> bool {
    runs(
        |s: Expiring, a: Answer| expire_next(s, a),
        |s: Expiring, a: Answer| expire_accepts(s, a),
        ExpireNext::Ask(Call::Get(full), Expiring::Fetch(full, ttl)),
        turns,
        result,
    )
}

/// A change of the time to live of an absent key does nothing and says so.
pub proof fn expire_of_an_absent_key_runs(
    full: Seq<char>,
    ttl: Option<TimeSpan>,
    detail: Seq<char>,
)
    ensures
        expire_runs(
            full,
            ttl,
            seq![turn(Call::Get(full), Answer::KeyValues(Seq::empty()))],
            Ok(false),
        ),
        expire_runs(
            full,
            ttl,
            seq![turn(Call::Get(full), Answer::Failed(detail))],
            Err(Fault::BackendUnavailable("etcd kv expire get: "@ + detail)),
        ),
{
    reveal_with_fuel(runs, 3);
    kv_failures_name_the_call(detail);
}

/// A change of the time to live to none puts the value that was read once more,
/// without a lease.
pub proof fn expire_to_none_runs(full: Seq<char>, kvs: Seq<Record>, detail: Seq<char>)
    requires
        kvs.len() > 0,
    ensures
        expire_runs(
            full,
            None,
            seq![
                turn(Call::Get(full), Answer::KeyValues(kvs)),
                turn(Call::Put(full, kvs[0].value, None), Answer::Done),
            ],
            Ok(true),
        ),
        expire_runs(
            full,
            None,
            seq![
                turn(Call::Get(full), Answer::KeyValues(kvs)),
                turn(Call::Put(full, kvs[0].value, None), Answer::Failed(detail)),
            ],
            Err(Fault::BackendUnavailable("etcd kv expire put: "@ + detail)),
        ),
{
    reveal_with_fuel(runs, 4);
    kv_failures_name_the_call(detail);
}

/// A change of the time to live asks for a lease of its whole seconds and puts
/// the value that was read once more, attached to it.
pub proof fn expire_later_runs(
    full: Seq<char>,
    ttl: TimeSpan,
    seconds: i64,
    kvs: Seq<Record>,
    lease: i64,
    detail: Seq<char>,
)
    requires
        kvs.len() > 0,
        are_whole_seconds(seconds, ttl),
    ensures
        expire_runs(
            full,
            Some(ttl),
            seq![
                turn(Call::Get(full), Answer::KeyValues(kvs)),
                turn(Call::LeaseGrant(seconds), Answer::Granted(lease)),
                turn(Call::Put(full, kvs[0].value, Some(lease)), Answer::Done),
            ],
            Ok(true),
        ),
        expire_runs(
            full,
            Some(ttl),
            seq![
                turn(Call::Get(full), Answer::KeyValues(kvs)),
                turn(Call::LeaseGrant(seconds), Answer::Failed(detail)),
            ],
            Err(Fault::BackendUnavailable("etcd kv expire lease_grant: "@ + detail)),
        ),
        expire_runs(
            full,
            Some(ttl),
            seq![
                turn(Call::Get(full), Answer::KeyValues(kvs)),
                turn(Call::LeaseGrant(seconds), Answer::Granted(lease)),
                turn(Call::Put(full, kvs[0].value, Some(lease)), Answer::Failed(detail)),
            ],
            Err(Fault::BackendUnavailable("etcd kv expire put: "@ + detail)),
        ),
{
    reveal_with_fuel(runs, 5);
    kv_failures_name_the_call(detail);
}

// ---------------------------------------------------------------------------
// list_prefix
// ---------------------------------------------------------------------------

/// What is heard of the lease of a listed key.
pub enum Heard {
    /// The question failed.
    Nothing(Seq<char>),
    /// The lease lasts that many seconds yet, and the clock reads so.
    Left(i64, UnixTime),
}

/// Whether what is heard can be added up.
pub open spec fn is_plausible(heard: Heard) -> bool {
    heard matches Heard::Left(left, now) ==> can_be_added(now, left)
}

/// What is asked about one listed key: nothing of a key without a lease; of a
/// lease how long it lasts yet, and then the time, if it lasts.
pub open spec fn turns_for(record: Record, heard: Heard) -> Seq<Turn> {
    if record.lease == 0 {
        Seq::empty()
    } else {
        match heard {
            Heard::Nothing(detail) => seq![
                turn(Call::LeaseTimeToLive(record.lease), Answer::Failed(detail)),
            ],
            Heard::Left(left, now) => if left > 0 {
                seq![
                    turn(Call::LeaseTimeToLive(record.lease), Answer::TimeToLive(left)),
                    turn(Call::ReadClock, Answer::Clock(now)),
                ]
            } else {
                seq![turn(Call::LeaseTimeToLive(record.lease), Answer::TimeToLive(left))]
            },
        }
    }
}

/// What is asked about listed keys, one after the other.
pub open spec fn turns_for_all(kvs: Seq<Record>, heard: Seq<Heard>) -> Seq<Turn>
    decreases kvs.len(),
{
    if kvs.len() == 0 {
        Seq::empty()
    } else {
        turns_for(kvs[0], heard[0]) + turns_for_all(kvs.drop_first(), heard.drop_first())
    }
}

/// Whether `entry` is what is to be said of a listed key: its name without the
/// store's prefix, its value, and when it expires. It expires if and only if it
/// has a lease that lasts yet: exactly that much after the clock reading.
pub open spec fn is_entry_of(
    prefix: Seq<char>,
    record: Record,
    heard: Heard,
    entry: (Seq<char>, Found),
) -> bool {
    let name = as_text(record.key);
    &&& prefix.is_prefix_of(name) ==> entry.0 == name.skip(prefix.len() as int)
    &&& !prefix.is_prefix_of(name) ==> entry.0 == name
    &&& entry.1.bytes == record.value
    &&& match heard {
        Heard::Left(left, now) => if record.lease != 0 && left > 0 {
            entry.1.expires_at == Some(later(now, left))
        } else {
            entry.1.expires_at is None
        },
        Heard::Nothing(_) => entry.1.expires_at is None,
    }
}

/// Whether a listing runs through `turns` to `result`.
pub open spec fn list_runs(
    prefix: Seq<char>,
    under: Seq<char>,
    limit: Option<i64>,
    turns: Seq<Turn>,
    result: Result<Listing, Fault>,
) -> bool {
    runs(
        |s: ListState, a: Answer| list_next(s, a),
        |s: ListState, a: Answer| list_accepts(s, a),
        ListNext::Ask(Call::GetPrefix(prefix + under, limit), ListState::Fetch(prefix)),
        turns,
        result,
    )
}

proof fn the_rest_is_listed(
    prefix: Seq<char>,
    kvs: Seq<Record>,
    heard: Seq<Heard>,
    known: Listing,
    entries: Listing,
)
    requires
        heard.len() == kvs.len(),
        entries.len() == kvs.len(),
        forall|i: int| 0 <= i < heard.len() ==> is_plausible(#[trigger] heard[i]),
        forall|i: int|
            0 <= i < entries.len() ==> is_entry_of(prefix, kvs[i], heard[i], #[trigger] entries[i]),
    ensures
        runs(
            |s: ListState, a: Answer| list_next(s, a),
            |s: ListState, a: Answer| list_accepts(s, a),
            list_onward(known, kvs.map_values(|r: Record| as_listed(prefix, r)).reverse()),
            turns_for_all(kvs, heard),
            Ok(known + entries),
        ),
    decreases kvs.len(),
{
    let step = |s: ListState, a: Answer| list_next(s, a);
    let accepts = |s: ListState, a: Answer| list_accepts(s, a);
    let listed = kvs.map_values(|r: Record| as_listed(prefix, r));
    let rest = listed.reverse();
    if kvs.len() == 0 {
        assert(known + entries =~= known);
    } else {
        let (kv, h, entry) = (kvs[0], heard[0], entries[0]);
        let (kvs1, heard1, entries1) = (
            kvs.drop_first(),
            heard.drop_first(),
            entries.drop_first(),
        );
        let left = kvs1.map_values(|r: Record| as_listed(prefix, r)).reverse();
        assert(is_entry_of(prefix, kvs[0], heard[0], entries[0]));
        assert(is_plausible(heard[0]));
        assert(rest.last() == as_listed(prefix, kv));
        assert(rest.drop_last() =~= left);
        assert(entry == (logical(prefix, as_text(kv.key)), entry.1));
        assert forall|i: int| 0 <= i < heard1.len() implies is_plausible(#[trigger] heard1[i]) by {
            assert(heard1[i] == heard[i + 1]);
        }
        assert forall|i: int| 0 <= i < entries1.len() implies is_entry_of(
            prefix,
            kvs1[i],
            heard1[i],
            #[trigger] entries1[i],
        ) by {
            assert(entries1[i] == entries[i + 1]);
            assert(heard1[i] == heard[i + 1]);
        }
        let more = known.push(entry);
        the_rest_is_listed(prefix, kvs1, heard1, more, entries1);
        assert(more + entries1 =~= known + entries);
        let tail = turns_for_all(kvs1, heard1);
        let name = logical(prefix, as_text(kv.key));
        if kv.lease == 0 {
            assert(turns_for_all(kvs, heard) =~= tail);
        } else {
            let asked = ListState::Lease(known, left, name, kv.value);
            let call = Call::LeaseTimeToLive(kv.lease);
            match h {
                Heard::Nothing(detail) => {
                    assert(step(asked, Answer::Failed(detail)) == list_onward(more, left));
                    run_begins(
                        step,
                        accepts,
                        call,
                        asked,
                        Answer::Failed(detail),
                        tail,
                        Ok(known + entries),
                    );
                },
                Heard::Left(n, now) => if n > 0 {
                    let timed = ListState::Clock(known, left, name, kv.value, n);
                    assert(step(timed, Answer::Clock(now)) == list_onward(more, left));
                    run_begins(
                        step,
                        accepts,
                        Call::ReadClock,
                        timed,
                        Answer::Clock(now),
                        tail,
                        Ok(known + entries),
                    );
                    let clocked = seq![turn(Call::ReadClock, Answer::Clock(now))] + tail;
                    run_begins(
                        step,
                        accepts,
                        call,
                        asked,
                        Answer::TimeToLive(n),
                        clocked,
                        Ok(known + entries),
                    );
                    assert(seq![turn(call, Answer::TimeToLive(n))] + clocked =~= turns_for_all(
                        kvs,
                        heard,
                    ));
                } else {
                    assert(step(asked, Answer::TimeToLive(n)) == list_onward(more, left));
                    run_begins(
                        step,
                        accepts,
                        call,
                        asked,
                        Answer::TimeToLive(n),
                        tail,
                        Ok(known + entries),
                    );
                },
            }
        }
    }
}

proof fn the_rest_is_listed_so(
    prefix: Seq<char>,
    kvs: Seq<Record>,
    known: Listing,
    turns: Seq<Turn>,
    result: Result<Listing, Fault>,
) -> (heard: Seq<Heard>)
    requires
        runs(
            |s: ListState, a: Answer| list_next(s, a),
            |s: ListState, a: Answer| list_accepts(s, a),
            list_onward(known, kvs.map_values(|r: Record| as_listed(prefix, r)).reverse()),
            turns,
            result,
        ),
    ensures
        heard.len() == kvs.len(),
        forall|i: int| 0 <= i < heard.len() ==> is_plausible(#[trigger] heard[i]),
        turns == turns_for_all(kvs, heard),
        result is Ok,
        result->Ok_0.len() == known.len() + kvs.len(),
        result->Ok_0.take(known.len() as int) == known,
        forall|i: int|
            0 <= i < kvs.len() ==> is_entry_of(
                prefix,
                kvs[i],
                heard[i],
                #[trigger] result->Ok_0[known.len() + i],
            ),
    decreases kvs.len(),
{
    let step = |s: ListState, a: Answer| list_next(s, a);
    let accepts = |s: ListState, a: Answer| list_accepts(s, a);
    let rest = kvs.map_values(|r: Record| as_listed(prefix, r)).reverse();
    if kvs.len() == 0 {
        assert(turns =~= Seq::<Turn>::empty());
        assert(known.take(known.len() as int) =~= known);
        Seq::empty()
    } else {
        let kv = kvs[0];
        let kvs1 = kvs.drop_first();
        let left = kvs1.map_values(|r: Record| as_listed(prefix, r)).reverse();
        assert(rest.last() == as_listed(prefix, kv));
        assert(rest.drop_last() =~= left);
        let name = logical(prefix, as_text(kv.key));
        let n = known.len() as int;
        let (h, expires_at, tail) = if kv.lease == 0 {
            (Heard::Nothing(Seq::empty()), None, turns)
        } else {
            let asked = ListState::Lease(known, left, name, kv.value);
            let answer = turns[0].answer;
            let later = turns.drop_first();
            assert(accepts(asked, answer));
            assert(runs(step, accepts, step(asked, answer), later, result));
            match answer {
                Answer::TimeToLive(seconds) => if seconds > 0 {
                    let timed = ListState::Clock(known, left, name, kv.value, seconds);
                    let now = later[0].answer->Clock_0;
                    assert(accepts(timed, later[0].answer));
                    assert(runs(
                        step,
                        accepts,
                        step(timed, later[0].answer),
                        later.drop_first(),
                        result,
                    ));
                    (
                        Heard::Left(seconds, now),
                        Some(self::later(now, seconds)),
                        later.drop_first(),
                    )
                } else {
                    (Heard::Left(seconds, UnixTime { secs: 0, nanos: 0 }), None, later)
                },
                _ => (Heard::Nothing(answer->Failed_0), None, later),
            }
        };
        let entry = (name, Found { bytes: kv.value, expires_at });
        let more = known.push(entry);
        assert(runs(step, accepts, list_onward(more, left), tail, result));
        let heard1 = the_rest_is_listed_so(prefix, kvs1, more, tail, result);
        let heard = seq![h] + heard1;
        assert(heard.drop_first() =~= heard1);
        assert(turns =~= turns_for(kv, h) + tail);
        let all = result->Ok_0;
        assert(all.take(n + 1) == more);
        assert(all.take(n) =~= known) by {
            assert forall|i: int| 0 <= i < n implies all[i] == known[i] by {
                assert(all.take(n + 1)[i] == more[i]);
            }
        }
        assert(all[n] == entry) by {
            assert(all.take(n + 1)[n] == more[n]);
        }
        assert forall|i: int| 0 <= i < kvs.len() implies is_entry_of(
            prefix,
            kvs[i],
            heard[i],
            #[trigger] all[n + i],
        ) by {
            if i > 0 {
                assert(heard[i] == heard1[i - 1]);
                assert(all[n + i] == all[more.len() + (i - 1)]);
                assert(is_entry_of(prefix, kvs1[i - 1], heard1[i - 1], all[more.len() + (i - 1)]));
            }
        }
        heard
    }
}

/// A listing that ends with entries runs as [`listing_runs`] says and in no
/// other way: it has one entry for each key that was read, and an entry expires
/// if and only if its key has a lease whose time to live was answered with more
/// than nothing, exactly that much after the clock reading that followed.
pub proof fn listings_run_in_no_other_way(
    prefix: Seq<char>,
    under: Seq<char>,
    limit: Option<i64>,
    turns: Seq<Turn>,
    entries: Listing,
) -> (heard: Seq<Heard>)
    requires
        list_runs(prefix, under, limit, turns, Ok(entries)),
    ensures
        turns.len() > 0,
        turns[0].call == Call::GetPrefix(prefix + under, limit),
        turns[0].answer is KeyValues,
        heard.len() == entries.len(),
        turns[0].answer->KeyValues_0.len() == entries.len(),
        forall|i: int| 0 <= i < heard.len() ==> is_plausible(#[trigger] heard[i]),
        turns.drop_first() == turns_for_all(turns[0].answer->KeyValues_0, heard),
        forall|i: int|
            0 <= i < entries.len() ==> is_entry_of(
                prefix,
                turns[0].answer->KeyValues_0[i],
                heard[i],
                #[trigger] entries[i],
            ),
{
    let step = |s: ListState, a: Answer| list_next(s, a);
    let accepts = |s: ListState, a: Answer| list_accepts(s, a);
    let fetch = ListState::Fetch(prefix);
    let answer = turns[0].answer;
    assert(accepts(fetch, answer));
    assert(runs(step, accepts, step(fetch, answer), turns.drop_first(), Ok(entries)));
    let kvs = answer->KeyValues_0;
    let none: Listing = Seq::empty();
    let heard = the_rest_is_listed_so(prefix, kvs, none, turns.drop_first(), Ok(entries));
    assert forall|i: int| 0 <= i < entries.len() implies is_entry_of(
        prefix,
        kvs[i],
        heard[i],
        #[trigger] entries[i],
    ) by {
        assert(entries[i] == entries[none.len() + i]);
    }
    heard
}

/// A listing asks for the keys under its prefix and for no more of them than its
/// limit, up to the largest limit that can be asked for.
pub proof fn listings_ask_for_their_limit(
    prefix: Seq<char>,
    under: Seq<char>,
    limit: usize,
    turns: Seq<Turn>,
    result: Result<Listing, Fault>,
)
    requires
        runs(
            |s: ListState, a: Answer| list_next(s, a),
            |s: ListState, a: Answer| list_accepts(s, a),
            list_first(prefix, under, limit),
            turns,
            result,
        ),
    ensures
        turns.len() > 0,
        limit <= 0x7fff_ffff_ffff_ffff ==> turns[0].call == Call::GetPrefix(
            prefix + under,
            Some(limit as i64),
        ) && list_runs(prefix, under, Some(limit as i64), turns, result),
        limit > 0x7fff_ffff_ffff_ffff ==> turns[0].call == Call::GetPrefix(
            prefix + under,
            Some(0x7fff_ffff_ffff_ffff),
        ) && list_runs(prefix, under, Some(0x7fff_ffff_ffff_ffff), turns, result),
{
}

/// A listing reads the keys under its prefix, asks about the lease of each that
/// has one, and yields one entry for each, in order, as [`is_entry_of`] says:
/// an entry expires if and only if its lease lasts yet, exactly that much after
/// the clock reading.
pub proof fn listing_runs(
    prefix: Seq<char>,
    under: Seq<char>,
    limit: Option<i64>,
    kvs: Seq<Record>,
    heard: Seq<Heard>,
    entries: Listing,
    detail: Seq<char>,
)
    requires
        heard.len() == kvs.len(),
        entries.len() == kvs.len(),
        forall|i: int| 0 <= i < heard.len() ==> is_plausible(#[trigger] heard[i]),
        forall|i: int|
            0 <= i < entries.len() ==> is_entry_of(prefix, kvs[i], heard[i], #[trigger] entries[i]),
    ensures
        list_runs(
            prefix,
            under,
            limit,
            seq![turn(Call::GetPrefix(prefix + under, limit), Answer::KeyValues(kvs))]
                + turns_for_all(kvs, heard),
            Ok(entries),
        ),
        list_runs(
            prefix,
            under,
            limit,
            seq![turn(Call::GetPrefix(prefix + under, limit), Answer::Failed(detail))],
            Err(Fault::BackendUnavailable("etcd kv list_prefix: "@ + detail)),
        ),
{
    let step = |s: ListState, a: Answer| list_next(s, a);
    let accepts = |s: ListState, a: Answer| list_accepts(s, a);
    let none: Listing = Seq::empty();
    the_rest_is_listed(prefix, kvs, heard, none, entries);
    assert(none + entries =~= entries);
    let fetch = ListState::Fetch(prefix);
    assert(step(fetch, Answer::KeyValues(kvs)) == list_onward(
        none,
        kvs.map_values(|r: Record| as_listed(prefix, r)).reverse(),
    ));
    run_begins(
        step,
        accepts,
        Call::GetPrefix(prefix + under, limit),
        fetch,
        Answer::KeyValues(kvs),
        turns_for_all(kvs, heard),
        Ok(entries),
    );
    reveal_with_fuel(runs, 3);
    kv_failures_name_the_call(detail);
}

} // verus!
