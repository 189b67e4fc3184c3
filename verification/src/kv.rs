//! The durable key-value store on top of etcd.
//!
//! Each method of [`EtcdKv`] begins an operation. A key with a time to live is
//! written under a fresh lease, so that etcd removes it when the lease lapses;
//! a write without one leaves the key permanent.
use vstd::pervasive::unreached;
use vstd::prelude::*;
use vstd::string::*;

use crate::error::{kv_call_failed, unavailable, ClusterError, Fault};
use crate::protocol::{
    fits, records, Answer, Call, Kind, KeyValue, Next, Outcome, Record, Reply, Request, Step,
};
use crate::text::{as_text, concat2, from_utf8_lossy, strip_prefix};
use crate::time::{TimeSpan, UnixTime, NANOS_PER_SEC};

verus! {

/// A stored value.
#[derive(Debug)]
pub struct Entry {
    pub bytes: Vec<u8>,
    /// When the value expires; `None` for one that does not.
    pub expires_at: Option<UnixTime>,
}

/// The content of an [`Entry`].
pub struct Found {
    pub bytes: Seq<u8>,
    pub expires_at: Option<UnixTime>,
}

impl Outcome for Entry {
    type Content = Found;

    open spec fn content(&self) -> Found {
        Found { bytes: self.bytes@, expires_at: self.expires_at }
    }
}

/// The key-value store of one deployment.
#[derive(Debug)]
pub struct EtcdKv {
    key_prefix: String,
}

impl View for EtcdKv {
    type V = Seq<char>;

    /// The namespace of the store.
    closed spec fn view(&self) -> Seq<char> {
        self.key_prefix@
    }
}

/// The logical key for the full key `full` of a store with namespace `prefix`.
pub open spec fn logical(prefix: Seq<char>, full: Seq<char>) -> Seq<char> {
    if prefix.is_prefix_of(full) {
        full.skip(prefix.len() as int)
    } else {
        full
    }
}

/// The whole seconds of a lease for a time to live: at least one, and at most
/// what etcd can hold.
pub open spec fn lease_seconds(ttl: TimeSpan) -> i64 {
    if ttl.secs == 0 {
        1
    } else if ttl.secs > i64::MAX {
        i64::MAX
    } else {
        ttl.secs as i64
    }
}

/// Converts a time to live into the seconds of an etcd lease. Less than a
/// second becomes one second, so that it does not collapse to none.
pub fn lease_secs(ttl: TimeSpan) -> (r: i64)
    ensures
        r == lease_seconds(ttl),
{
    if ttl.secs == 0 {
        1
    } else if ttl.secs > i64::MAX as u64 {
        i64::MAX
    } else {
        ttl.secs as i64
    }
}

/// The point in time `ttl` seconds after `now`.
pub open spec fn expiry(now: UnixTime, ttl: i64) -> UnixTime {
    UnixTime { secs: (now.secs + ttl) as i64, nanos: now.nanos }
}

/// Whether [`expiry`] can be represented.
pub open spec fn expiry_in_range(now: UnixTime, ttl: i64) -> bool {
    &&& now.nanos < NANOS_PER_SEC
    &&& now.secs + ttl <= i64::MAX
}

/// Whether the reply is a clock reading to which `ttl` seconds can be added.
pub open spec fn clock_fits(answer: Answer, ttl: i64) -> bool {
    match answer {
        Answer::Clock(now) => ttl > 0 && expiry_in_range(now, ttl),
        _ => false,
    }
}

fn is_clock_for(reply: &Reply, ttl: i64) -> (r: bool)
    ensures
        r == clock_fits(reply@, ttl),
{
    match reply {
        Reply::Clock { now } => ttl > 0 && now.nanos < NANOS_PER_SEC && now.secs <= i64::MAX - ttl,
        _ => false,
    }
}

// ---------------------------------------------------------------------------
// get
// ---------------------------------------------------------------------------

/// Reading one key.
#[derive(Debug)]
pub enum GetOp {
    /// Waits for the key.
    Fetch,
    /// Waits for the time that the key's lease lasts yet.
    Lease { value: Vec<u8> },
    /// Waits for the time of day.
    Clock { value: Vec<u8>, ttl: i64 },
}

/// The content of a [`GetOp`].
pub enum Getting {
    Fetch,
    Lease(Seq<u8>),
    Clock(Seq<u8>, i64),
}

impl View for GetOp {
    type V = Getting;

    open spec fn view(&self) -> Getting {
        match self {
            GetOp::Fetch => Getting::Fetch,
            GetOp::Lease { value } => Getting::Lease(value@),
            GetOp::Clock { value, ttl } => Getting::Clock(value@, *ttl),
        }
    }
}

/// What [`GetOp`] results in.
pub type GetNext = Next<Getting, Result<Option<Found>, Fault>>;

/// The replies that a read can go on with.
pub open spec fn get_accepts(state: Getting, answer: Answer) -> bool {
    match state {
        Getting::Fetch => fits(Kind::KeyValues, answer),
        Getting::Lease(_) => fits(Kind::TimeToLive, answer),
        Getting::Clock(_, ttl) => clock_fits(answer, ttl),
    }
}

/// A value that does or does not expire.
pub open spec fn found(bytes: Seq<u8>, expires_at: Option<UnixTime>) -> GetNext {
    Next::Finished(Ok(Some(Found { bytes, expires_at })))
}

/// How a read goes on.
pub open spec fn get_next(state: Getting, answer: Answer) -> GetNext {
    match (state, answer) {
        (Getting::Fetch, Answer::Failed(detail)) => Next::Finished(
            Err(kv_call_failed("get"@, detail)),
        ),
        (Getting::Fetch, Answer::KeyValues(kvs)) => if kvs.len() == 0 {
            Next::Finished(Ok(None))
        } else if kvs[0].lease == 0 {
            found(kvs[0].value, None)
        } else {
            Next::Ask(Call::LeaseTimeToLive(kvs[0].lease), Getting::Lease(kvs[0].value))
        },
        (Getting::Lease(value), Answer::TimeToLive(ttl)) => if ttl > 0 {
            Next::Ask(Call::ReadClock, Getting::Clock(value, ttl))
        } else {
            found(value, None)
        },
        (Getting::Lease(value), _) => found(value, None),
        (Getting::Clock(value, ttl), Answer::Clock(now)) => found(value, Some(expiry(now, ttl))),
        _ => arbitrary(),
    }
}

impl GetOp {
    /// Whether the operation can go on with `reply`.
    pub fn accepts(&self, reply: &Reply) -> (r: bool)
        ensures
            r == get_accepts(self@, reply@),
    {
        match self {
            GetOp::Fetch => reply.is_for(Kind::KeyValues),
            GetOp::Lease { .. } => reply.is_for(Kind::TimeToLive),
            GetOp::Clock { ttl, .. } => is_clock_for(reply, *ttl),
        }
    }

    /// Goes on with the reply to the call that was asked for.
    pub fn step(self, reply: Reply) -> (r: Step<GetOp, Result<Option<Entry>, ClusterError>>)
        requires
            get_accepts(self@, reply@),
        ensures
            r@ == get_next(self@, reply@),
    {
        match self {
            GetOp::Fetch => match reply {
                Reply::Failed { detail } => Step::Finished {
                    result: Err(unavailable("get", detail.as_str())),
                },
                Reply::KeyValues { kvs } => {
                    let mut kvs = kvs;
                    let ghost all = kvs@;
                    if kvs.is_empty() {
                        return Step::Finished { result: Ok(None) };
                    }
                    let kv: KeyValue = kvs.swap_remove(0);
                    assert(kv == all[0]);
                    assert(records(all)[0] == kv@);
                    if kv.lease == 0 {
                        Step::Finished {
                            result: Ok(Some(Entry { bytes: kv.value, expires_at: None })),
                        }
                    } else {
                        Step::Ask {
                            request: Request::LeaseTimeToLive { lease: kv.lease },
                            state: GetOp::Lease { value: kv.value },
                        }
                    }
                },
                _ => unreached(),
            },
            GetOp::Lease { value } => match reply {
                Reply::TimeToLive { ttl } => if ttl > 0 {
                    Step::Ask { request: Request::ReadClock, state: GetOp::Clock { value, ttl } }
                } else {
                    Step::Finished { result: Ok(Some(Entry { bytes: value, expires_at: None })) }
                },
                _ => Step::Finished { result: Ok(Some(Entry { bytes: value, expires_at: None })) },
            },
            GetOp::Clock { value, ttl } => match reply {
                Reply::Clock { now } => Step::Finished {
                    result: Ok(
                        Some(
                            Entry {
                                bytes: value,
                                expires_at: Some(
                                    UnixTime { secs: now.secs + ttl, nanos: now.nanos },
                                ),
                            },
                        ),
                    ),
                },
                _ => unreached(),
            },
        }
    }
}

// ---------------------------------------------------------------------------
// put
// ---------------------------------------------------------------------------

/// Writing one key.
#[derive(Debug)]
pub enum PutOp {
    /// Waits for the lease to write under.
    Grant { key: String, value: Vec<u8> },
    /// Waits for the write.
    Write,
}

/// The content of a [`PutOp`].
pub enum Putting {
    Grant(Seq<char>, Seq<u8>),
    Write,
}

impl View for PutOp {
    type V = Putting;

    open spec fn view(&self) -> Putting {
        match self {
            PutOp::Grant { key, value } => Putting::Grant(key@, value@),
            PutOp::Write => Putting::Write,
        }
    }
}

/// What [`PutOp`] results in.
pub type PutNext = Next<Putting, Result<(), Fault>>;

/// How a write begins: with a lease where the value has a time to live.
pub open spec fn put_first(full: Seq<char>, value: Seq<u8>, ttl: Option<TimeSpan>) -> PutNext {
    match ttl {
        Some(ttl) => Next::Ask(
            Call::LeaseGrant(lease_seconds(ttl)),
            Putting::Grant(full, value),
        ),
        None => Next::Ask(Call::Put(full, value, None), Putting::Write),
    }
}

/// The replies that a write can go on with.
pub open spec fn put_accepts(state: Putting, answer: Answer) -> bool {
    match state {
        Putting::Grant(_, _) => fits(Kind::Granted, answer),
        Putting::Write => fits(Kind::Done, answer),
    }
}

/// How a write goes on.
pub open spec fn put_next(state: Putting, answer: Answer) -> PutNext {
    match (state, answer) {
        (Putting::Grant(_, _), Answer::Failed(detail)) => Next::Finished(
            Err(kv_call_failed("lease_grant"@, detail)),
        ),
        (Putting::Grant(key, value), Answer::Granted(lease)) => Next::Ask(
            Call::Put(key, value, Some(lease)),
            Putting::Write,
        ),
        (Putting::Write, Answer::Failed(detail)) => Next::Finished(
            Err(kv_call_failed("put"@, detail)),
        ),
        (Putting::Write, Answer::Done) => Next::Finished(Ok(())),
        _ => arbitrary(),
    }
}

impl PutOp {
    /// Whether the operation can go on with `reply`.
    pub fn accepts(&self, reply: &Reply) -> (r: bool)
        ensures
            r == put_accepts(self@, reply@),
    {
        match self {
            PutOp::Grant { .. } => reply.is_for(Kind::Granted),
            PutOp::Write => reply.is_for(Kind::Done),
        }
    }

    /// Goes on with the reply to the call that was asked for.
    pub fn step(self, reply: Reply) -> (r: Step<PutOp, Result<(), ClusterError>>)
        requires
            put_accepts(self@, reply@),
        ensures
            r@ == put_next(self@, reply@),
    {
        match self {
            PutOp::Grant { key, value } => match reply {
                Reply::Failed { detail } => Step::Finished {
                    result: Err(unavailable("lease_grant", detail.as_str())),
                },
                Reply::Granted { lease } => Step::Ask {
                    request: Request::Put { key, value, lease: Some(lease) },
                    state: PutOp::Write,
                },
                _ => unreached(),
            },
            PutOp::Write => match reply {
                Reply::Failed { detail } => Step::Finished {
                    result: Err(unavailable("put", detail.as_str())),
                },
                Reply::Done => Step::Finished { result: Ok(()) },
                _ => unreached(),
            },
        }
    }
}

// ---------------------------------------------------------------------------
// put_if_absent
// ---------------------------------------------------------------------------

/// Claiming a key that does not exist. The lease is granted before the
/// transaction, so that the claim can carry it; it is revoked when the claim
/// is lost.
#[derive(Debug)]
pub enum PutIfAbsentOp {
    /// Waits for the lease to claim under.
    Grant { key: String, value: Vec<u8> },
    /// Waits for the transaction.
    Compare { lease: Option<i64> },
    /// Waits for the unused lease to be revoked.
    Revoke,
}

/// The content of a [`PutIfAbsentOp`].
pub enum Claiming {
    Grant(Seq<char>, Seq<u8>),
    Compare(Option<i64>),
    Revoke,
}

impl View for PutIfAbsentOp {
    type V = Claiming;

    open spec fn view(&self) -> Claiming {
        match self {
            PutIfAbsentOp::Grant { key, value } => Claiming::Grant(key@, value@),
            PutIfAbsentOp::Compare { lease } => Claiming::Compare(*lease),
            PutIfAbsentOp::Revoke => Claiming::Revoke,
        }
    }
}

/// What [`PutIfAbsentOp`] results in: whether the claim was won.
pub type ClaimNext = Next<Claiming, Result<bool, Fault>>;

/// How a claim begins.
pub open spec fn claim_first(full: Seq<char>, value: Seq<u8>, ttl: Option<TimeSpan>) -> ClaimNext {
    match ttl {
        Some(ttl) => Next::Ask(
            Call::LeaseGrant(lease_seconds(ttl)),
            Claiming::Grant(full, value),
        ),
        None => Next::Ask(Call::PutIfAbsent(full, value, None), Claiming::Compare(None)),
    }
}

/// The replies that a claim can go on with.
pub open spec fn claim_accepts(state: Claiming, answer: Answer) -> bool {
    match state {
        Claiming::Grant(_, _) => fits(Kind::Granted, answer),
        Claiming::Compare(_) => fits(Kind::Compared, answer),
        Claiming::Revoke => fits(Kind::Done, answer),
    }
}

/// How a claim goes on.
pub open spec fn claim_next(state: Claiming, answer: Answer) -> ClaimNext {
    match (state, answer) {
        (Claiming::Grant(_, _), Answer::Failed(detail)) => Next::Finished(
            Err(kv_call_failed("lease_grant"@, detail)),
        ),
        (Claiming::Grant(key, value), Answer::Granted(lease)) => Next::Ask(
            Call::PutIfAbsent(key, value, Some(lease)),
            Claiming::Compare(Some(lease)),
        ),
        (Claiming::Compare(_), Answer::Failed(detail)) => Next::Finished(
            Err(kv_call_failed("txn"@, detail)),
        ),
        (Claiming::Compare(lease), Answer::Compared(succeeded)) => if succeeded {
            Next::Finished(Ok(true))
        } else {
            match lease {
                Some(id) => Next::Ask(Call::LeaseRevoke(id), Claiming::Revoke),
                None => Next::Finished(Ok(false)),
            }
        },
        (Claiming::Revoke, _) => Next::Finished(Ok(false)),
        _ => arbitrary(),
    }
}

impl PutIfAbsentOp {
    /// Whether the operation can go on with `reply`.
    pub fn accepts(&self, reply: &Reply) -> (r: bool)
        ensures
            r == claim_accepts(self@, reply@),
    {
        match self {
            PutIfAbsentOp::Grant { .. } => reply.is_for(Kind::Granted),
            PutIfAbsentOp::Compare { .. } => reply.is_for(Kind::Compared),
            PutIfAbsentOp::Revoke => reply.is_for(Kind::Done),
        }
    }

    /// Goes on with the reply to the call that was asked for.
    pub fn step(self, reply: Reply) -> (r: Step<PutIfAbsentOp, Result<bool, ClusterError>>)
        requires
            claim_accepts(self@, reply@),
        ensures
            r@ == claim_next(self@, reply@),
    {
        match self {
            PutIfAbsentOp::Grant { key, value } => match reply {
                Reply::Failed { detail } => Step::Finished {
                    result: Err(unavailable("lease_grant", detail.as_str())),
                },
                Reply::Granted { lease } => Step::Ask {
                    request: Request::PutIfAbsent { key, value, lease: Some(lease) },
                    state: PutIfAbsentOp::Compare { lease: Some(lease) },
                },
                _ => unreached(),
            },
            PutIfAbsentOp::Compare { lease } => match reply {
                Reply::Failed { detail } => Step::Finished {
                    result: Err(unavailable("txn", detail.as_str())),
                },
                Reply::Compared { succeeded } => if succeeded {
                    Step::Finished { result: Ok(true) }
                } else {
                    match lease {
                        Some(id) => Step::Ask {
                            request: Request::LeaseRevoke { lease: id },
                            state: PutIfAbsentOp::Revoke,
                        },
                        None => Step::Finished { result: Ok(false) },
                    }
                },
                _ => unreached(),
            },
            PutIfAbsentOp::Revoke => Step::Finished { result: Ok(false) },
        }
    }
}

// ---------------------------------------------------------------------------
// delete
// ---------------------------------------------------------------------------

/// Removing one key: waits for the number of keys that were removed.
#[derive(Debug)]
pub struct DeleteOp;

impl View for DeleteOp {
    type V = ();

    open spec fn view(&self) -> () {
        ()
    }
}

/// What [`DeleteOp`] results in: whether the key existed.
pub type DeleteNext = Next<(), Result<bool, Fault>>;

/// How a removal goes on.
pub open spec fn delete_next(answer: Answer) -> DeleteNext {
    match answer {
        Answer::Failed(detail) => Next::Finished(Err(kv_call_failed("delete"@, detail))),
        Answer::Deleted(count) => Next::Finished(Ok(count > 0)),
        _ => arbitrary(),
    }
}

impl DeleteOp {
    /// Whether the operation can go on with `reply`.
    pub fn accepts(&self, reply: &Reply) -> (r: bool)
        ensures
            r == fits(Kind::Deleted, reply@),
    {
        reply.is_for(Kind::Deleted)
    }

    /// Goes on with the reply to the call that was asked for.
    pub fn step(self, reply: Reply) -> (r: Step<DeleteOp, Result<bool, ClusterError>>)
        requires
            fits(Kind::Deleted, reply@),
        ensures
            r@ == delete_next(reply@),
    {
        match reply {
            Reply::Failed { detail } => Step::Finished {
                result: Err(unavailable("delete", detail.as_str())),
            },
            Reply::Deleted { count } => Step::Finished { result: Ok(count > 0) },
            _ => unreached(),
        }
    }
}

// ---------------------------------------------------------------------------
// list_prefix
// ---------------------------------------------------------------------------

/// A key that was listed and whose expiry is not known yet.
#[derive(Debug)]
pub struct Listed {
    pub key: String,
    pub value: Vec<u8>,
    pub lease: i64,
}

/// The content of a [`Listed`].
pub struct ListedKey {
    pub key: Seq<char>,
    pub value: Seq<u8>,
    pub lease: i64,
}

impl View for Listed {
    type V = ListedKey;

    open spec fn view(&self) -> ListedKey {
        ListedKey { key: self.key@, value: self.value@, lease: self.lease }
    }
}

/// The contents of a list of listed keys.
pub open spec fn listed_keys(list: Seq<Listed>) -> Seq<ListedKey> {
    list.map_values(|l: Listed| l@)
}

/// A stored key as a store with namespace `prefix` lists it.
pub open spec fn as_listed(prefix: Seq<char>, record: Record) -> ListedKey {
    ListedKey { key: logical(prefix, as_text(record.key)), value: record.value, lease: record.lease }
}

/// The listed keys with what is known of them, in order.
pub type Listing = Seq<(Seq<char>, Found)>;

/// Listing the keys with a prefix. `rest` holds the keys whose expiry is not
/// known yet, the next one last.
#[derive(Debug)]
pub enum ListOp {
    /// Waits for the keys.
    Fetch { key_prefix: String },
    /// Waits for the time that the lease of `key` lasts yet.
    Lease { out: Vec<(String, Entry)>, rest: Vec<Listed>, key: String, value: Vec<u8> },
    /// Waits for the time of day.
    Clock { out: Vec<(String, Entry)>, rest: Vec<Listed>, key: String, value: Vec<u8>, ttl: i64 },
}

/// The content of a [`ListOp`].
pub enum ListState {
    Fetch(Seq<char>),
    Lease(Listing, Seq<ListedKey>, Seq<char>, Seq<u8>),
    Clock(Listing, Seq<ListedKey>, Seq<char>, Seq<u8>, i64),
}

impl View for ListOp {
    type V = ListState;

    open spec fn view(&self) -> ListState {
        match self {
            ListOp::Fetch { key_prefix } => ListState::Fetch(key_prefix@),
            ListOp::Lease { out, rest, key, value } => ListState::Lease(
                out.content(),
                listed_keys(rest@),
                key@,
                value@,
            ),
            ListOp::Clock { out, rest, key, value, ttl } => ListState::Clock(
                out.content(),
                listed_keys(rest@),
                key@,
                value@,
                *ttl,
            ),
        }
    }
}

/// What [`ListOp`] results in.
pub type ListNext = Next<ListState, Result<Listing, Fault>>;

/// How a listing goes on when `out` is known and `rest` is not: keys without a
/// lease are known at once.
pub open spec fn list_onward(out: Listing, rest: Seq<ListedKey>) -> ListNext
    decreases rest.len(),
{
    if rest.len() == 0 {
        Next::Finished(Ok(out))
    } else {
        let top = rest.last();
        if top.lease == 0 {
            list_onward(
                out.push((top.key, Found { bytes: top.value, expires_at: None })),
                rest.drop_last(),
            )
        } else {
            Next::Ask(
                Call::LeaseTimeToLive(top.lease),
                ListState::Lease(out, rest.drop_last(), top.key, top.value),
            )
        }
    }
}

/// How a listing of at most `limit` keys begins.
pub open spec fn list_first(prefix: Seq<char>, under: Seq<char>, limit: usize) -> ListNext {
    let most = if limit > i64::MAX {
        i64::MAX
    } else {
        limit as i64
    };
    Next::Ask(Call::GetPrefix(prefix + under, Some(most)), ListState::Fetch(prefix))
}

/// The replies that a listing can go on with.
pub open spec fn list_accepts(state: ListState, answer: Answer) -> bool {
    match state {
        ListState::Fetch(_) => fits(Kind::KeyValues, answer),
        ListState::Lease(_, _, _, _) => fits(Kind::TimeToLive, answer),
        ListState::Clock(_, _, _, _, ttl) => clock_fits(answer, ttl),
    }
}

/// How a listing goes on.
pub open spec fn list_next(state: ListState, answer: Answer) -> ListNext {
    match (state, answer) {
        (ListState::Fetch(_), Answer::Failed(detail)) => Next::Finished(
            Err(kv_call_failed("list_prefix"@, detail)),
        ),
        (ListState::Fetch(prefix), Answer::KeyValues(kvs)) => list_onward(
            Seq::empty(),
            kvs.map_values(|r: Record| as_listed(prefix, r)).reverse(),
        ),
        (ListState::Lease(out, rest, key, value), Answer::TimeToLive(ttl)) => if ttl > 0 {
            Next::Ask(Call::ReadClock, ListState::Clock(out, rest, key, value, ttl))
        } else {
            list_onward(out.push((key, Found { bytes: value, expires_at: None })), rest)
        },
        (ListState::Lease(out, rest, key, value), _) => list_onward(
            out.push((key, Found { bytes: value, expires_at: None })),
            rest,
        ),
        (ListState::Clock(out, rest, key, value, ttl), Answer::Clock(now)) => list_onward(
            out.push((key, Found { bytes: value, expires_at: Some(expiry(now, ttl)) })),
            rest,
        ),
        _ => arbitrary(),
    }
}

/// Takes the keys without a lease over and asks for the next lease.
#[verifier::loop_isolation(false)]
fn list_from(out: Vec<(String, Entry)>, rest: Vec<Listed>) -> (r: Step<
    ListOp,
    Result<Vec<(String, Entry)>, ClusterError>,
>)
    ensures
        r@ == list_onward(out.content(), listed_keys(rest@)),
{
    let mut out = out;
    let mut rest = rest;
    let ghost whole = list_onward(out.content(), listed_keys(rest@));
    loop
        invariant
            whole == list_onward(out.content(), listed_keys(rest@)),
        decreases rest@.len(),
    {
        let ghost before_out = out.content();
        let ghost before_rest = listed_keys(rest@);
        match rest.pop() {
            None => {
                return Step::Finished { result: Ok(out) };
            },
            Some(top) => {
                assert(before_rest.last() == top@);
                assert(listed_keys(rest@) =~= before_rest.drop_last());
                if top.lease == 0 {
                    out.push((top.key, Entry { bytes: top.value, expires_at: None }));
                    assert(out.content() =~= before_out.push(
                        (top@.key, Found { bytes: top@.value, expires_at: None }),
                    ));
                } else {
                    return Step::Ask {
                        request: Request::LeaseTimeToLive { lease: top.lease },
                        state: ListOp::Lease { out, rest, key: top.key, value: top.value },
                    };
                }
            },
        }
    }
}

/// The listed keys, the first one last.
#[verifier::loop_isolation(false)]
fn listed_from(key_prefix: &str, kvs: Vec<KeyValue>) -> (r: Vec<Listed>)
    ensures
        listed_keys(r@) == records(kvs@).map_values(
            |record: Record| as_listed(key_prefix@, record),
        ).reverse(),
{
    let ghost all = records(kvs@).map_values(|record: Record| as_listed(key_prefix@, record));
    let ghost given = kvs@;
    let mut kvs = kvs;
    let mut rest: Vec<Listed> = Vec::new();
    loop
        invariant
            all == records(given).map_values(|record: Record| as_listed(key_prefix@, record)),
            kvs@ == given.take(kvs@.len() as int),
            kvs@.len() <= given.len(),
            listed_keys(rest@) == all.skip(kvs@.len() as int).reverse(),
        decreases kvs@.len(),
    {
        let ghost left = kvs@.len() as int;
        match kvs.pop() {
            None => {
                assert(all.skip(0) =~= all);
                return rest;
            },
            Some(kv) => {
                assert(kv == given[left - 1]);
                let full: String = from_utf8_lossy(&kv.key);
                let key: String = logical_key_in(key_prefix, full.as_str());
                let ghost before = listed_keys(rest@);
                rest.push(Listed { key, value: kv.value, lease: kv.lease });
                assert(all[left - 1] == as_listed(key_prefix@, given[left - 1]@));
                assert(listed_keys(rest@) =~= before.push(all[left - 1]));
                assert(all.skip(left - 1).reverse() =~= all.skip(left).reverse().push(
                    all[left - 1],
                ));
                assert(kvs@ =~= given.take(left - 1));
            },
        }
    }
}

/// The logical key for a full key.
pub(crate) fn logical_key_in(key_prefix: &str, full: &str) -> (r: String)
    ensures
        r@ == logical(key_prefix@, full@),
{
    match strip_prefix(full, key_prefix) {
        Some(key) => key,
        None => full.to_owned(),
    }
}

impl ListOp {
    /// Whether the operation can go on with `reply`.
    pub fn accepts(&self, reply: &Reply) -> (r: bool)
        ensures
            r == list_accepts(self@, reply@),
    {
        match self {
            ListOp::Fetch { .. } => reply.is_for(Kind::KeyValues),
            ListOp::Lease { .. } => reply.is_for(Kind::TimeToLive),
            ListOp::Clock { ttl, .. } => is_clock_for(reply, *ttl),
        }
    }

    /// Goes on with the reply to the call that was asked for.
    pub fn step(self, reply: Reply) -> (r: Step<
        ListOp,
        Result<Vec<(String, Entry)>, ClusterError>,
    >)
        requires
            list_accepts(self@, reply@),
        ensures
            r@ == list_next(self@, reply@),
    {
        match self {
            ListOp::Fetch { key_prefix } => match reply {
                Reply::Failed { detail } => Step::Finished {
                    result: Err(unavailable("list_prefix", detail.as_str())),
                },
                Reply::KeyValues { kvs } => {
                    let rest: Vec<Listed> = listed_from(key_prefix.as_str(), kvs);
                    let out: Vec<(String, Entry)> = Vec::new();
                    assert(out.content() =~= Seq::empty());
                    list_from(out, rest)
                },
                _ => unreached(),
            },
            ListOp::Lease { out, rest, key, value } => match reply {
                Reply::TimeToLive { ttl } => if ttl > 0 {
                    Step::Ask {
                        request: Request::ReadClock,
                        state: ListOp::Clock { out, rest, key, value, ttl },
                    }
                } else {
                    list_with(out, rest, key, Entry { bytes: value, expires_at: None })
                },
                _ => list_with(out, rest, key, Entry { bytes: value, expires_at: None }),
            },
            ListOp::Clock { out, rest, key, value, ttl } => match reply {
                Reply::Clock { now } => list_with(
                    out,
                    rest,
                    key,
                    Entry {
                        bytes: value,
                        expires_at: Some(UnixTime { secs: now.secs + ttl, nanos: now.nanos }),
                    },
                ),
                _ => unreached(),
            },
        }
    }
}

/// Goes on with one more key known.
fn list_with(out: Vec<(String, Entry)>, rest: Vec<Listed>, key: String, entry: Entry) -> (r: Step<
    ListOp,
    Result<Vec<(String, Entry)>, ClusterError>,
>)
    ensures
        r@ == list_onward(out.content().push((key@, entry.content())), listed_keys(rest@)),
{
    let ghost before = out.content();
    let mut out = out;
    out.push((key, entry));
    assert(out.content() =~= before.push((key@, entry.content())));
    list_from(out, rest)
}

// ---------------------------------------------------------------------------
// expire
// ---------------------------------------------------------------------------

/// Changing the time to live of a key: its value is read and written back
/// under a fresh lease, or under none.
#[derive(Debug)]
pub enum ExpireOp {
    /// Waits for the current value.
    Fetch { key: String, ttl: Option<TimeSpan> },
    /// Waits for the lease to write under.
    Grant { key: String, value: Vec<u8> },
    /// Waits for the write.
    Write,
}

/// The content of an [`ExpireOp`].
pub enum Expiring {
    Fetch(Seq<char>, Option<TimeSpan>),
    Grant(Seq<char>, Seq<u8>),
    Write,
}

impl View for ExpireOp {
    type V = Expiring;

    open spec fn view(&self) -> Expiring {
        match self {
            ExpireOp::Fetch { key, ttl } => Expiring::Fetch(key@, *ttl),
            ExpireOp::Grant { key, value } => Expiring::Grant(key@, value@),
            ExpireOp::Write => Expiring::Write,
        }
    }
}

/// What [`ExpireOp`] results in: whether the key exists.
pub type ExpireNext = Next<Expiring, Result<bool, Fault>>;

/// The replies that a change of the time to live can go on with.
pub open spec fn expire_accepts(state: Expiring, answer: Answer) -> bool {
    match state {
        Expiring::Fetch(_, _) => fits(Kind::KeyValues, answer),
        Expiring::Grant(_, _) => fits(Kind::Granted, answer),
        Expiring::Write => fits(Kind::Done, answer),
    }
}

/// How a change of the time to live goes on.
pub open spec fn expire_next(state: Expiring, answer: Answer) -> ExpireNext {
    match (state, answer) {
        (Expiring::Fetch(_, _), Answer::Failed(detail)) => Next::Finished(
            Err(kv_call_failed("expire get"@, detail)),
        ),
        (Expiring::Fetch(key, ttl), Answer::KeyValues(kvs)) => if kvs.len() == 0 {
            Next::Finished(Ok(false))
        } else {
            match ttl {
                Some(ttl) => Next::Ask(
                    Call::LeaseGrant(lease_seconds(ttl)),
                    Expiring::Grant(key, kvs[0].value),
                ),
                None => Next::Ask(Call::Put(key, kvs[0].value, None), Expiring::Write),
            }
        },
        (Expiring::Grant(_, _), Answer::Failed(detail)) => Next::Finished(
            Err(kv_call_failed("expire lease_grant"@, detail)),
        ),
        (Expiring::Grant(key, value), Answer::Granted(lease)) => Next::Ask(
            Call::Put(key, value, Some(lease)),
            Expiring::Write,
        ),
        (Expiring::Write, Answer::Failed(detail)) => Next::Finished(
            Err(kv_call_failed("expire put"@, detail)),
        ),
        (Expiring::Write, Answer::Done) => Next::Finished(Ok(true)),
        _ => arbitrary(),
    }
}

impl ExpireOp {
    /// Whether the operation can go on with `reply`.
    pub fn accepts(&self, reply: &Reply) -> (r: bool)
        ensures
            r == expire_accepts(self@, reply@),
    {
        match self {
            ExpireOp::Fetch { .. } => reply.is_for(Kind::KeyValues),
            ExpireOp::Grant { .. } => reply.is_for(Kind::Granted),
            ExpireOp::Write => reply.is_for(Kind::Done),
        }
    }

    /// Goes on with the reply to the call that was asked for.
    pub fn step(self, reply: Reply) -> (r: Step<ExpireOp, Result<bool, ClusterError>>)
        requires
            expire_accepts(self@, reply@),
        ensures
            r@ == expire_next(self@, reply@),
    {
        match self {
            ExpireOp::Fetch { key, ttl } => match reply {
                Reply::Failed { detail } => Step::Finished {
                    result: Err(unavailable("expire get", detail.as_str())),
                },
                Reply::KeyValues { kvs } => {
                    let mut kvs = kvs;
                    let ghost all = kvs@;
                    if kvs.is_empty() {
                        return Step::Finished { result: Ok(false) };
                    }
                    let kv: KeyValue = kvs.swap_remove(0);
                    assert(records(all)[0] == kv@);
                    match ttl {
                        Some(span) => Step::Ask {
                            request: Request::LeaseGrant { ttl: lease_secs(span) },
                            state: ExpireOp::Grant { key, value: kv.value },
                        },
                        None => Step::Ask {
                            request: Request::Put { key, value: kv.value, lease: None },
                            state: ExpireOp::Write,
                        },
                    }
                },
                _ => unreached(),
            },
            ExpireOp::Grant { key, value } => match reply {
                Reply::Failed { detail } => Step::Finished {
                    result: Err(unavailable("expire lease_grant", detail.as_str())),
                },
                Reply::Granted { lease } => Step::Ask {
                    request: Request::Put { key, value, lease: Some(lease) },
                    state: ExpireOp::Write,
                },
                _ => unreached(),
            },
            ExpireOp::Write => match reply {
                Reply::Failed { detail } => Step::Finished {
                    result: Err(unavailable("expire put", detail.as_str())),
                },
                Reply::Done => Step::Finished { result: Ok(true) },
                _ => unreached(),
            },
        }
    }
}

// ---------------------------------------------------------------------------
// the store
// ---------------------------------------------------------------------------

impl EtcdKv {
    /// The store whose keys begin with `kv_prefix`, which keeps them apart
    /// from the coordinator's other keys.
    pub fn new(kv_prefix: String) -> (r: EtcdKv)
        ensures
            r@ == kv_prefix@,
    {
        EtcdKv { key_prefix: kv_prefix }
    }

    /// The key under which etcd holds the logical key `key`.
    pub fn full_key(&self, key: &str) -> (r: String)
        ensures
            r@ == self@ + key@,
    {
        concat2(self.key_prefix.as_str(), key)
    }

    /// The logical key for a key that etcd returned; one that does not lie in
    /// the store's namespace is left as it is.
    pub fn logical_key(&self, full: &str) -> (r: String)
        ensures
            r@ == logical(self@, full@),
    {
        logical_key_in(self.key_prefix.as_str(), full)
    }

    /// Reads `key`.
    pub fn get(&self, key: &str) -> (r: Step<GetOp, Result<Option<Entry>, ClusterError>>)
        ensures
            r@ == GetNext::Ask(Call::Get(self@ + key@), Getting::Fetch),
    {
        Step::Ask { request: Request::Get { key: self.full_key(key) }, state: GetOp::Fetch }
    }

    /// Writes `value` under `key`, for as long as `ttl` or for good.
    pub fn put(&self, key: &str, value: Vec<u8>, ttl: Option<TimeSpan>) -> (r: Step<
        PutOp,
        Result<(), ClusterError>,
    >)
        ensures
            r@ == put_first(self@ + key@, value@, ttl),
    {
        let full: String = self.full_key(key);
        match ttl {
            Some(span) => Step::Ask {
                request: Request::LeaseGrant { ttl: lease_secs(span) },
                state: PutOp::Grant { key: full, value },
            },
            None => Step::Ask {
                request: Request::Put { key: full, value, lease: None },
                state: PutOp::Write,
            },
        }
    }

    /// Writes `value` under `key` if the key does not exist.
    pub fn put_if_absent(&self, key: &str, value: Vec<u8>, ttl: Option<TimeSpan>) -> (r: Step<
        PutIfAbsentOp,
        Result<bool, ClusterError>,
    >)
        ensures
            r@ == claim_first(self@ + key@, value@, ttl),
    {
        let full: String = self.full_key(key);
        match ttl {
            Some(span) => Step::Ask {
                request: Request::LeaseGrant { ttl: lease_secs(span) },
                state: PutIfAbsentOp::Grant { key: full, value },
            },
            None => Step::Ask {
                request: Request::PutIfAbsent { key: full, value, lease: None },
                state: PutIfAbsentOp::Compare { lease: None },
            },
        }
    }

    /// Removes `key`.
    pub fn delete(&self, key: &str) -> (r: Step<DeleteOp, Result<bool, ClusterError>>)
        ensures
            r@ == DeleteNext::Ask(Call::Delete(self@ + key@), ()),
    {
        Step::Ask { request: Request::Delete { key: self.full_key(key) }, state: DeleteOp }
    }

    /// Lists the keys that begin with `prefix`, at most `limit` of them.
    pub fn list_prefix(&self, prefix: &str, limit: usize) -> (r: Step<
        ListOp,
        Result<Vec<(String, Entry)>, ClusterError>,
    >)
        ensures
            r@ == ListNext::Ask(
                Call::GetPrefix(
                    self@ + prefix@,
                    Some(
                        if limit <= i64::MAX {
                            limit as i64
                        } else {
                            i64::MAX
                        },
                    ),
                ),
                ListState::Fetch(self@),
            ),
            r@ == list_first(self@, prefix@, limit),
    {
        let wide: u64 = limit as u64;
        let most: i64 = if wide <= i64::MAX as u64 {
            wide as i64
        } else {
            i64::MAX
        };
        Step::Ask {
            request: Request::GetPrefix { prefix: self.full_key(prefix), limit: Some(most) },
            state: ListOp::Fetch { key_prefix: self.key_prefix.clone() },
        }
    }

    /// Changes the time to live of `key` to `ttl`, or to none.
    pub fn expire(&self, key: &str, ttl: Option<TimeSpan>) -> (r: Step<
        ExpireOp,
        Result<bool, ClusterError>,
    >)
        ensures
            r@ == ExpireNext::Ask(Call::Get(self@ + key@), Expiring::Fetch(self@ + key@, ttl)),
    {
        let full: String = self.full_key(key);
        Step::Ask {
            request: Request::Get { key: full.clone() },
            state: ExpireOp::Fetch { key: full, ttl },
        }
    }
}

/// The logical key of a full key is the key that the full key was made from.
pub proof fn logical_undoes_full(prefix: Seq<char>, key: Seq<char>)
    ensures
        logical(prefix, prefix + key) == key,
{
    assert((prefix + key).take(prefix.len() as int) =~= prefix);
    assert((prefix + key).skip(prefix.len() as int) =~= key);
}

/// A time to live never collapses to none, and a whole number of seconds that
/// etcd can hold is kept.
pub proof fn leases_last(ttl: TimeSpan)
    ensures
        lease_seconds(ttl) >= 1,
        1 <= ttl.secs <= i64::MAX ==> lease_seconds(ttl) == ttl.secs,
{
}

} // verus!
