//! Leases: leadership and locks.
//!
//! A lease is held through one etcd key, `<name>/lock`, which is attached to an
//! etcd lease. Whoever creates the key holds it; it goes away when it is given
//! up or when the etcd lease lapses. The blocking and the immediate way to
//! acquire it contend for the same key.
use vstd::pervasive::unreached;
use vstd::prelude::*;
use vstd::string::*;

use crate::error::{backend_unavailable, call_failed, ClusterError, Fault};
use crate::protocol::{fits, Answer, Call, Kind, Next, Outcome, Reply, Request, Step};
use crate::text::{concat2, trim, trimmed};
use crate::time::{
    can_reach, end_second, longest, milliseconds, reaches, rfc3339, rfc3339_after, seconds,
    TimeSpan, NANOS_PER_SEC,
};

verus! {

/// A lease that was acquired.
#[derive(Debug)]
pub struct LeaseState {
    /// The etcd lease.
    lease_id: i64,
    /// The key that is held.
    lock_key: String,
    /// When the lease lapses unless it is renewed.
    expires_at: String,
    /// Whether the lease was given up, or found lapsed.
    released: bool,
}

/// The content of a [`LeaseState`].
pub struct Lease {
    pub id: i64,
    pub lock_key: Seq<char>,
    pub expires_at: Seq<char>,
    pub released: bool,
}

impl View for LeaseState {
    type V = Lease;

    closed spec fn view(&self) -> Lease {
        Lease {
            id: self.lease_id,
            lock_key: self.lock_key@,
            expires_at: self.expires_at@,
            released: self.released,
        }
    }
}

impl Outcome for LeaseState {
    type Content = Lease;

    open spec fn content(&self) -> Lease {
        self@
    }
}

/// The key that is held for the lease `name`.
pub open spec fn lock_key_of(name: Seq<char>) -> Seq<char> {
    name + "/lock"@
}

/// The fencing token of an etcd lease: its id, read as an unsigned number.
pub open spec fn token(id: i64) -> int {
    if id >= 0 {
        id as int
    } else {
        id + 0x1_0000_0000_0000_0000
    }
}

impl LeaseState {
    /// The number that tells this holder from earlier and later ones.
    pub fn fencing_token(&self) -> (r: u64)
        ensures
            r == token(self@.id),
    {
        if self.lease_id >= 0 {
            self.lease_id as u64
        } else {
            u64::MAX - (-(self.lease_id + 1)) as u64
        }
    }

    /// The key that is held.
    pub fn lock_key(&self) -> (r: &String)
        ensures
            r@ == self@.lock_key,
    {
        &self.lock_key
    }

    /// Whether the lease was given up, or found lapsed.
    pub fn is_released(&self) -> (r: bool)
        ensures
            r == self@.released,
    {
        self.released
    }

    /// When the lease lapses unless it is renewed.
    pub fn expires_at(&self) -> (r: String)
        ensures
            r@ == self@.expires_at,
    {
        self.expires_at.clone()
    }
}

/// Nanoseconds of the time to live for a number of milliseconds.
pub open spec fn ttl_nanos(ttl_ms: u64) -> nat {
    if ttl_ms == 0 {
        1_000_000
    } else {
        (ttl_ms * 1_000_000) as nat
    }
}

/// The time to live for a number of milliseconds: at least one.
pub fn ttl_of_ms(ttl_ms: u64) -> (r: TimeSpan)
    ensures
        r.wf(),
        r.length() == ttl_nanos(ttl_ms),
        r == milliseconds(
            if ttl_ms == 0 {
                1
            } else {
                ttl_ms
            },
        ),
{
    if ttl_ms == 0 {
        TimeSpan::from_millis(1)
    } else {
        TimeSpan::from_millis(ttl_ms)
    }
}

/// The seconds that are asked of etcd for a time to live: the whole seconds,
/// at least one, taken as a signed number.
pub open spec fn grant_seconds(ttl: TimeSpan) -> i64 {
    if ttl.secs == 0 {
        1
    } else if ttl.secs <= i64::MAX {
        ttl.secs as i64
    } else {
        (ttl.secs - 0x1_0000_0000_0000_0000) as i64
    }
}

/// Computes [`grant_seconds`].
fn grant_secs(ttl: TimeSpan) -> (r: i64)
    ensures
        r == grant_seconds(ttl),
{
    if ttl.secs == 0 {
        1
    } else if ttl.secs <= i64::MAX as u64 {
        ttl.secs as i64
    } else {
        -((u64::MAX - ttl.secs) as i64) - 1
    }
}

/// The refusal of a lease without a name.
pub open spec fn nameless() -> Fault {
    Fault::InvalidReference("lease key must not be empty"@)
}

/// Whether the reply is a clock reading from which the end of `ttl` can be
/// told.
pub open spec fn end_can_be_told(answer: Answer, ttl: TimeSpan) -> bool {
    match answer {
        Answer::Clock(now) => ttl.wf() && reaches(now, ttl),
        _ => false,
    }
}

fn is_clock_within(reply: &Reply, ttl: TimeSpan) -> (r: bool)
    ensures
        r == end_can_be_told(reply@, ttl),
{
    match reply {
        Reply::Clock { now } => ttl.nanos < NANOS_PER_SEC && can_reach(*now, ttl),
        _ => false,
    }
}

// ---------------------------------------------------------------------------
// try_acquire
// ---------------------------------------------------------------------------

/// Acquiring a lease if it is free.
#[derive(Debug)]
pub enum TryAcquireOp {
    /// Waits for the etcd lease.
    Grant { lock_key: String, ttl: TimeSpan },
    /// Waits for the transaction that creates the key.
    Compare { lock_key: String, ttl: TimeSpan, lease: i64 },
    /// Waits for the unused etcd lease to be revoked.
    Revoke,
    /// Waits for the time of day.
    Clock { lock_key: String, ttl: TimeSpan, lease: i64 },
}

/// The content of a [`TryAcquireOp`].
pub enum Trying {
    Grant(Seq<char>, TimeSpan),
    Compare(Seq<char>, TimeSpan, i64),
    Revoke,
    Clock(Seq<char>, TimeSpan, i64),
}

impl View for TryAcquireOp {
    type V = Trying;

    open spec fn view(&self) -> Trying {
        match self {
            TryAcquireOp::Grant { lock_key, ttl } => Trying::Grant(lock_key@, *ttl),
            TryAcquireOp::Compare { lock_key, ttl, lease } => Trying::Compare(
                lock_key@,
                *ttl,
                *lease,
            ),
            TryAcquireOp::Revoke => Trying::Revoke,
            TryAcquireOp::Clock { lock_key, ttl, lease } => Trying::Clock(lock_key@, *ttl, *lease),
        }
    }
}

/// What [`TryAcquireOp`] results in: nothing where another holder has the
/// lease.
pub type TryNext = Next<Trying, Result<Option<Lease>, Fault>>;

/// How an attempt begins.
pub open spec fn try_first(name: Seq<char>, ttl: TimeSpan) -> TryNext {
    if trimmed(name).len() == 0 {
        Next::Finished(Err(nameless()))
    } else {
        Next::Ask(Call::LeaseGrant(grant_seconds(ttl)), Trying::Grant(lock_key_of(name), ttl))
    }
}

/// The replies that an attempt can go on with.
pub open spec fn try_accepts(state: Trying, answer: Answer) -> bool {
    match state {
        Trying::Grant(_, _) => fits(Kind::Granted, answer),
        Trying::Compare(_, _, _) => fits(Kind::Compared, answer),
        Trying::Revoke => fits(Kind::Done, answer),
        Trying::Clock(_, ttl, _) => end_can_be_told(answer, ttl),
    }
}

/// How an attempt goes on.
pub open spec fn try_next(state: Trying, answer: Answer) -> TryNext {
    match (state, answer) {
        (Trying::Grant(_, _), Answer::Failed(detail)) => Next::Finished(
            Err(call_failed("lease_grant"@, detail)),
        ),
        (Trying::Grant(lock_key, ttl), Answer::Granted(lease)) => Next::Ask(
            Call::PutIfAbsent(lock_key, Seq::empty(), Some(lease)),
            Trying::Compare(lock_key, ttl, lease),
        ),
        (Trying::Compare(_, _, _), Answer::Failed(detail)) => Next::Finished(
            Err(call_failed("txn"@, detail)),
        ),
        (Trying::Compare(lock_key, ttl, lease), Answer::Compared(succeeded)) => if succeeded {
            Next::Ask(Call::ReadClock, Trying::Clock(lock_key, ttl, lease))
        } else {
            Next::Ask(Call::LeaseRevoke(lease), Trying::Revoke)
        },
        (Trying::Revoke, _) => Next::Finished(Ok(None)),
        (Trying::Clock(lock_key, ttl, lease), Answer::Clock(now)) => Next::Finished(
            Ok(
                Some(
                    Lease {
                        id: lease,
                        lock_key,
                        expires_at: rfc3339(end_second(now, ttl)),
                        released: false,
                    },
                ),
            ),
        ),
        _ => arbitrary(),
    }
}

/// Begins to acquire the lease `name`, if it is free, for `ttl`.
pub fn try_acquire(name: &str, ttl: TimeSpan) -> (r: Step<
    TryAcquireOp,
    Result<Option<LeaseState>, ClusterError>,
>)
    ensures
        r@ == try_first(name@, ttl),
{
    if trim(name).is_empty() {
        return Step::Finished {
            result: Err(
                ClusterError::InvalidReference { message: "lease key must not be empty".to_owned() },
            ),
        };
    }
    Step::Ask {
        request: Request::LeaseGrant { ttl: grant_secs(ttl) },
        state: TryAcquireOp::Grant { lock_key: concat2(name, "/lock"), ttl },
    }
}

impl TryAcquireOp {
    /// Whether the operation can go on with `reply`.
    pub fn accepts(&self, reply: &Reply) -> (r: bool)
        ensures
            r == try_accepts(self@, reply@),
    {
        match self {
            TryAcquireOp::Grant { .. } => reply.is_for(Kind::Granted),
            TryAcquireOp::Compare { .. } => reply.is_for(Kind::Compared),
            TryAcquireOp::Revoke => reply.is_for(Kind::Done),
            TryAcquireOp::Clock { ttl, .. } => is_clock_within(reply, *ttl),
        }
    }

    /// Goes on with the reply to the call that was asked for.
    pub fn step(self, reply: Reply) -> (r: Step<
        TryAcquireOp,
        Result<Option<LeaseState>, ClusterError>,
    >)
        requires
            try_accepts(self@, reply@),
        ensures
            r@ == try_next(self@, reply@),
    {
        match self {
            TryAcquireOp::Grant { lock_key, ttl } => match reply {
                Reply::Failed { detail } => Step::Finished {
                    result: Err(backend_unavailable("lease_grant", detail.as_str())),
                },
                Reply::Granted { lease } => {
                    let value: Vec<u8> = Vec::new();
                    assert(value@ =~= Seq::empty());
                    Step::Ask {
                        request: Request::PutIfAbsent {
                            key: lock_key.clone(),
                            value,
                            lease: Some(lease),
                        },
                        state: TryAcquireOp::Compare { lock_key, ttl, lease },
                    }
                },
                _ => unreached(),
            },
            TryAcquireOp::Compare { lock_key, ttl, lease } => match reply {
                Reply::Failed { detail } => Step::Finished {
                    result: Err(backend_unavailable("txn", detail.as_str())),
                },
                Reply::Compared { succeeded } => if succeeded {
                    Step::Ask {
                        request: Request::ReadClock,
                        state: TryAcquireOp::Clock { lock_key, ttl, lease },
                    }
                } else {
                    Step::Ask {
                        request: Request::LeaseRevoke { lease },
                        state: TryAcquireOp::Revoke,
                    }
                },
                _ => unreached(),
            },
            TryAcquireOp::Revoke => Step::Finished { result: Ok(None) },
            TryAcquireOp::Clock { lock_key, ttl, lease } => match reply {
                Reply::Clock { now } => Step::Finished {
                    result: Ok(
                        Some(
                            LeaseState {
                                lease_id: lease,
                                lock_key,
                                expires_at: rfc3339_after(now, ttl),
                                released: false,
                            },
                        ),
                    ),
                },
                _ => unreached(),
            },
        }
    }
}

// ---------------------------------------------------------------------------
// acquire
// ---------------------------------------------------------------------------

/// Milliseconds before the second attempt.
pub const FIRST_BACKOFF_MS: u64 = 50;

/// The most milliseconds between two attempts.
pub const MAX_BACKOFF_MS: u64 = 2000;

/// The wait after a wait of `backoff_ms` milliseconds: twice as long, up to
/// the longest.
pub open spec fn longer(backoff_ms: u64) -> u64 {
    if backoff_ms * 2 < MAX_BACKOFF_MS {
        (backoff_ms * 2) as u64
    } else {
        MAX_BACKOFF_MS
    }
}

/// Acquiring a lease, however long that takes.
#[derive(Debug)]
pub enum AcquireOp {
    /// In the middle of an attempt; `backoff_ms` is the wait that follows it.
    Attempt { op: TryAcquireOp, name: String, ttl: TimeSpan, backoff_ms: u64 },
    /// Waits before the next attempt.
    Backoff { name: String, ttl: TimeSpan, backoff_ms: u64 },
}

/// The content of an [`AcquireOp`].
pub enum Acquiring {
    Attempt(Trying, Seq<char>, TimeSpan, u64),
    Backoff(Seq<char>, TimeSpan, u64),
}

impl View for AcquireOp {
    type V = Acquiring;

    open spec fn view(&self) -> Acquiring {
        match self {
            AcquireOp::Attempt { op, name, ttl, backoff_ms } => Acquiring::Attempt(
                op@,
                name@,
                *ttl,
                *backoff_ms,
            ),
            AcquireOp::Backoff { name, ttl, backoff_ms } => Acquiring::Backoff(
                name@,
                *ttl,
                *backoff_ms,
            ),
        }
    }
}

/// What [`AcquireOp`] results in.
pub type AcquireNext = Next<Acquiring, Result<Lease, Fault>>;

/// How the acquisition goes on when its attempt is at `at`: a lost attempt is
/// followed by a wait.
pub open spec fn attempt(
    at: TryNext,
    name: Seq<char>,
    ttl: TimeSpan,
    backoff_ms: u64,
) -> AcquireNext {
    match at {
        Next::Ask(call, state) => Next::Ask(
            call,
            Acquiring::Attempt(state, name, ttl, backoff_ms),
        ),
        Next::Finished(Ok(Some(lease))) => Next::Finished(Ok(lease)),
        Next::Finished(Ok(None)) => Next::Ask(
            Call::Sleep(milliseconds(backoff_ms)),
            Acquiring::Backoff(name, ttl, backoff_ms),
        ),
        Next::Finished(Err(fault)) => Next::Finished(Err(fault)),
    }
}

/// How an acquisition begins.
pub open spec fn acquire_first(name: Seq<char>, ttl: TimeSpan) -> AcquireNext {
    attempt(try_first(name, ttl), name, ttl, FIRST_BACKOFF_MS)
}

/// The replies that an acquisition can go on with.
pub open spec fn acquire_accepts(state: Acquiring, answer: Answer) -> bool {
    match state {
        Acquiring::Attempt(state, _, _, _) => try_accepts(state, answer),
        Acquiring::Backoff(_, _, _) => fits(Kind::Done, answer),
    }
}

/// How an acquisition goes on.
pub open spec fn acquire_next(state: Acquiring, answer: Answer) -> AcquireNext {
    match state {
        Acquiring::Attempt(state, name, ttl, backoff_ms) => attempt(
            try_next(state, answer),
            name,
            ttl,
            backoff_ms,
        ),
        Acquiring::Backoff(name, ttl, backoff_ms) => attempt(
            try_first(name, ttl),
            name,
            ttl,
            longer(backoff_ms),
        ),
    }
}

/// Carries an attempt's step over to the acquisition.
fn attempted(
    at: Step<TryAcquireOp, Result<Option<LeaseState>, ClusterError>>,
    name: String,
    ttl: TimeSpan,
    backoff_ms: u64,
) -> (r: Step<AcquireOp, Result<LeaseState, ClusterError>>)
    ensures
        r@ == attempt(at@, name@, ttl, backoff_ms),
{
    match at {
        Step::Ask { request, state } => Step::Ask {
            request,
            state: AcquireOp::Attempt { op: state, name, ttl, backoff_ms },
        },
        Step::Finished { result: Ok(Some(lease)) } => Step::Finished { result: Ok(lease) },
        Step::Finished { result: Ok(None) } => Step::Ask {
            request: Request::Sleep { span: TimeSpan::from_millis(backoff_ms) },
            state: AcquireOp::Backoff { name, ttl, backoff_ms },
        },
        Step::Finished { result: Err(error) } => Step::Finished { result: Err(error) },
    }
}

/// Begins to acquire the lease `name` for `ttl`, waiting until it is free.
pub fn acquire(name: &str, ttl: TimeSpan) -> (r: Step<AcquireOp, Result<LeaseState, ClusterError>>)
    ensures
        r@ == acquire_first(name@, ttl),
{
    attempted(try_acquire(name, ttl), name.to_owned(), ttl, FIRST_BACKOFF_MS)
}

impl AcquireOp {
    /// Whether the operation can go on with `reply`.
    pub fn accepts(&self, reply: &Reply) -> (r: bool)
        ensures
            r == acquire_accepts(self@, reply@),
    {
        match self {
            AcquireOp::Attempt { op, .. } => op.accepts(reply),
            AcquireOp::Backoff { .. } => reply.is_for(Kind::Done),
        }
    }

    /// Goes on with the reply to the call that was asked for.
    pub fn step(self, reply: Reply) -> (r: Step<AcquireOp, Result<LeaseState, ClusterError>>)
        requires
            acquire_accepts(self@, reply@),
        ensures
            r@ == acquire_next(self@, reply@),
    {
        match self {
            AcquireOp::Attempt { op, name, ttl, backoff_ms } => attempted(
                op.step(reply),
                name,
                ttl,
                backoff_ms,
            ),
            AcquireOp::Backoff { name, ttl, backoff_ms } => {
                let wait: u64 = if backoff_ms < MAX_BACKOFF_MS / 2 {
                    backoff_ms * 2
                } else {
                    MAX_BACKOFF_MS
                };
                attempted(try_acquire(name.as_str(), ttl), name, ttl, wait)
            },
        }
    }
}

// ---------------------------------------------------------------------------
// renewal in the background
// ---------------------------------------------------------------------------

/// Nanoseconds between two renewals of a lease of `ttl` nanoseconds, so that
/// the given share of it is left: never none.
pub open spec fn renewal_nanos(ttl: nat, percent_left: u32) -> nat {
    let percent = if percent_left < 1 {
        1int
    } else if percent_left > 99 {
        99
    } else {
        percent_left as int
    };
    let product = ttl * (100 - percent);
    let share = if product <= longest() {
        product / 100
    } else {
        longest() as int / 100
    };
    if share == 0 {
        100_000_000
    } else {
        share as nat
    }
}

/// The time between two renewals of a lease of `ttl`.
pub fn renewal_interval(ttl: TimeSpan, percent_left: u32) -> (r: TimeSpan)
    requires
        ttl.wf(),
    ensures
        r.wf(),
        r.length() == renewal_nanos(ttl.length(), percent_left),
{
    let percent: u32 = if percent_left < 1 {
        1
    } else if percent_left > 99 {
        99
    } else {
        percent_left
    };
    let share: TimeSpan = ttl.saturating_times(100 - percent).divided(100);
    if share.is_zero() {
        TimeSpan::from_millis(100)
    } else {
        share
    }
}

/// What the background renewal of a lease does next.
#[derive(Clone, Copy, Debug, PartialEq, Eq, Structural)]
pub enum Upkeep {
    /// Wait, then look at the lease.
    Wait { span: TimeSpan },
    /// Renew the lease.
    Renew,
    /// Leave the lease alone from now on.
    Stop,
}

/// What is due after a wait, for a lease that its holder has or has dropped.
pub open spec fn upkeep_due(lease: Option<Lease>) -> Upkeep {
    if lease is Some && !lease->0.released {
        Upkeep::Renew
    } else {
        Upkeep::Stop
    }
}

/// How the upkeep goes on after a renewal that was reported so.
pub open spec fn upkeep_after(reported: Result<Seq<char>, Fault>, interval: TimeSpan) -> Upkeep {
    if reported is Ok {
        Upkeep::Wait { span: interval }
    } else {
        Upkeep::Stop
    }
}

/// At first: the lease was just acquired, so the renewal waits.
pub fn upkeep_at_first(interval: TimeSpan) -> (r: Upkeep)
    ensures
        r == (Upkeep::Wait { span: interval }),
{
    Upkeep::Wait { span: interval }
}

/// After a wait: a lease that was given up is left alone, and so is one whose
/// holder has dropped it (`None`).
pub fn upkeep_after_wait(lease: Option<&LeaseState>) -> (r: Upkeep)
    ensures
        r == match lease {
            Some(lease) => if lease@.released {
                Upkeep::Stop
            } else {
                Upkeep::Renew
            },
            None => Upkeep::Stop,
        },
        r == upkeep_due(
            match lease {
                Some(lease) => Some(lease@),
                None => None,
            },
        ),
{
    match lease {
        Some(lease) => if lease.released {
            Upkeep::Stop
        } else {
            Upkeep::Renew
        },
        None => Upkeep::Stop,
    }
}

/// After a renewal: one that failed is the last one.
pub fn upkeep_after_renewal(
    renewed: &Result<String, ClusterError>,
    interval: TimeSpan,
) -> (r: Upkeep)
    ensures
        r == if renewed is Ok {
            (Upkeep::Wait { span: interval })
        } else {
            Upkeep::Stop
        },
        r == upkeep_after(renewed.content(), interval),
{
    match renewed {
        Ok(_) => Upkeep::Wait { span: interval },
        Err(_) => Upkeep::Stop,
    }
}

// ---------------------------------------------------------------------------
// renew
// ---------------------------------------------------------------------------

/// How a renewal ended.
#[derive(Debug)]
pub enum Renewal {
    /// The lease lasts until `expires_at` now.
    Renewed { expires_at: String },
    /// The lease is no longer held.
    Lapsed,
    /// etcd could not be asked.
    Failed { error: ClusterError },
}

/// The content of a [`Renewal`].
pub enum Renewed {
    Until(Seq<char>),
    Lapsed,
    Failed(Fault),
}

impl Outcome for Renewal {
    type Content = Renewed;

    open spec fn content(&self) -> Renewed {
        match self {
            Renewal::Renewed { expires_at } => Renewed::Until(expires_at@),
            Renewal::Lapsed => Renewed::Lapsed,
            Renewal::Failed { error } => Renewed::Failed(error@),
        }
    }
}

/// Renewing a lease: one heartbeat on its keep-alive exchange.
#[derive(Debug)]
pub enum RenewOp {
    /// Waits for the exchange to open.
    Open,
    /// Waits for the heartbeat to be sent.
    Beat,
    /// Waits for the answer to the heartbeat.
    Hear,
    /// Waits for the time of day.
    Clock { ttl: i64 },
}

/// The content of a [`RenewOp`].
pub enum Renewing {
    Open,
    Beat,
    Hear,
    Clock(i64),
}

impl View for RenewOp {
    type V = Renewing;

    open spec fn view(&self) -> Renewing {
        match self {
            RenewOp::Open => Renewing::Open,
            RenewOp::Beat => Renewing::Beat,
            RenewOp::Hear => Renewing::Hear,
            RenewOp::Clock { ttl } => Renewing::Clock(*ttl),
        }
    }
}

/// What [`RenewOp`] results in.
pub type RenewNext = Next<Renewing, Renewed>;

/// How a renewal begins: of a lease that is gone nothing is asked.
pub open spec fn renew_first(lease: Option<Lease>) -> RenewNext {
    match lease {
        Some(lease) => if lease.released {
            Next::Finished(Renewed::Lapsed)
        } else {
            Next::Ask(Call::LeaseKeepAlive(lease.id), Renewing::Open)
        },
        None => Next::Finished(Renewed::Lapsed),
    }
}

/// The replies that a renewal can go on with.
pub open spec fn renew_accepts(state: Renewing, answer: Answer) -> bool {
    match state {
        Renewing::Open => fits(Kind::Done, answer),
        Renewing::Beat => fits(Kind::Done, answer),
        Renewing::Hear => fits(Kind::Heartbeat, answer),
        Renewing::Clock(ttl) => ttl > 0 && end_can_be_told(answer, seconds(ttl as u64)),
    }
}

/// How a renewal goes on. A lease that etcd extends by nothing has lapsed.
pub open spec fn renew_next(state: Renewing, answer: Answer) -> RenewNext {
    match (state, answer) {
        (Renewing::Open, Answer::Failed(detail)) => Next::Finished(
            Renewed::Failed(call_failed("lease_keep_alive"@, detail)),
        ),
        (Renewing::Open, Answer::Done) => Next::Ask(Call::SendHeartbeat, Renewing::Beat),
        (Renewing::Beat, Answer::Failed(detail)) => Next::Finished(
            Renewed::Failed(call_failed("keep_alive heartbeat"@, detail)),
        ),
        (Renewing::Beat, Answer::Done) => Next::Ask(Call::ReadHeartbeat, Renewing::Hear),
        (Renewing::Hear, Answer::Failed(detail)) => Next::Finished(
            Renewed::Failed(call_failed("keep_alive recv"@, detail)),
        ),
        (Renewing::Hear, Answer::Heartbeat(granted)) => match granted {
            Some(ttl) => if ttl > 0 {
                Next::Ask(Call::ReadClock, Renewing::Clock(ttl))
            } else {
                Next::Finished(Renewed::Lapsed)
            },
            None => Next::Finished(Renewed::Lapsed),
        },
        (Renewing::Clock(ttl), Answer::Clock(now)) => Next::Finished(
            Renewed::Until(rfc3339(end_second(now, seconds(ttl as u64)))),
        ),
        _ => arbitrary(),
    }
}

/// Begins to renew a lease; `None` where its holder has dropped it.
pub fn renew(lease: Option<&LeaseState>) -> (r: Step<RenewOp, Renewal>)
    ensures
        r@ == renew_first(
            match lease {
                Some(lease) => Some(lease@),
                None => None,
            },
        ),
{
    match lease {
        Some(lease) => if lease.released {
            Step::Finished { result: Renewal::Lapsed }
        } else {
            Step::Ask {
                request: Request::LeaseKeepAlive { lease: lease.lease_id },
                state: RenewOp::Open,
            }
        },
        None => Step::Finished { result: Renewal::Lapsed },
    }
}

impl RenewOp {
    /// Whether the operation can go on with `reply`.
    pub fn accepts(&self, reply: &Reply) -> (r: bool)
        ensures
            r == renew_accepts(self@, reply@),
    {
        match self {
            RenewOp::Open => reply.is_for(Kind::Done),
            RenewOp::Beat => reply.is_for(Kind::Done),
            RenewOp::Hear => reply.is_for(Kind::Heartbeat),
            RenewOp::Clock { ttl } => *ttl > 0 && is_clock_within(
                reply,
                TimeSpan::from_secs(*ttl as u64),
            ),
        }
    }

    /// Goes on with the reply to the call that was asked for.
    pub fn step(self, reply: Reply) -> (r: Step<RenewOp, Renewal>)
        requires
            renew_accepts(self@, reply@),
        ensures
            r@ == renew_next(self@, reply@),
    {
        match self {
            RenewOp::Open => match reply {
                Reply::Failed { detail } => Step::Finished {
                    result: Renewal::Failed {
                        error: backend_unavailable("lease_keep_alive", detail.as_str()),
                    },
                },
                Reply::Done => Step::Ask { request: Request::SendHeartbeat, state: RenewOp::Beat },
                _ => unreached(),
            },
            RenewOp::Beat => match reply {
                Reply::Failed { detail } => Step::Finished {
                    result: Renewal::Failed {
                        error: backend_unavailable("keep_alive heartbeat", detail.as_str()),
                    },
                },
                Reply::Done => Step::Ask { request: Request::ReadHeartbeat, state: RenewOp::Hear },
                _ => unreached(),
            },
            RenewOp::Hear => match reply {
                Reply::Failed { detail } => Step::Finished {
                    result: Renewal::Failed {
                        error: backend_unavailable("keep_alive recv", detail.as_str()),
                    },
                },
                Reply::Heartbeat { ttl: Some(ttl) } => if ttl > 0 {
                    Step::Ask { request: Request::ReadClock, state: RenewOp::Clock { ttl } }
                } else {
                    Step::Finished { result: Renewal::Lapsed }
                },
                Reply::Heartbeat { ttl: None } => Step::Finished { result: Renewal::Lapsed },
                _ => unreached(),
            },
            RenewOp::Clock { ttl } => match reply {
                Reply::Clock { now } => Step::Finished {
                    result: Renewal::Renewed {
                        expires_at: rfc3339_after(now, TimeSpan::from_secs(ttl as u64)),
                    },
                },
                _ => unreached(),
            },
        }
    }
}

/// What the holder of a lease is told of a renewal.
pub open spec fn renewal_report(renewed: Renewed) -> Result<Seq<char>, Fault> {
    match renewed {
        Renewed::Until(expires_at) => Ok(expires_at),
        Renewed::Lapsed => Err(Fault::LeaseExpired),
        Renewed::Failed(fault) => Err(fault),
    }
}

/// The lease after a renewal: it lasts longer, or is known to be gone, or is
/// as it was.
pub open spec fn after_renewal(lease: Lease, renewed: Renewed) -> Lease {
    match renewed {
        Renewed::Until(expires_at) => Lease { expires_at, ..lease },
        Renewed::Lapsed => Lease { released: true, ..lease },
        Renewed::Failed(_) => lease,
    }
}

impl Renewal {
    /// The report for the holder: when the lease lapses now, or why it could
    /// not be renewed.
    pub fn report(self) -> (r: Result<String, ClusterError>)
        ensures
            r.content() == renewal_report(self.content()),
    {
        match self {
            Renewal::Renewed { expires_at } => Ok(expires_at),
            Renewal::Lapsed => Err(ClusterError::LeaseExpired),
            Renewal::Failed { error } => Err(error),
        }
    }
}

impl LeaseState {
    /// Takes the end of a renewal over and reports it.
    pub fn settle(&mut self, renewal: Renewal) -> (r: Result<String, ClusterError>)
        ensures
            final(self)@ == after_renewal(old(self)@, renewal.content()),
            r.content() == renewal_report(renewal.content()),
    {
        match &renewal {
            Renewal::Renewed { expires_at } => {
                self.expires_at = expires_at.clone();
            },
            Renewal::Lapsed => {
                self.released = true;
            },
            Renewal::Failed { .. } => {},
        }
        renewal.report()
    }
}

// ---------------------------------------------------------------------------
// release
// ---------------------------------------------------------------------------

/// Giving a lease up. The calls may fail; then the etcd lease lapses by
/// itself.
#[derive(Debug)]
pub enum ReleaseOp {
    /// Waits for the renewal in the background to stop.
    Stop { lock_key: String, lease: i64 },
    /// Waits for the key to be given up.
    Unlock { lease: i64 },
    /// Waits for the etcd lease to be revoked.
    Revoke,
}

/// The content of a [`ReleaseOp`].
pub enum Releasing {
    Stop(Seq<char>, i64),
    Unlock(i64),
    Revoke,
}

impl View for ReleaseOp {
    type V = Releasing;

    open spec fn view(&self) -> Releasing {
        match self {
            ReleaseOp::Stop { lock_key, lease } => Releasing::Stop(lock_key@, *lease),
            ReleaseOp::Unlock { lease } => Releasing::Unlock(*lease),
            ReleaseOp::Revoke => Releasing::Revoke,
        }
    }
}

/// What [`ReleaseOp`] results in.
pub type ReleaseNext = Next<Releasing, Result<(), Fault>>;

/// How giving up begins: a lease that was given up before needs nothing, nor
/// does one whose holder has dropped it (`None`).
pub open spec fn release_first(lease: Option<Lease>) -> ReleaseNext {
    match lease {
        Some(lease) => if lease.released {
            Next::Finished(Ok(()))
        } else {
            Next::Ask(Call::StopRenewal, Releasing::Stop(lease.lock_key, lease.id))
        },
        None => Next::Finished(Ok(())),
    }
}

/// How giving up goes on, whether or not a call succeeded.
pub open spec fn release_next(state: Releasing) -> ReleaseNext {
    match state {
        Releasing::Stop(lock_key, lease) => Next::Ask(
            Call::Unlock(lock_key),
            Releasing::Unlock(lease),
        ),
        Releasing::Unlock(lease) => Next::Ask(Call::LeaseRevoke(lease), Releasing::Revoke),
        Releasing::Revoke => Next::Finished(Ok(())),
    }
}

/// Begins to give a lease up. From now on it counts as given up. `None` where
/// its holder has dropped it.
pub fn release(lease: Option<&mut LeaseState>) -> (r: Step<ReleaseOp, Result<(), ClusterError>>)
    ensures
        match lease {
            Some(lease) => {
                &&& final(lease)@ == (Lease { released: true, ..(*lease)@ })
                &&& r@ == release_first(Some((*lease)@))
            },
            None => r@ == release_first(None),
        },
{
    match lease {
        Some(lease) => {
            if lease.released {
                return Step::Finished { result: Ok(()) };
            }
            lease.released = true;
            Step::Ask {
                request: Request::StopRenewal,
                state: ReleaseOp::Stop {
                    lock_key: lease.lock_key.clone(),
                    lease: lease.lease_id,
                },
            }
        },
        None => Step::Finished { result: Ok(()) },
    }
}

impl ReleaseOp {
    /// Whether the operation can go on with `reply`.
    pub fn accepts(&self, reply: &Reply) -> (r: bool)
        ensures
            r == fits(Kind::Done, reply@),
    {
        reply.is_for(Kind::Done)
    }

    /// Goes on after the call that was asked for.
    pub fn step(self, reply: Reply) -> (r: Step<ReleaseOp, Result<(), ClusterError>>)
        requires
            fits(Kind::Done, reply@),
        ensures
            r@ == release_next(self@),
    {
        match self {
            ReleaseOp::Stop { lock_key, lease } => Step::Ask {
                request: Request::Unlock { key: lock_key },
                state: ReleaseOp::Unlock { lease },
            },
            ReleaseOp::Unlock { lease } => Step::Ask {
                request: Request::LeaseRevoke { lease },
                state: ReleaseOp::Revoke,
            },
            ReleaseOp::Revoke => Step::Finished { result: Ok(()) },
        }
    }
}

} // verus!
