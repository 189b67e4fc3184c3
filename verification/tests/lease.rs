//! Leases: acquiring, renewing, giving up.
use mcpg_plugin_cluster_etcd::lease::{
    acquire, release, renew, renewal_interval, try_acquire, ttl_of_ms, upkeep_after_renewal,
    upkeep_after_wait, upkeep_at_first, AcquireOp, LeaseState, ReleaseOp, RenewOp, Renewal, TryAcquireOp, Upkeep,
};
use mcpg_plugin_cluster_etcd::protocol::{Reply, Request, Step};
use mcpg_plugin_cluster_etcd::time::{TimeSpan, UnixTime};
use mcpg_plugin_cluster_etcd::ClusterError;
use std::collections::BTreeMap;

#[derive(Default)]
struct Etcd {
    /// Keys with the lease that they are attached to.
    keys: BTreeMap<String, i64>,
    leases: BTreeMap<i64, i64>,
    granted: i64,
    /// The answer to the next heartbeats.
    heartbeat: Option<i64>,
    broken: Vec<&'static str>,
    slept: Vec<u128>,
    calls: usize,
    /// How often the background renewal was stopped.
    stopped: usize,
    /// After so many waits every key is removed.
    freed_after: Option<usize>,
}

impl Etcd {
    fn answer(&mut self, request: Request) -> Reply {
        self.calls += 1;
        let line = format!("{request:?}");
        if self.broken.iter().any(|call| line.starts_with(call)) {
            return Reply::Failed { detail: "down".to_owned() };
        }
        match request {
            Request::PutIfAbsent { key, value, lease } => {
                assert!(value.is_empty());
                let succeeded = !self.keys.contains_key(&key);
                if succeeded {
                    self.keys.insert(key, lease.unwrap());
                }
                Reply::Compared { succeeded }
            }
            Request::LeaseGrant { ttl } => {
                self.granted = self.granted.wrapping_add(1);
                self.leases.insert(self.granted, ttl);
                Reply::Granted { lease: self.granted }
            }
            Request::LeaseRevoke { lease } => {
                self.leases.remove(&lease);
                self.keys.retain(|_, held| *held != lease);
                Reply::Done
            }
            Request::Unlock { key } => {
                self.keys.remove(&key);
                Reply::Done
            }
            Request::StopRenewal => {
                self.stopped += 1;
                Reply::Done
            }
            Request::LeaseKeepAlive { .. } | Request::SendHeartbeat => Reply::Done,
            Request::ReadHeartbeat => Reply::Heartbeat { ttl: self.heartbeat },
            Request::ReadClock => {
                Reply::Clock { now: UnixTime { secs: 1_700_000_000, nanos: 0 } }
            }
            Request::Sleep { span } => {
                self.slept.push(span.as_nanos() / 1_000_000);
                if self.freed_after == Some(self.slept.len()) {
                    self.keys.clear();
                }
                Reply::Done
            }
            other => panic!("unexpected {other:?}"),
        }
    }
}

fn try_run(
    etcd: &mut Etcd,
    mut step: Step<TryAcquireOp, Result<Option<LeaseState>, ClusterError>>,
) -> Result<Option<LeaseState>, ClusterError> {
    loop {
        match step {
            Step::Finished { result } => return result,
            Step::Ask { request, state } => {
                let reply = etcd.answer(request);
                assert!(state.accepts(&reply));
                step = state.step(reply);
            }
        }
    }
}

fn run(
    etcd: &mut Etcd,
    mut step: Step<AcquireOp, Result<LeaseState, ClusterError>>,
) -> Result<LeaseState, ClusterError> {
    loop {
        match step {
            Step::Finished { result } => return result,
            Step::Ask { request, state } => {
                let reply = etcd.answer(request);
                assert!(state.accepts(&reply));
                step = state.step(reply);
            }
        }
    }
}

fn renewed(etcd: &mut Etcd, mut step: Step<RenewOp, Renewal>) -> Renewal {
    loop {
        match step {
            Step::Finished { result } => return result,
            Step::Ask { request, state } => {
                let reply = etcd.answer(request);
                assert!(state.accepts(&reply));
                step = state.step(reply);
            }
        }
    }
}

fn released(etcd: &mut Etcd, mut step: Step<ReleaseOp, Result<(), ClusterError>>) {
    loop {
        match step {
            Step::Finished { result } => return result.unwrap(),
            Step::Ask { request, state } => {
                let reply = etcd.answer(request);
                assert!(state.accepts(&reply));
                step = state.step(reply);
            }
        }
    }
}

fn ten() -> TimeSpan {
    TimeSpan::from_secs(10)
}

fn held() -> (Etcd, LeaseState) {
    let mut etcd = Etcd::default();
    let lease = try_run(&mut etcd, try_acquire("/mcpg/locks/a", ten())).unwrap().unwrap();
    (etcd, lease)
}

fn reason(error: ClusterError) -> String {
    match error {
        ClusterError::BackendUnavailable { reason } => reason,
        other => panic!("{other:?}"),
    }
}

#[test]
fn a_free_lock_is_taken() {
    let (etcd, lease) = held();
    assert_eq!(lease.lock_key(), "/mcpg/locks/a/lock");
    assert_eq!(lease.expires_at(), "2023-11-14T22:13:30Z");
    assert_eq!(lease.fencing_token(), 1);
    assert!(!lease.is_released());
    assert_eq!(etcd.keys["/mcpg/locks/a/lock"], 1);
    assert_eq!(etcd.leases[&1], 10);
}

#[test]
fn a_held_lock_is_not_taken_and_no_lease_stays() {
    let (mut etcd, _lease) = held();
    assert!(try_run(&mut etcd, try_acquire("/mcpg/locks/a", ten())).unwrap().is_none());
    assert_eq!(etcd.leases.len(), 1);
    etcd.broken = vec!["LeaseRevoke"];
    assert!(try_run(&mut etcd, try_acquire("/mcpg/locks/a", ten())).unwrap().is_none());
}

#[test]
fn waiting_contends_for_the_same_key_and_backs_off() {
    let (mut etcd, _lease) = held();
    etcd.freed_after = Some(9);
    let lease = run(&mut etcd, acquire("/mcpg/locks/a", ten())).unwrap();
    assert_eq!(etcd.slept, vec![50, 100, 200, 400, 800, 1_600, 2_000, 2_000, 2_000]);
    assert_eq!(lease.lock_key(), "/mcpg/locks/a/lock");
    assert_eq!(lease.fencing_token(), 11);
    // What waiting has taken, an attempt does not get.
    assert!(try_run(&mut etcd, try_acquire("/mcpg/locks/a", ten())).unwrap().is_none());
}

#[test]
fn a_free_lock_is_taken_without_waiting() {
    let mut etcd = Etcd::default();
    assert!(run(&mut etcd, acquire("n", ten())).is_ok());
    assert!(etcd.slept.is_empty());
}

#[test]
fn a_lease_needs_a_name() {
    let mut etcd = Etcd::default();
    let message = |error| match error {
        ClusterError::InvalidReference { message } => message,
        other => panic!("{other:?}"),
    };
    let error = try_run(&mut etcd, try_acquire(" \t", ten())).unwrap_err();
    assert_eq!(message(error), "lease key must not be empty");
    let error = run(&mut etcd, acquire("", ten())).unwrap_err();
    assert_eq!(message(error), "lease key must not be empty");
    assert_eq!(etcd.calls, 0);
}

#[test]
fn failed_acquisitions_name_the_call() {
    let mut etcd = Etcd { broken: vec!["LeaseGrant"], ..Etcd::default() };
    let error = try_run(&mut etcd, try_acquire("n", ten())).unwrap_err();
    assert_eq!(reason(error), "lease_grant: down");
    let error = run(&mut etcd, acquire("n", ten())).unwrap_err();
    assert_eq!(reason(error), "lease_grant: down");
    let mut etcd = Etcd { broken: vec!["PutIfAbsent"], ..Etcd::default() };
    let error = try_run(&mut etcd, try_acquire("n", ten())).unwrap_err();
    assert_eq!(reason(error), "txn: down");
}

#[test]
fn the_granted_seconds_are_whole_and_at_least_one() {
    let granted = |ttl: TimeSpan| {
        let mut etcd = Etcd::default();
        let step = try_acquire("n", ttl);
        let Step::Ask { request: Request::LeaseGrant { ttl }, state } = step else { panic!() };
        assert!(state.accepts(&etcd.answer(Request::LeaseGrant { ttl })));
        ttl
    };
    assert_eq!(granted(TimeSpan::from_millis(1)), 1);
    assert_eq!(granted(TimeSpan::from_millis(1_900)), 1);
    assert_eq!(granted(TimeSpan::from_secs(61)), 61);
    assert_eq!(granted(TimeSpan::from_secs(i64::MAX as u64)), i64::MAX);
    assert_eq!(granted(TimeSpan::from_secs(1 << 63)), i64::MIN);
    assert_eq!(granted(TimeSpan::from_secs(u64::MAX)), -1);
}

#[test]
fn milliseconds_are_at_least_one() {
    assert_eq!(ttl_of_ms(0), TimeSpan::from_millis(1));
    assert_eq!(ttl_of_ms(1), TimeSpan::from_millis(1));
    assert_eq!(ttl_of_ms(1_500), TimeSpan::from_millis(1_500));
}

#[test]
fn a_renewal_moves_the_expiry() {
    let (mut etcd, mut lease) = held();
    etcd.heartbeat = Some(40);
    let renewal = renewed(&mut etcd, renew(Some(&lease)));
    assert_eq!(lease.settle(renewal).unwrap(), "2023-11-14T22:14:00Z");
    assert_eq!(lease.expires_at(), "2023-11-14T22:14:00Z");
    assert!(!lease.is_released());
    assert_eq!(lease.fencing_token(), 1);
}

#[test]
fn a_lapsed_lease_is_found_out_once() {
    for heartbeat in [Some(0), Some(-1), None] {
        let (mut etcd, mut lease) = held();
        etcd.heartbeat = heartbeat;
        let renewal = renewed(&mut etcd, renew(Some(&lease)));
        assert!(matches!(lease.settle(renewal), Err(ClusterError::LeaseExpired)));
        assert!(lease.is_released());
        let calls = etcd.calls;
        let renewal = renewed(&mut etcd, renew(Some(&lease)));
        assert!(matches!(lease.settle(renewal), Err(ClusterError::LeaseExpired)));
        let step = release(Some(&mut lease));
        released(&mut etcd, step);
        assert_eq!(etcd.calls, calls);
    }
}

#[test]
fn failed_renewals_name_the_call_and_change_nothing() {
    for (call, expected) in [
        ("LeaseKeepAlive", "lease_keep_alive: down"),
        ("SendHeartbeat", "keep_alive heartbeat: down"),
        ("ReadHeartbeat", "keep_alive recv: down"),
    ] {
        let (mut etcd, mut lease) = held();
        etcd.broken = vec![call];
        let before = lease.expires_at();
        let renewal = renewed(&mut etcd, renew(Some(&lease)));
        assert_eq!(reason(lease.settle(renewal).unwrap_err()), expected);
        assert!(!lease.is_released());
        assert_eq!(lease.expires_at(), before);
    }
}

#[test]
fn a_dropped_lease_cannot_be_renewed() {
    let mut etcd = Etcd::default();
    let renewal = renewed(&mut etcd, renew(None));
    assert!(matches!(renewal.report(), Err(ClusterError::LeaseExpired)));
    assert_eq!(etcd.calls, 0);
}

#[test]
fn giving_up_frees_the_lock_once() {
    let (mut etcd, mut lease) = held();
    let step = release(Some(&mut lease));
    assert!(lease.is_released());
    released(&mut etcd, step);
    assert!(etcd.keys.is_empty());
    assert!(etcd.leases.is_empty());
    assert_eq!(etcd.stopped, 1);
    let calls = etcd.calls;
    let step = release(Some(&mut lease));
    released(&mut etcd, step);
    assert_eq!(etcd.calls, calls);
    assert!(try_run(&mut etcd, try_acquire("/mcpg/locks/a", ten())).unwrap().is_some());
}

#[test]
fn giving_up_succeeds_whatever_etcd_says() {
    let (mut etcd, mut lease) = held();
    etcd.broken = vec!["Unlock"];
    let step = release(Some(&mut lease));
    released(&mut etcd, step);
    // The revocation has taken the key along.
    assert!(etcd.keys.is_empty());
    let (mut etcd, mut lease) = held();
    etcd.broken = vec!["Unlock", "LeaseRevoke"];
    let step = release(Some(&mut lease));
    released(&mut etcd, step);
    assert_eq!(etcd.keys.len(), 1);
}

#[test]
fn negative_ids_have_large_tokens() {
    let token = |id: i64| {
        let mut etcd = Etcd { granted: id.wrapping_sub(1), ..Etcd::default() };
        try_run(&mut etcd, try_acquire("n", ten())).unwrap().unwrap().fencing_token()
    };
    assert_eq!(token(-1), u64::MAX);
    assert_eq!(token(i64::MIN), 1 << 63);
    assert_eq!(token(i64::MAX), i64::MAX as u64);
}

#[test]
fn a_dropped_lease_needs_no_giving_up() {
    let mut etcd = Etcd::default();
    released(&mut etcd, release(None));
    assert_eq!(etcd.calls, 0);
}

#[test]
fn renewals_leave_the_configured_share() {
    assert_eq!(renewal_interval(ten(), 30), TimeSpan::from_secs(7));
    assert_eq!(renewal_interval(ten(), 0), TimeSpan::from_millis(9_900));
    assert_eq!(renewal_interval(ten(), 1), TimeSpan::from_millis(9_900));
    assert_eq!(renewal_interval(ten(), 99), TimeSpan::from_millis(100));
    assert_eq!(renewal_interval(ten(), u32::MAX), TimeSpan::from_millis(100));
    assert_eq!(renewal_interval(TimeSpan::from_millis(0), 30), TimeSpan::from_millis(100));
    let one = TimeSpan { secs: 0, nanos: 1 };
    assert_eq!(renewal_interval(one, 30), TimeSpan::from_millis(100));
    let longest = TimeSpan { secs: u64::MAX, nanos: 999_999_999 };
    assert_eq!(renewal_interval(longest, 30), longest.divided(100));
}

#[test]
fn the_upkeep_ends_with_the_lease() {
    let (_, mut lease) = held();
    assert_eq!(upkeep_at_first(ten()), Upkeep::Wait { span: ten() });
    assert_eq!(upkeep_after_wait(Some(&lease)), Upkeep::Renew);
    assert_eq!(
        upkeep_after_renewal(&Ok("later".to_owned()), ten()),
        Upkeep::Wait { span: ten() }
    );
    assert_eq!(upkeep_after_renewal(&Err(ClusterError::LeaseExpired), ten()), Upkeep::Stop);
    release(Some(&mut lease));
    assert_eq!(upkeep_after_wait(Some(&lease)), Upkeep::Stop);
    assert_eq!(upkeep_after_wait(None), Upkeep::Stop);
}

#[test]
fn a_clock_at_the_end_of_the_calendar_is_not_accepted() {
    let state = TryAcquireOp::Clock { lock_key: "k".to_owned(), ttl: ten(), lease: 1 };
    let late = UnixTime { secs: 8_210_266_876_799, nanos: 0 };
    assert!(!state.accepts(&Reply::Clock { now: late }));
    assert!(!state.accepts(&Reply::Done));
    assert!(!RenewOp::Clock { ttl: 1 }.accepts(&Reply::Clock { now: late }));
}
