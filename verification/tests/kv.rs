//! The key-value store, against a small etcd held in memory.
use mcpg_plugin_cluster_etcd::kv::{
    lease_secs, DeleteOp, Entry, EtcdKv, ExpireOp, GetOp, ListOp, PutIfAbsentOp, PutOp,
};
use mcpg_plugin_cluster_etcd::protocol::{KeyValue, Reply, Request, Step};
use mcpg_plugin_cluster_etcd::time::{TimeSpan, UnixTime};
use mcpg_plugin_cluster_etcd::ClusterError;
use std::collections::BTreeMap;

const NOW: UnixTime = UnixTime { secs: 1_000, nanos: 5 };

#[derive(Default)]
struct Etcd {
    keys: BTreeMap<String, (Vec<u8>, i64, i64)>,
    leases: BTreeMap<i64, i64>,
    granted: i64,
    /// The calls that fail.
    broken: Vec<&'static str>,
    log: Vec<String>,
}

impl Etcd {
    fn write(&mut self, key: String, value: Vec<u8>, lease: Option<i64>) {
        let version = self.keys.get(&key).map_or(1, |held| held.2 + 1);
        self.keys.insert(key, (value, lease.unwrap_or(0), version));
    }

    fn record(&self, key: &str) -> KeyValue {
        let (value, lease, version) = self.keys[key].clone();
        KeyValue { key: key.as_bytes().to_vec(), value, lease, version }
    }

    fn answer(&mut self, request: Request) -> Reply {
        let line = format!("{request:?}");
        let broken = self.broken.iter().any(|call| line.starts_with(call));
        self.log.push(line);
        if broken {
            return Reply::Failed { detail: "down".to_owned() };
        }
        match request {
            Request::Get { key } => Reply::KeyValues {
                kvs: if self.keys.contains_key(&key) { vec![self.record(&key)] } else { vec![] },
            },
            Request::GetPrefix { prefix, limit } => {
                let most = limit.filter(|l| *l > 0).map_or(usize::MAX, |l| l as usize);
                let found: Vec<String> = self
                    .keys
                    .keys()
                    .filter(|k| k.starts_with(&prefix))
                    .take(most)
                    .cloned()
                    .collect();
                Reply::KeyValues { kvs: found.iter().map(|k| self.record(k)).collect() }
            }
            Request::Put { key, value, lease } => {
                self.write(key, value, lease);
                Reply::Done
            }
            Request::Delete { key } => {
                Reply::Deleted { count: self.keys.remove(&key).map_or(0, |_| 1) }
            }
            Request::PutIfAbsent { key, value, lease } => {
                let succeeded = !self.keys.contains_key(&key);
                if succeeded {
                    self.write(key, value, lease);
                }
                Reply::Compared { succeeded }
            }
            Request::LeaseGrant { ttl } => {
                self.granted += 1;
                self.leases.insert(self.granted, ttl);
                Reply::Granted { lease: self.granted }
            }
            Request::LeaseRevoke { lease } => {
                self.leases.remove(&lease);
                self.keys.retain(|_, held| held.1 != lease);
                Reply::Done
            }
            Request::LeaseTimeToLive { lease } => {
                Reply::TimeToLive { ttl: self.leases.get(&lease).copied().unwrap_or(-1) }
            }
            Request::ReadClock => Reply::Clock { now: NOW },
            other => panic!("unexpected {other:?}"),
        }
    }
}

fn get(etcd: &mut Etcd, mut step: Step<GetOp, Result<Option<Entry>, ClusterError>>) -> Result<Option<Entry>, ClusterError> {
    loop {
        match step {
            Step::Finished { result } => return result,
            Step::Ask { request, state } => {
                let reply = etcd.answer(request);
                assert!(state.accepts(&reply));
                step = state.step(reply);
            }
        }
    }
}

fn put(etcd: &mut Etcd, mut step: Step<PutOp, Result<(), ClusterError>>) -> Result<(), ClusterError> {
    loop {
        match step {
            Step::Finished { result } => return result,
            Step::Ask { request, state } => {
                let reply = etcd.answer(request);
                assert!(state.accepts(&reply));
                step = state.step(reply);
            }
        }
    }
}

fn claim(etcd: &mut Etcd, mut step: Step<PutIfAbsentOp, Result<bool, ClusterError>>) -> Result<bool, ClusterError> {
    loop {
        match step {
            Step::Finished { result } => return result,
            Step::Ask { request, state } => {
                let reply = etcd.answer(request);
                assert!(state.accepts(&reply));
                step = state.step(reply);
            }
        }
    }
}

fn delete(etcd: &mut Etcd, mut step: Step<DeleteOp, Result<bool, ClusterError>>) -> Result<bool, ClusterError> {
    loop {
        match step {
            Step::Finished { result } => return result,
            Step::Ask { request, state } => {
                let reply = etcd.answer(request);
                assert!(state.accepts(&reply));
                step = state.step(reply);
            }
        }
    }
}

fn list(
    etcd: &mut Etcd,
    mut step: Step<ListOp, Result<Vec<(String, Entry)>, ClusterError>>,
) -> Result<Vec<(String, Entry)>, ClusterError> {
    loop {
        match step {
            Step::Finished { result } => return result,
            Step::Ask { request, state } => {
                let reply = etcd.answer(request);
                assert!(state.accepts(&reply));
                step = state.step(reply);
            }
        }
    }
}

fn expire(etcd: &mut Etcd, mut step: Step<ExpireOp, Result<bool, ClusterError>>) -> Result<bool, ClusterError> {
    loop {
        match step {
            Step::Finished { result } => return result,
            Step::Ask { request, state } => {
                let reply = etcd.answer(request);
                assert!(state.accepts(&reply));
                step = state.step(reply);
            }
        }
    }
}

fn store() -> EtcdKv {
    EtcdKv::new("/mcpg/kv/".to_owned())
}

fn reason<T: std::fmt::Debug>(result: Result<T, ClusterError>) -> String {
    match result.unwrap_err() {
        ClusterError::BackendUnavailable { reason } => reason,
        other => panic!("{other:?}"),
    }
}

fn secs(secs: u64) -> Option<TimeSpan> {
    Some(TimeSpan::from_secs(secs))
}

#[test]
fn keys_are_prefixed_and_stripped() {
    let kv = store();
    assert_eq!(kv.full_key("a/b"), "/mcpg/kv/a/b");
    assert_eq!(kv.logical_key("/mcpg/kv/a/b"), "a/b");
    assert_eq!(kv.logical_key("/elsewhere/a"), "/elsewhere/a");
}

#[test]
fn lease_seconds_are_whole_and_at_least_one() {
    assert_eq!(lease_secs(TimeSpan::from_millis(0)), 1);
    assert_eq!(lease_secs(TimeSpan::from_millis(999)), 1);
    assert_eq!(lease_secs(TimeSpan::from_millis(1_000)), 1);
    assert_eq!(lease_secs(TimeSpan::from_millis(2_999)), 2);
    assert_eq!(lease_secs(TimeSpan::from_secs(u64::MAX)), i64::MAX);
}

#[test]
fn a_permanent_value_is_read_back() {
    let (kv, mut etcd) = (store(), Etcd::default());
    put(&mut etcd, kv.put("k", b"v".to_vec(), None)).unwrap();
    let entry = get(&mut etcd, kv.get("k")).unwrap().unwrap();
    assert_eq!(entry.bytes, b"v");
    assert_eq!(entry.expires_at, None);
    assert_eq!(etcd.leases.len(), 0);
    assert!(etcd.keys.contains_key("/mcpg/kv/k"));
}

#[test]
fn a_value_with_a_time_to_live_tells_its_expiry() {
    let (kv, mut etcd) = (store(), Etcd::default());
    put(&mut etcd, kv.put("k", b"v".to_vec(), secs(30))).unwrap();
    let entry = get(&mut etcd, kv.get("k")).unwrap().unwrap();
    assert_eq!(entry.bytes, b"v");
    assert_eq!(entry.expires_at, Some(UnixTime { secs: 1_030, nanos: 5 }));
    assert_eq!(etcd.leases.values().copied().collect::<Vec<_>>(), vec![30]);
}

#[test]
fn a_write_without_a_time_to_live_makes_the_key_permanent() {
    let (kv, mut etcd) = (store(), Etcd::default());
    put(&mut etcd, kv.put("k", b"v".to_vec(), secs(30))).unwrap();
    put(&mut etcd, kv.put("k", b"w".to_vec(), None)).unwrap();
    let entry = get(&mut etcd, kv.get("k")).unwrap().unwrap();
    assert_eq!((entry.bytes, entry.expires_at), (b"w".to_vec(), None));
}

#[test]
fn a_lapsed_lease_tells_no_expiry() {
    let (kv, mut etcd) = (store(), Etcd::default());
    put(&mut etcd, kv.put("k", b"v".to_vec(), secs(30))).unwrap();
    etcd.leases.clear();
    let entry = get(&mut etcd, kv.get("k")).unwrap().unwrap();
    assert_eq!((entry.bytes, entry.expires_at), (b"v".to_vec(), None));
    etcd.broken = vec!["LeaseTimeToLive"];
    let entry = get(&mut etcd, kv.get("k")).unwrap().unwrap();
    assert_eq!((entry.bytes, entry.expires_at), (b"v".to_vec(), None));
}

#[test]
fn a_lapsed_lease_takes_its_key_along_and_no_other() {
    let (kv, mut etcd) = (store(), Etcd::default());
    put(&mut etcd, kv.put("passing", b"v".to_vec(), secs(1))).unwrap();
    put(&mut etcd, kv.put("lasting", b"w".to_vec(), None)).unwrap();
    etcd.answer(Request::LeaseRevoke { lease: 1 });
    assert!(get(&mut etcd, kv.get("passing")).unwrap().is_none());
    assert_eq!(get(&mut etcd, kv.get("lasting")).unwrap().unwrap().bytes, b"w");
    assert!(claim(&mut etcd, kv.put_if_absent("passing", b"x".to_vec(), None)).unwrap());
}

#[test]
fn an_absent_key_is_not_found() {
    let (kv, mut etcd) = (store(), Etcd::default());
    assert!(get(&mut etcd, kv.get("k")).unwrap().is_none());
}

#[test]
fn one_of_two_claims_wins_and_the_loser_leaves_no_lease() {
    let (kv, mut etcd) = (store(), Etcd::default());
    assert!(claim(&mut etcd, kv.put_if_absent("k", b"one".to_vec(), secs(9))).unwrap());
    assert!(!claim(&mut etcd, kv.put_if_absent("k", b"two".to_vec(), secs(7))).unwrap());
    assert!(!claim(&mut etcd, kv.put_if_absent("k", b"three".to_vec(), None)).unwrap());
    assert_eq!(etcd.leases.values().copied().collect::<Vec<_>>(), vec![9]);
    assert_eq!(get(&mut etcd, kv.get("k")).unwrap().unwrap().bytes, b"one");
}

#[test]
fn a_lost_claim_is_lost_even_if_its_lease_stays() {
    let (kv, mut etcd) = (store(), Etcd::default());
    put(&mut etcd, kv.put("k", b"v".to_vec(), None)).unwrap();
    etcd.broken = vec!["LeaseRevoke"];
    assert!(!claim(&mut etcd, kv.put_if_absent("k", b"w".to_vec(), secs(7))).unwrap());
}

#[test]
fn a_removal_tells_whether_the_key_existed() {
    let (kv, mut etcd) = (store(), Etcd::default());
    put(&mut etcd, kv.put("k", b"v".to_vec(), None)).unwrap();
    assert!(delete(&mut etcd, kv.delete("k")).unwrap());
    assert!(!delete(&mut etcd, kv.delete("k")).unwrap());
    assert!(get(&mut etcd, kv.get("k")).unwrap().is_none());
}

#[test]
fn a_listing_is_ordered_limited_and_logical() {
    let (kv, mut etcd) = (store(), Etcd::default());
    for key in ["a/1", "a/2", "a/3", "b/1"] {
        let ttl = if key == "a/2" { secs(4) } else { None };
        put(&mut etcd, kv.put(key, key.as_bytes().to_vec(), ttl)).unwrap();
    }
    etcd.write("/mcpg/locks/a/0".to_owned(), vec![], None);
    let all = list(&mut etcd, kv.list_prefix("a/", usize::MAX)).unwrap();
    let keys: Vec<&str> = all.iter().map(|(k, _)| k.as_str()).collect();
    assert_eq!(keys, vec!["a/1", "a/2", "a/3"]);
    assert_eq!(all[2].1.bytes, b"a/3");
    assert_eq!(all[0].1.expires_at, None);
    assert_eq!(all[1].1.expires_at, Some(UnixTime { secs: 1_004, nanos: 5 }));
    let two = list(&mut etcd, kv.list_prefix("a/", 2)).unwrap();
    assert_eq!(two.len(), 2);
    assert!(etcd.log.iter().any(|l| l.contains("limit: Some(9223372036854775807)")));
}

#[test]
fn keys_that_are_no_text_are_listed_with_replacement_characters() {
    let kv = store();
    let step = kv.list_prefix("", 10);
    let Step::Ask { state, .. } = step else { panic!() };
    let mut key = b"/mcpg/kv/caf".to_vec();
    key.push(0xff);
    let record = KeyValue { key, value: vec![1], lease: 0, version: 1 };
    let Step::Finished { result } = state.step(Reply::KeyValues { kvs: vec![record] }) else {
        panic!()
    };
    assert_eq!(result.unwrap()[0].0, "caf\u{fffd}");
}

#[test]
fn keys_outside_ascii_are_listed_as_they_are() {
    let (kv, mut etcd) = (store(), Etcd::default());
    put(&mut etcd, kv.put("schl\u{fc}ssel/\u{1f511}", vec![7], None)).unwrap();
    let all = list(&mut etcd, kv.list_prefix("schl\u{fc}", 10)).unwrap();
    assert_eq!(all[0].0, "schl\u{fc}ssel/\u{1f511}");
}

#[test]
fn a_change_of_the_time_to_live_keeps_the_value() {
    let (kv, mut etcd) = (store(), Etcd::default());
    assert!(!expire(&mut etcd, kv.expire("k", secs(3))).unwrap());
    assert_eq!(etcd.granted, 0);
    put(&mut etcd, kv.put("k", b"v".to_vec(), None)).unwrap();
    assert!(expire(&mut etcd, kv.expire("k", secs(3))).unwrap());
    let entry = get(&mut etcd, kv.get("k")).unwrap().unwrap();
    assert_eq!(entry.bytes, b"v");
    assert_eq!(entry.expires_at, Some(UnixTime { secs: 1_003, nanos: 5 }));
    assert!(expire(&mut etcd, kv.expire("k", None)).unwrap());
    let entry = get(&mut etcd, kv.get("k")).unwrap().unwrap();
    assert_eq!((entry.bytes, entry.expires_at), (b"v".to_vec(), None));
}

#[test]
fn failed_calls_are_named() {
    let kv = store();
    let broken = |call: &'static str| Etcd { broken: vec![call], ..Etcd::default() };
    let value = || b"v".to_vec();
    assert_eq!(reason(get(&mut broken("Get"), kv.get("k"))), "etcd kv get: down");
    assert_eq!(
        reason(put(&mut broken("LeaseGrant"), kv.put("k", value(), secs(1)))),
        "etcd kv lease_grant: down"
    );
    assert_eq!(reason(put(&mut broken("Put"), kv.put("k", value(), secs(1)))), "etcd kv put: down");
    assert_eq!(reason(put(&mut broken("Put"), kv.put("k", value(), None))), "etcd kv put: down");
    assert_eq!(
        reason(claim(&mut broken("LeaseGrant"), kv.put_if_absent("k", value(), secs(1)))),
        "etcd kv lease_grant: down"
    );
    assert_eq!(
        reason(claim(&mut broken("PutIfAbsent"), kv.put_if_absent("k", value(), None))),
        "etcd kv txn: down"
    );
    assert_eq!(reason(delete(&mut broken("Delete"), kv.delete("k"))), "etcd kv delete: down");
    assert_eq!(
        reason(list(&mut broken("GetPrefix"), kv.list_prefix("", 1))),
        "etcd kv list_prefix: down"
    );
    assert_eq!(
        reason(expire(&mut broken("Get"), kv.expire("k", None))),
        "etcd kv expire get: down"
    );
    for (call, ttl, expected) in [
        ("LeaseGrant", secs(1), "etcd kv expire lease_grant: down"),
        ("Put", secs(1), "etcd kv expire put: down"),
        ("Put", None, "etcd kv expire put: down"),
    ] {
        let mut etcd = Etcd::default();
        put(&mut etcd, kv.put("k", value(), None)).unwrap();
        etcd.broken = vec![call];
        assert_eq!(reason(expire(&mut etcd, kv.expire("k", ttl))), expected);
    }
}

#[test]
fn an_expiry_out_of_range_is_not_accepted() {
    let state = GetOp::Clock { value: vec![], ttl: i64::MAX };
    assert!(!state.accepts(&Reply::Clock { now: NOW }));
    assert!(!state.accepts(&Reply::Done));
    let state = GetOp::Clock { value: vec![], ttl: 1 };
    assert!(state.accepts(&Reply::Clock { now: NOW }));
    assert!(!GetOp::Fetch.accepts(&Reply::Deleted { count: 1 }));
}
