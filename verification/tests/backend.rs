//! The coordinator: starting, connecting, peers, events.
use mcpg_plugin_cluster_etcd::backend::{
    module_path_prefix, ConnectOp, Connection, PluginClass, Surroundings,
};
use mcpg_plugin_cluster_etcd::config::{
    default_event_ttl_secs, default_key_prefix, default_renew_pct,
};
use mcpg_plugin_cluster_etcd::events::{DeliveryOp, PublishOp, PublishedMessage, SubscribeOp};
use mcpg_plugin_cluster_etcd::peers::{
    ClusterPeer, ListPeersOp, PeerEvent, PeerHealth, PeerWatchOp, WatchPeersOp,
};
use mcpg_plugin_cluster_etcd::protocol::{KeyValue, Reply, Request, Step, WatchEvent};
use mcpg_plugin_cluster_etcd::time::{TimeSpan, UnixTime};
use mcpg_plugin_cluster_etcd::tls::{resolve_pem, TlsOp, TlsSettings};
use mcpg_plugin_cluster_etcd::{
    AuthConfig, ClusterError, ConfigError, EtcdBackend, EtcdConfig, TlsConfig,
};

const PEM: &str = " \n-----BEGIN CERTIFICATE-----\nMIIB\n-----END CERTIFICATE-----";

fn config(endpoints: &[&str]) -> EtcdConfig {
    EtcdConfig {
        endpoints: endpoints.iter().map(|e| e.to_string()).collect(),
        auth: None,
        tls: None,
        key_prefix: default_key_prefix(),
        node_id: None,
        event_ttl_secs: default_event_ttl_secs(),
        lease_renew_before_expiry_percent: default_renew_pct(),
    }
}

fn tls(ca: Option<&str>, cert: Option<&str>, key: Option<&str>) -> TlsConfig {
    TlsConfig {
        ca_cert: ca.map(str::to_owned),
        client_cert: cert.map(str::to_owned),
        client_key: key.map(str::to_owned),
        domain_name: None,
    }
}

fn around() -> Surroundings {
    Surroundings {
        version: "0.1.0".to_owned(),
        module: "mcpg_plugin_cluster_etcd::app::run".to_owned(),
        hostname: Some("pod-7".to_owned()),
        now: UnixTime { secs: 1_700_000_000, nanos: 9 },
    }
}

fn backend() -> EtcdBackend {
    EtcdBackend::from_config_json(false, Ok(config(&["http://a:1", "http://b:2"])), around())
        .unwrap()
}

fn failed() -> Reply {
    Reply::Failed { detail: "down".to_owned() }
}

fn refused() -> Reply {
    Reply::Refused { error: ClusterError::BackendUnavailable { reason: "etcd connect: no".to_owned() } }
}

fn reason(error: ClusterError) -> String {
    match error {
        ClusterError::BackendUnavailable { reason } => reason,
        other => panic!("{other:?}"),
    }
}

// -- starting ---------------------------------------------------------------

#[test]
fn a_sound_configuration_starts_the_coordinator() {
    let backend = backend();
    let manifest = backend.manifest();
    assert_eq!(manifest.id, "dev.mcpg.cluster.etcd");
    assert_eq!(manifest.version, "0.1.0");
    assert_eq!(manifest.name, "etcd Cluster Coordinator");
    assert_eq!(manifest.plugin_class, PluginClass::Cluster);
    assert_eq!(manifest.protocol_version, "1.0");
    assert_eq!(manifest.provides, vec!["bus", "kv"]);
    assert_eq!(manifest.module_path_prefix, "mcpg_plugin_cluster_etcd");
    assert!(manifest.license.is_none() && manifest.backend_profile.is_none());
    assert!(manifest.required_capabilities.is_empty() && manifest.tags.is_empty());
    assert!(manifest.provides_schemes.is_empty());
    let info = backend.node_info();
    assert_eq!(info.node_id, "/mcpg/node-pod-7");
    assert_eq!(info.address, "http://a:1,http://b:2");
    assert_eq!(info.version, "0.1.0");
    assert_eq!(info.started_at, "2023-11-14T22:13:20Z");
    assert!(info.roles.is_empty());
}

#[test]
fn a_probe_starts_with_a_placeholder() {
    let backend =
        EtcdBackend::from_config_json(true, Err("no endpoints".to_owned()), around()).unwrap();
    assert_eq!(backend.config().endpoints, vec!["http://127.0.0.1:2379"]);
    assert_eq!(backend.config().key_prefix, "/mcpg/");
    assert_eq!(backend.config().event_ttl_secs, 60);
    assert_eq!(backend.config().lease_renew_before_expiry_percent, 30);
    assert_eq!(backend.manifest().id, "dev.mcpg.cluster.etcd");
}

#[test]
fn an_unsound_configuration_is_refused() {
    let message =
        EtcdBackend::from_config_json(false, Ok(config(&["https://a:1"])), around()).unwrap_err();
    assert_eq!(
        message,
        format!(
            "etcd cluster config parse failed: {}. A misconfigured cluster_backend is a security \
             hole; refusing to load.",
            ConfigError::HttpsRequiresTls.message()
        )
    );
    let message =
        EtcdBackend::from_config_json(false, Err("eof".to_owned()), around()).unwrap_err();
    assert!(message.starts_with(
        "etcd cluster config parse failed: invalid cluster.etcd config JSON: eof. A"
    ));
}

#[test]
fn a_nameless_host_is_unknown() {
    let around = Surroundings { hostname: None, ..around() };
    let backend =
        EtcdBackend::from_config_json(false, Ok(config(&["http://a:1"])), around).unwrap();
    assert_eq!(backend.node_id(), "/mcpg/node-unknown");
}

#[test]
fn module_paths_are_cut_at_the_first_separator() {
    assert_eq!(module_path_prefix("a::b::c"), "a");
    assert_eq!(module_path_prefix("plain"), "plain");
    assert_eq!(module_path_prefix(""), "");
    assert_eq!(module_path_prefix("::x"), "");
    assert_eq!(module_path_prefix("a:b::c"), "a:b");
    assert_eq!(module_path_prefix("a:::b"), "a");
}

// -- TLS material and connecting --------------------------------------------

fn gather(
    mut step: Step<TlsOp, Result<Option<TlsSettings>, ConfigError>>,
    read: &mut Vec<String>,
) -> Result<Option<TlsSettings>, ConfigError> {
    loop {
        match step {
            Step::Finished { result } => return result,
            Step::Ask { request: Request::ReadFile { path }, state } => {
                read.push(path.clone());
                let reply = if path.contains("gone") {
                    failed()
                } else {
                    Reply::Bytes { bytes: format!("<{path}>").into_bytes() }
                };
                assert!(state.accepts(&reply));
                step = state.step(reply);
            }
            other => panic!("{other:?}"),
        }
    }
}

#[test]
fn pem_values_are_inline_or_paths() {
    assert_eq!(resolve_pem(PEM), Some(PEM.as_bytes().to_vec()));
    assert_eq!(resolve_pem("/etc/ca.pem"), None);
    assert_eq!(resolve_pem("x-----BEGIN"), None);
    assert_eq!(resolve_pem("-----BEGIN \u{e9}").unwrap(), "-----BEGIN \u{e9}".as_bytes());
}

#[test]
fn tls_material_is_gathered_in_order() {
    let mut config = config(&["https://a"]);
    config.tls = Some(TlsConfig {
        domain_name: Some("etcd.internal".to_owned()),
        ..tls(Some("ca.pem"), Some(PEM), Some("key.pem"))
    });
    let mut read = vec![];
    let settings = gather(config.build_tls_options(), &mut read).unwrap().unwrap();
    assert_eq!(read, vec!["ca.pem", "key.pem"]);
    assert_eq!(settings.ca_cert.unwrap(), b"<ca.pem>");
    let (cert, key) = settings.identity.unwrap();
    assert_eq!(cert, PEM.as_bytes());
    assert_eq!(key, b"<key.pem>");
    assert_eq!(settings.domain_name.unwrap(), "etcd.internal");
}

#[test]
fn system_roots_go_with_a_client_identity() {
    let mut config = config(&["https://a"]);
    config.tls = Some(tls(None, Some("cert.pem"), Some("key.pem")));
    let mut read = vec![];
    let settings = gather(config.build_tls_options(), &mut read).unwrap().unwrap();
    assert_eq!(read, vec!["cert.pem", "key.pem"]);
    assert!(settings.ca_cert.is_none());
    assert_eq!(settings.identity, Some((b"<cert.pem>".to_vec(), b"<key.pem>".to_vec())));
    config.tls = Some(tls(None, Some("cert.pem"), None));
    let settings = gather(config.build_tls_options(), &mut read).unwrap().unwrap();
    assert!(settings.identity.is_none());
}

#[test]
fn an_unreadable_file_is_named() {
    let mut config = config(&["https://a"]);
    config.tls = Some(tls(Some("gone.pem"), None, None));
    let error = gather(config.build_tls_options(), &mut vec![]).unwrap_err();
    assert_eq!(
        error.message(),
        "cluster.etcd: could not read TLS PEM file `gone.pem`: down"
    );
}

fn connect(
    mut step: Step<ConnectOp, Result<(), ClusterError>>,
    open: Reply,
    seen: &mut Vec<Request>,
) -> Result<(), ClusterError> {
    let mut open = Some(open);
    loop {
        match step {
            Step::Finished { result } => return result,
            Step::Ask { request, state } => {
                let reply = match &request {
                    Request::ReadFile { path } if path.contains("gone") => failed(),
                    Request::ReadFile { path } => Reply::Bytes { bytes: path.clone().into_bytes() },
                    Request::Open { .. } => open.take().unwrap(),
                    other => panic!("{other:?}"),
                };
                seen.push(request);
                assert!(state.accepts(&reply));
                step = state.step(reply);
            }
        }
    }
}

#[test]
fn a_connection_is_opened_as_configured() {
    let mut config = config(&["https://a", "https://b"]);
    config.tls = Some(tls(Some("ca.pem"), None, None));
    config.auth = Some(AuthConfig { username: "u".to_owned(), password: "p".to_owned() });
    let mut seen = vec![];
    connect(config.connect(), Reply::Done, &mut seen).unwrap();
    let Some(Request::Open { endpoints, user, tls }) = seen.pop() else { panic!() };
    assert_eq!(endpoints, vec!["https://a", "https://b"]);
    assert_eq!(user, Some(("u".to_owned(), "p".to_owned())));
    assert_eq!(tls.unwrap().ca_cert.unwrap(), b"ca.pem");
}

#[test]
fn a_plaintext_connection_carries_neither_tls_nor_credentials() {
    let mut seen = vec![];
    connect(config(&["http://a"]).connect(), Reply::Done, &mut seen).unwrap();
    assert!(matches!(&seen[..], [Request::Open { user: None, tls: None, .. }]));
}

#[test]
fn failed_connections_tell_why() {
    let error = connect(config(&["http://a"]).connect(), failed(), &mut vec![]).unwrap_err();
    assert_eq!(reason(error), "etcd connect: down");
    let mut config = config(&["https://a"]);
    config.tls = Some(tls(Some("gone"), None, None));
    match connect(config.connect(), Reply::Done, &mut vec![]).unwrap_err() {
        ClusterError::Internal { reason } => assert_eq!(
            reason,
            "etcd TLS config: cluster.etcd: could not read TLS PEM file `gone`: down"
        ),
        other => panic!("{other:?}"),
    }
}

#[test]
fn a_connection_is_made_once_and_tried_again_after_a_failure() {
    let backend = backend();
    let mut connection: Connection<u32> = Connection::none();
    let asks = |connection: &Connection<u32>| {
        matches!(
            backend.ensure_connected(connection.is_made()),
            Step::Ask { request: Request::Open { .. }, .. }
        )
    };
    let down = || ClusterError::BackendUnavailable { reason: "etcd connect: down".to_owned() };
    assert!(asks(&connection));
    assert_eq!(reason(connection.settle(Err(down())).unwrap_err()), "etcd connect: down");
    assert!(connection.client().is_none());
    assert!(asks(&connection));
    connection.settle(Ok(7)).unwrap();
    assert_eq!(connection.client(), Some(&7));
    assert!(!asks(&connection));
    assert!(matches!(backend.ensure_connected(true), Step::Finished { result: Ok(()) }));
    connection.settle(Ok(8)).unwrap();
    connection.settle(Err(down())).unwrap();
    assert_eq!(connection.client(), Some(&7));
}

#[test]
fn the_store_is_there_after_the_first_connection() {
    let backend = backend();
    assert!(backend.key_value_store(false).is_none());
    assert_eq!(
        reason(backend.require_kv(false).unwrap_err()),
        "etcd cluster: key_value_store unavailable"
    );
    assert_eq!(backend.require_kv(true).unwrap().full_key("k"), "/mcpg/kv/k");
    assert_eq!(backend.key_value_store(true).unwrap().full_key("k"), "/mcpg/kv/k");
}

#[test]
fn leases_have_names_in_their_keyspace() {
    let backend = backend();
    let ttl = TimeSpan::from_secs(10);
    let lock_key = |reply_to| {
        let Step::Ask { state, .. } = reply_to else { panic!() };
        let step = mcpg_plugin_cluster_etcd::lease::TryAcquireOp::step(
            state,
            Reply::Granted { lease: 1 },
        );
        let Step::Ask { request: Request::PutIfAbsent { key, .. }, .. } = step else { panic!() };
        key
    };
    assert_eq!(lock_key(backend.try_acquire_lock("a", ttl)), "/mcpg/locks/a/lock");
    assert_eq!(lock_key(backend.try_acquire_leadership("r", ttl)), "/mcpg/leadership/r/lock");
    assert!(matches!(
        backend.acquire_leadership("r", ttl),
        Step::Ask { request: Request::LeaseGrant { ttl: 10 }, .. }
    ));
    assert_eq!(backend.renewal_interval(ttl), TimeSpan::from_secs(7));
}

// -- peers ------------------------------------------------------------------

fn record(key: &str, value: &str, version: i64) -> KeyValue {
    KeyValue { key: key.as_bytes().to_vec(), value: value.as_bytes().to_vec(), lease: 0, version }
}

fn clock(secs: i64) -> Reply {
    Reply::Clock { now: UnixTime { secs, nanos: 0 } }
}

fn list_peers(
    mut step: Step<ListPeersOp, Vec<ClusterPeer>>,
    mut replies: Vec<Reply>,
) -> Vec<ClusterPeer> {
    replies.reverse();
    loop {
        match step {
            Step::Finished { result } => return result,
            Step::Ask { state, .. } => {
                let reply = replies.pop().unwrap();
                assert!(state.accepts(&reply));
                step = state.step(reply);
            }
        }
    }
}

#[test]
fn registered_peers_are_listed() {
    let kvs = vec![record("/mcpg/peers/alpha", "10.0.0.1:80", 1), record("/x", "", 3)];
    let peers = list_peers(
        backend().list_peers(),
        vec![Reply::Done, Reply::KeyValues { kvs }, clock(0), clock(1)],
    );
    assert_eq!(peers.len(), 2);
    assert_eq!(peers[0].node_id, "alpha");
    assert_eq!(peers[0].address, "10.0.0.1:80");
    assert_eq!(peers[0].last_seen, "1970-01-01T00:00:00Z");
    assert_eq!(peers[0].health, PeerHealth::Healthy);
    assert!(peers[0].roles.is_empty());
    assert_eq!(peers[1].node_id, "/x");
    assert_eq!(peers[1].last_seen, "1970-01-01T00:00:01Z");
}

#[test]
fn without_etcd_there_are_no_peers() {
    assert!(list_peers(backend().list_peers(), vec![refused()]).is_empty());
    assert!(list_peers(backend().list_peers(), vec![Reply::Done, failed()]).is_empty());
    let none = Reply::KeyValues { kvs: vec![] };
    assert!(list_peers(backend().list_peers(), vec![Reply::Done, none]).is_empty());
}

#[test]
fn the_peers_prefix_is_read_and_watched() {
    let Step::Ask { request: Request::Connect, state } = backend().list_peers() else { panic!() };
    let Step::Ask { request: Request::GetPrefix { prefix, limit }, .. } = state.step(Reply::Done)
    else {
        panic!()
    };
    assert_eq!((prefix.as_str(), limit), ("/mcpg/peers/", None));
    let Step::Ask { request: Request::Connect, state } = backend().watch_peers() else { panic!() };
    let Step::Ask { request: Request::StartWatch { prefix }, .. } = state.step(Reply::Done) else {
        panic!()
    };
    assert_eq!(prefix, "/mcpg/peers/");
}

fn watch_peers(mut step: Step<WatchPeersOp, bool>, mut replies: Vec<Reply>) -> bool {
    replies.reverse();
    loop {
        match step {
            Step::Finished { result } => return result,
            Step::Ask { state, .. } => {
                let reply = replies.pop().unwrap();
                assert!(state.accepts(&reply));
                step = state.step(reply);
            }
        }
    }
}

#[test]
fn a_watch_that_cannot_start_tells_nothing() {
    assert!(!watch_peers(backend().watch_peers(), vec![refused()]));
    assert!(!watch_peers(backend().watch_peers(), vec![Reply::Done, failed()]));
    assert!(watch_peers(backend().watch_peers(), vec![Reply::Done, Reply::Done]));
}

fn tell(mut step: Step<PeerWatchOp, ()>, mut replies: Vec<Reply>) -> (Vec<PeerEvent>, Vec<&'static str>) {
    replies.reverse();
    let (mut told, mut asked) = (vec![], vec![]);
    loop {
        match step {
            Step::Finished { .. } => return (told, asked),
            Step::Ask { request, state } => {
                match request {
                    Request::DeliverPeerEvent { event } => {
                        told.push(event);
                        asked.push("deliver");
                    }
                    Request::PollClosed => asked.push("poll"),
                    Request::ReceiveEvents => asked.push("receive"),
                    Request::ReadClock => asked.push("clock"),
                    Request::CancelWatch => asked.push("cancel"),
                    other => panic!("{other:?}"),
                }
                let reply = replies.pop().unwrap();
                assert!(state.accepts(&reply));
                step = state.step(reply);
            }
        }
    }
}

fn change(is_put: bool, kv: Option<KeyValue>) -> WatchEvent {
    WatchEvent { is_put, kv }
}

#[test]
fn changes_among_the_peers_are_told_in_order() {
    let events = vec![
        change(true, Some(record("/mcpg/peers/a", "addr", 1))),
        change(true, None),
        change(true, Some(record("/mcpg/peers/a", "addr", 2))),
        change(false, Some(record("/mcpg/peers/a", "", 0))),
    ];
    let (told, asked) = tell(
        backend().tell_peers(),
        vec![
            Reply::Closed { closed: false },
            Reply::Events { events: Some(events) },
            clock(5),
            Reply::Done,
            Reply::Done,
            Reply::Done,
            Reply::Closed { closed: true },
            Reply::Done,
        ],
    );
    assert_eq!(
        asked,
        vec!["poll", "receive", "clock", "deliver", "deliver", "deliver", "poll", "cancel"]
    );
    match &told[..] {
        [PeerEvent::Joined { peer }, PeerEvent::HealthChanged { node_id, health }, PeerEvent::Left { node_id: left }] =>
        {
            assert_eq!((peer.node_id.as_str(), peer.address.as_str()), ("a", "addr"));
            assert_eq!(peer.last_seen, "1970-01-01T00:00:05Z");
            assert_eq!((node_id.as_str(), *health), ("a", PeerHealth::Healthy));
            assert_eq!(left, "a");
        }
        other => panic!("{other:?}"),
    }
}

#[test]
fn a_peer_watch_ends_with_the_stream_or_the_listener() {
    let open = || Reply::Closed { closed: false };
    let (_, asked) = tell(backend().tell_peers(), vec![open(), Reply::Events { events: None }]);
    assert_eq!(asked, vec!["poll", "receive"]);
    let (_, asked) = tell(backend().tell_peers(), vec![open(), failed()]);
    assert_eq!(asked, vec!["poll", "receive"]);
    let events = vec![
        change(false, Some(record("/mcpg/peers/a", "", 0))),
        change(false, Some(record("/mcpg/peers/b", "", 0))),
    ];
    let (told, asked) = tell(
        backend().tell_peers(),
        vec![open(), Reply::Events { events: Some(events) }, failed(), failed()],
    );
    assert_eq!(told.len(), 1);
    assert_eq!(asked, vec!["poll", "receive", "deliver", "cancel"]);
}

// -- events -----------------------------------------------------------------

fn publish(
    mut step: Step<PublishOp, Result<(), ClusterError>>,
    mut replies: Vec<Reply>,
) -> (Result<(), ClusterError>, Vec<Request>) {
    replies.reverse();
    let mut asked = vec![];
    loop {
        match step {
            Step::Finished { result } => return (result, asked),
            Step::Ask { request, state } => {
                asked.push(request);
                let reply = replies.pop().unwrap();
                assert!(state.accepts(&reply));
                step = state.step(reply);
            }
        }
    }
}

fn begin() -> Step<PublishOp, Result<(), ClusterError>> {
    backend().publish("x.y", Some("rk"), b"payload".to_vec(), 17, 4)
}

#[test]
fn an_event_is_published_under_a_lease() {
    let wire = || Reply::Bytes { bytes: b"wire".to_vec() };
    let (result, asked) = publish(
        begin(),
        vec![wire(), Reply::Done, Reply::Granted { lease: 8 }, Reply::Done],
    );
    result.unwrap();
    match &asked[..] {
        [Request::Encode { routing_key, payload }, Request::Connect, Request::LeaseGrant { ttl }, Request::Put { key, value, lease }] =>
        {
            assert_eq!(routing_key.as_deref(), Some("rk"));
            assert_eq!(payload, b"payload");
            assert_eq!(*ttl, 60);
            assert_eq!(key, "/mcpg/events/x.y/17-4");
            assert_eq!(value, b"wire");
            assert_eq!(*lease, Some(8));
        }
        other => panic!("{other:?}"),
    }
}

#[test]
fn nothing_is_written_under_the_peers_prefix() {
    let backend = backend();
    let peers = backend.config().peers_prefix();
    let written = |request: Request| match request {
        Request::Put { key, .. } | Request::PutIfAbsent { key, .. } => key,
        other => panic!("{other:?}"),
    };
    let wire = Reply::Bytes { bytes: vec![] };
    let (_, mut asked) =
        publish(begin(), vec![wire, Reply::Done, Reply::Granted { lease: 8 }, Reply::Done]);
    assert!(!written(asked.pop().unwrap()).starts_with(&peers));
    let kv = backend.key_value_store(true).unwrap();
    let Step::Ask { request, .. } = kv.put("peers/x", vec![], None) else { panic!() };
    assert!(!written(request).starts_with(&peers));
    let Step::Ask { request, .. } = kv.put_if_absent("../peers/x", vec![], None) else { panic!() };
    assert!(!written(request).starts_with(&peers));
}

#[test]
fn failed_publications_tell_why() {
    let wire = || Reply::Bytes { bytes: b"wire".to_vec() };
    match publish(begin(), vec![failed()]).0.unwrap_err() {
        ClusterError::Internal { reason } => assert_eq!(reason, "publish envelope: down"),
        other => panic!("{other:?}"),
    }
    let error = publish(begin(), vec![wire(), refused()]).0.unwrap_err();
    assert_eq!(reason(error), "etcd connect: no");
    let error = publish(begin(), vec![wire(), Reply::Done, failed()]).0.unwrap_err();
    assert_eq!(reason(error), "lease_grant: down");
    let granted = Reply::Granted { lease: 8 };
    let error = publish(begin(), vec![wire(), Reply::Done, granted, failed()]).0.unwrap_err();
    assert_eq!(reason(error), "put: down");
}

fn subscribe(
    mut step: Step<SubscribeOp, Result<(), ClusterError>>,
    mut replies: Vec<Reply>,
) -> Result<(), ClusterError> {
    replies.reverse();
    loop {
        match step {
            Step::Finished { result } => return result,
            Step::Ask { request, state } => {
                if let Request::StartWatch { prefix } = request {
                    assert_eq!(prefix, "/mcpg/events/x.y/");
                }
                let reply = replies.pop().unwrap();
                assert!(state.accepts(&reply));
                step = state.step(reply);
            }
        }
    }
}

#[test]
fn a_subscription_watches_its_topic() {
    subscribe(backend().subscribe("x.y"), vec![Reply::Done, Reply::Done]).unwrap();
    let error = subscribe(backend().subscribe("x.y"), vec![Reply::Done, failed()]).unwrap_err();
    assert_eq!(reason(error), "watch start: down");
    let error = subscribe(backend().subscribe("x.y"), vec![refused()]).unwrap_err();
    assert_eq!(reason(error), "etcd connect: no");
}

/// Hands the changes over, once; a value `<key>:<payload>` unwraps to its parts.
fn deliver(mut step: Step<DeliveryOp, ()>, events: Vec<WatchEvent>) -> Vec<PublishedMessage> {
    let mut events = Some(events);
    let mut received = vec![];
    loop {
        match step {
            Step::Finished { .. } => return received,
            Step::Ask { request, state } => {
                let reply = match request {
                    Request::PollClosed => Reply::Closed { closed: events.is_none() },
                    Request::ReceiveEvents => Reply::Events { events: events.take() },
                    Request::Decode { wire } => {
                        let text = String::from_utf8(wire).unwrap();
                        match text.split_once(':') {
                            None => failed(),
                            Some((key, payload)) => Reply::Envelope {
                                routing_key: Some(key.to_owned()).filter(|k| !k.is_empty()),
                                payload: payload.as_bytes().to_vec(),
                            },
                        }
                    }
                    Request::DeliverMessage { message } => {
                        received.push(message);
                        Reply::Done
                    }
                    Request::CancelWatch => Reply::Done,
                    other => panic!("{other:?}"),
                };
                assert!(state.accepts(&reply));
                step = state.step(reply);
            }
        }
    }
}

fn batch() -> Vec<WatchEvent> {
    vec![
        change(true, Some(record("/mcpg/events/x.y/1", "rk:one", 1))),
        change(true, Some(record("/mcpg/events/x.y/2", "garbage", 1))),
        change(false, Some(record("/mcpg/events/x.y/0", "rk:gone", 0))),
        change(true, None),
        change(true, Some(record("/mcpg/events/x.y/3", ":two", 1))),
        change(true, Some(record("/mcpg/events/x.y/4", "rk.more:three", 1))),
        change(true, Some(record("/mcpg/events/x.y/5", "rk:four", 1))),
    ]
}

fn payloads(messages: &[PublishedMessage]) -> Vec<String> {
    messages.iter().map(|m| String::from_utf8(m.payload.clone()).unwrap()).collect()
}

#[test]
fn a_subscriber_without_a_routing_key_receives_every_message() {
    let received = deliver(backend().subscription("x.y", None).deliver(), batch());
    assert_eq!(payloads(&received), vec!["one", "two", "three", "four"]);
    assert_eq!(received[0].topic, "x.y");
    assert_eq!(received[0].routing_key.as_deref(), Some("rk"));
    assert_eq!(received[0].from_node, "/mcpg/node-pod-7");
    assert_eq!(received[1].routing_key, None);
}

#[test]
fn routing_keys_are_matched_exactly() {
    let received = deliver(backend().subscription("x.y", Some("rk")).deliver(), batch());
    assert_eq!(payloads(&received), vec!["one", "four"]);
    let subscription = backend().subscription("x.y", Some("rk"));
    assert!(subscription.wants(&Some("rk".to_owned())));
    assert!(!subscription.wants(&Some("rk.more".to_owned())));
    assert!(!subscription.wants(&None));
    assert!(backend().subscription("x.y", None).wants(&None));
}

#[test]
fn a_delivery_ends_with_the_stream_or_the_subscriber() {
    let step = backend().subscription("x.y", None).deliver();
    let Step::Ask { request: Request::PollClosed, state } = step else { panic!() };
    let Step::Ask { request: Request::CancelWatch, state } =
        state.step(Reply::Closed { closed: true })
    else {
        panic!()
    };
    assert!(matches!(state.step(failed()), Step::Finished { .. }));
    let subscription = backend().subscription("x.y", None);
    let state = DeliveryOp::Receive { subscription };
    assert!(matches!(state.step(Reply::Events { events: None }), Step::Finished { .. }));
    let subscription = backend().subscription("x.y", None);
    let state = DeliveryOp::Receive { subscription };
    assert!(matches!(state.step(failed()), Step::Finished { .. }));
    let subscription = backend().subscription("x.y", None);
    let state = DeliveryOp::Deliver { subscription, rest: batch() };
    assert!(matches!(
        state.step(failed()),
        Step::Ask { request: Request::CancelWatch, state: DeliveryOp::Cancel }
    ));
}
