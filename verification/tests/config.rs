//! Configuration: decoding, validation, and the names made from it.
use mcpg_plugin_cluster_etcd::config::{
    default_event_ttl_secs, default_key_prefix, default_renew_pct,
};
use mcpg_plugin_cluster_etcd::protocol::Step;
use mcpg_plugin_cluster_etcd::tls::{TlsOp, TlsSettings};
use mcpg_plugin_cluster_etcd::{AuthConfig, ConfigError, EtcdConfig, TlsConfig};
use serde_json::Value;

fn text(value: &Value) -> Result<String, String> {
    match value {
        Value::String(s) => Ok(s.clone()),
        _ => Err(format!("expected a string, found {value}")),
    }
}

fn optional_text(fields: &serde_json::Map<String, Value>, name: &str) -> Result<Option<String>, String> {
    match fields.get(name) {
        None | Some(Value::Null) => Ok(None),
        Some(value) => text(value).map(Some),
    }
}

fn fields<'a>(value: &'a Value, known: &[&str]) -> Result<&'a serde_json::Map<String, Value>, String> {
    let Value::Object(fields) = value else {
        return Err(format!("expected an object, found {value}"));
    };
    match fields.keys().find(|k| !known.contains(&k.as_str())) {
        Some(unknown) => Err(format!("unknown field `{unknown}`")),
        None => Ok(fields),
    }
}

fn decode(json: &str) -> Result<EtcdConfig, String> {
    let value: Value = serde_json::from_str(json).map_err(|e| e.to_string())?;
    let top = fields(
        &value,
        &[
            "endpoints",
            "auth",
            "tls",
            "key_prefix",
            "node_id",
            "event_ttl_secs",
            "lease_renew_before_expiry_percent",
        ],
    )?;
    let Some(Value::Array(endpoints)) = top.get("endpoints") else {
        return Err("missing field `endpoints`".to_owned());
    };
    let auth = match top.get("auth") {
        None | Some(Value::Null) => None,
        Some(auth) => {
            let auth = fields(auth, &["username", "password"])?;
            Some(AuthConfig {
                username: optional_text(auth, "username")?.ok_or("missing field `username`")?,
                password: optional_text(auth, "password")?.ok_or("missing field `password`")?,
            })
        }
    };
    let tls = match top.get("tls") {
        None | Some(Value::Null) => None,
        Some(tls) => {
            let tls = fields(tls, &["ca_cert", "client_cert", "client_key", "domain_name"])?;
            Some(TlsConfig {
                ca_cert: optional_text(tls, "ca_cert")?,
                client_cert: optional_text(tls, "client_cert")?,
                client_key: optional_text(tls, "client_key")?,
                domain_name: optional_text(tls, "domain_name")?,
            })
        }
    };
    Ok(EtcdConfig {
        endpoints: endpoints.iter().map(text).collect::<Result<Vec<_>, _>>()?,
        auth,
        tls,
        key_prefix: optional_text(top, "key_prefix")?.unwrap_or_else(default_key_prefix),
        node_id: optional_text(top, "node_id")?,
        event_ttl_secs: match top.get("event_ttl_secs") {
            None => default_event_ttl_secs(),
            Some(n) => n.as_i64().ok_or("event_ttl_secs is no i64")?,
        },
        lease_renew_before_expiry_percent: match top.get("lease_renew_before_expiry_percent") {
            None => default_renew_pct(),
            Some(n) => n
                .as_u64()
                .and_then(|n| u32::try_from(n).ok())
                .ok_or("lease_renew_before_expiry_percent is no u32")?,
        },
    })
}

fn parse(json: &str) -> Result<EtcdConfig, ConfigError> {
    EtcdConfig::parse(decode(json))
}

fn tls_options(step: Step<TlsOp, Result<Option<TlsSettings>, ConfigError>>) -> Option<TlsSettings> {
    match step {
        Step::Finished { result } => result.unwrap(),
        Step::Ask { request, .. } => panic!("asked for {request:?}"),
    }
}

#[test]
fn parses_minimal_config() {
    let parsed = parse(r#"{"endpoints":["http://etcd:2379"]}"#).unwrap();
    assert_eq!(parsed.key_prefix, "/mcpg/");
    assert_eq!(parsed.event_ttl_secs, 60);
}

#[test]
fn rejects_empty_endpoints() {
    let err = parse(r#"{"endpoints":[]}"#).unwrap_err();
    assert!(matches!(err, ConfigError::EmptyEndpoints), "{}", err.message());
}

#[test]
fn rejects_prefix_without_trailing_slash() {
    let err = parse(r#"{"endpoints":["http://etcd:2379"],"key_prefix":"/mcpg"}"#).unwrap_err();
    assert!(matches!(err, ConfigError::KeyPrefixMissingTrailingSlash), "{}", err.message());
}

#[test]
fn rejects_zero_event_ttl() {
    let err = parse(r#"{"endpoints":["http://etcd:2379"],"event_ttl_secs":0}"#).unwrap_err();
    assert!(matches!(err, ConfigError::InvalidEventTtl), "{}", err.message());
}

#[test]
fn rejects_https_endpoint_without_tls() {
    let err = parse(r#"{"endpoints":["https://etcd:2379"]}"#).unwrap_err();
    assert!(matches!(err, ConfigError::HttpsRequiresTls), "{}", err.message());
}

#[test]
fn rejects_auth_over_plaintext_http() {
    let err = parse(
        r#"{"endpoints":["http://etcd:2379"],"auth":{"username":"u","password":"p"}}"#,
    )
    .unwrap_err();
    assert!(matches!(err, ConfigError::PlaintextAuth), "{}", err.message());
}

#[test]
fn accepts_https_with_tls_system_roots() {
    let cfg = parse(r#"{"endpoints":["https://etcd:2379"],"tls":{}}"#).unwrap();
    assert!(cfg.tls.is_some());
    let tls = tls_options(cfg.build_tls_options());
    assert!(tls.is_some());
    assert!(tls.unwrap().ca_cert.is_none());
}

#[test]
fn accepts_https_with_inline_ca_pem() {
    // An inline PEM (not a path) must not be treated as a file read.
    let pem = "-----BEGIN CERTIFICATE-----\nMIIB\n-----END CERTIFICATE-----";
    let cfg = parse(
        r#"{"endpoints":["https://etcd:2379"],
            "tls":{"ca_cert":"-----BEGIN CERTIFICATE-----\nMIIB\n-----END CERTIFICATE-----"}}"#,
    )
    .unwrap();
    let tls = tls_options(cfg.build_tls_options());
    assert!(tls.is_some());
    assert_eq!(tls.unwrap().ca_cert, Some(pem.as_bytes().to_vec()));
}

#[test]
fn rejects_scheme_less_endpoint() {
    // A bare `host:port` endpoint connects plaintext in etcd-client, so
    // the plugin must reject it rather than dodge the fail-closed checks.
    let err = parse(r#"{"endpoints":["etcd-0:2379"]}"#).unwrap_err();
    assert!(matches!(err, ConfigError::MissingScheme { .. }), "{}", err.message());
    // A scheme-less endpoint mixed with a valid https one is still caught.
    let err2 =
        parse(r#"{"endpoints":["https://etcd-0:2379","etcd-1:2379"],"tls":{}}"#).unwrap_err();
    assert!(matches!(err2, ConfigError::MissingScheme { .. }), "{}", err2.message());
}

#[test]
fn rejects_tls_block_with_only_http_endpoints() {
    let err = parse(r#"{"endpoints":["http://etcd:2379"],"tls":{}}"#).unwrap_err();
    assert!(matches!(err, ConfigError::TlsWithoutHttps), "{}", err.message());
}

#[test]
fn rejects_mixed_http_and_https_endpoints() {
    let err =
        parse(r#"{"endpoints":["http://a:2379","https://b:2379"],"tls":{}}"#).unwrap_err();
    assert!(matches!(err, ConfigError::MixedSchemes), "{}", err.message());
}

#[test]
fn rejects_mtls_client_cert_without_key() {
    let err = parse(
        r#"{"endpoints":["https://etcd:2379"],
            "tls":{"client_cert":"-----BEGIN CERTIFICATE-----\nx\n-----END CERTIFICATE-----"}}"#,
    )
    .unwrap_err();
    assert!(matches!(err, ConfigError::MtlsHalfPair), "{}", err.message());
}

#[test]
fn build_tls_options_none_when_no_tls_block() {
    // Plaintext http (no auth) stays valid for dev and yields no TLS.
    let cfg = parse(r#"{"endpoints":["http://etcd:2379"]}"#).unwrap();
    assert!(tls_options(cfg.build_tls_options()).is_none());
}

#[test]
fn lease_renew_pct_defaults_to_30() {
    let cfg = parse(r#"{"endpoints":["http://etcd:2379"]}"#).unwrap();
    assert_eq!(cfg.lease_renew_before_expiry_percent, 30);
}

#[test]
fn lease_renew_pct_overridable() {
    let cfg = parse(
        r#"{"endpoints":["http://etcd:2379"],"lease_renew_before_expiry_percent":50}"#,
    )
    .unwrap();
    assert_eq!(cfg.lease_renew_before_expiry_percent, 50);
}

#[test]
fn key_helpers_use_prefix() {
    let cfg = parse(r#"{"endpoints":["http://etcd:2379"],"key_prefix":"/mcpg-prod/"}"#).unwrap();
    assert_eq!(cfg.peer_key("alpha"), "/mcpg-prod/peers/alpha");
    assert_eq!(cfg.peers_prefix(), "/mcpg-prod/peers/");
    assert_eq!(cfg.topic_key_prefix("creds.events"), "/mcpg-prod/events/creds.events/");
}

#[test]
fn config_validation_works() {
    let cfg = parse(r#"{"endpoints":["http://etcd:2379"],"node_id":"node-test"}"#).unwrap();
    assert_eq!(cfg.resolved_node_id(Some("pod-7")), "node-test");
    assert_eq!(cfg.peer_key("alpha"), "/mcpg/peers/alpha");
    assert_eq!(cfg.topic_key_prefix("x.y"), "/mcpg/events/x.y/");
}

#[test]
fn config_resolved_node_id_falls_back_to_synthetic() {
    let cfg = parse(r#"{"endpoints":["http://etcd:2379"]}"#).unwrap();
    assert!(cfg.resolved_node_id(Some("pod-7")).starts_with("/mcpg/node-"));
    assert_eq!(cfg.resolved_node_id(Some("pod-7")), "/mcpg/node-pod-7");
    assert_eq!(cfg.resolved_node_id(None), "/mcpg/node-unknown");
}

#[test]
fn auth_config_roundtrips() {
    // Auth requires an https:// endpoint + a tls block
    // (auth over http:// is rejected to keep the password off the wire).
    let cfg = parse(
        r#"{"endpoints":["https://etcd:2379"],"tls":{},
            "auth":{"username":"alice","password":"secret"}}"#,
    )
    .unwrap();
    let auth = cfg.auth.as_ref().unwrap();
    assert_eq!(auth.username, "alice");
    assert_eq!(auth.password, "secret");
}

#[test]
fn key_prefix_namespacing_isolates_deployments() {
    let prod = parse(r#"{"endpoints":["http://etcd:2379"],"key_prefix":"/mcpg-prod/"}"#).unwrap();
    let staging =
        parse(r#"{"endpoints":["http://etcd:2379"],"key_prefix":"/mcpg-staging/"}"#).unwrap();
    assert_ne!(prod.topic_key_prefix("creds.events"), staging.topic_key_prefix("creds.events"));
}

#[test]
fn undecodable_text_is_refused_with_the_decoders_words() {
    let err = parse("not json").unwrap_err();
    let ConfigError::InvalidJson(detail) = &err else {
        panic!("{}", err.message());
    };
    assert_eq!(err.message(), format!("invalid cluster.etcd config JSON: {detail}"));
    assert!(matches!(parse(r#"{"endpoints":[],"extra":1}"#), Err(ConfigError::InvalidJson(_))));
}

#[test]
fn blank_endpoints_are_refused_by_position() {
    let err = parse(r#"{"endpoints":["http://a:1"," \t "]}"#).unwrap_err();
    assert!(matches!(err, ConfigError::EmptyEndpoint { index: 1 }), "{}", err.message());
    assert_eq!(err.message(), "cluster.etcd: endpoint[1] is empty");
}

#[test]
fn the_first_endpoint_without_a_scheme_is_named() {
    let err = parse(r#"{"endpoints":["http://a:1","b:2","", "c:3"]}"#).unwrap_err();
    let ConfigError::MissingScheme { index, endpoint } = &err else {
        panic!("{}", err.message());
    };
    assert_eq!((*index, endpoint.as_str()), (1, "b:2"));
    assert_eq!(
        err.message(),
        "cluster.etcd: endpoint[1] (`b:2`) has no scheme — etcd-client connects a scheme-less \
         `host:port` in plaintext. Use an explicit `https://` (or `http://`) scheme"
    );
}

#[test]
fn endpoints_may_be_surrounded_by_white_space() {
    assert!(parse(r#"{"endpoints":["  http://a:1 "]}"#).is_ok());
    assert!(parse(r#"{"endpoints":[" https://a:1\n"],"tls":{}}"#).is_ok());
    assert!(parse(r#"{"endpoints":["x http://a:1"]}"#).is_err());
}

#[test]
fn faults_are_reported_in_order() {
    // The prefix is looked at before the lifetime, that before the schemes.
    let all = r#"{"endpoints":["http://a","https://b"],"key_prefix":"p","event_ttl_secs":-1}"#;
    assert!(matches!(parse(all), Err(ConfigError::KeyPrefixMissingTrailingSlash)));
    let two = r#"{"endpoints":["http://a","https://b"],"event_ttl_secs":-1}"#;
    assert!(matches!(parse(two), Err(ConfigError::InvalidEventTtl)));
    let one = r#"{"endpoints":["http://a","https://b"]}"#;
    assert!(matches!(parse(one), Err(ConfigError::MixedSchemes)));
}

#[test]
fn both_halves_of_a_pair_are_accepted() {
    let cfg = r#"{"endpoints":["https://a"],"tls":{"client_cert":"c","client_key":"k"}}"#;
    assert!(parse(cfg).is_ok());
    let half = r#"{"endpoints":["https://a"],"tls":{"client_key":"k"}}"#;
    assert!(matches!(parse(half), Err(ConfigError::MtlsHalfPair)));
}

#[test]
fn messages_tell_the_operator_what_to_do() {
    assert_eq!(
        ConfigError::EmptyEndpoints.message(),
        "cluster.etcd: endpoints must be non-empty"
    );
    assert_eq!(
        ConfigError::KeyPrefixMissingTrailingSlash.message(),
        "cluster.etcd: key_prefix must end with '/'"
    );
    assert_eq!(
        ConfigError::InvalidEventTtl.message(),
        "cluster.etcd: event_ttl_secs must be > 0"
    );
    assert_eq!(
        ConfigError::HttpsRequiresTls.message(),
        "cluster.etcd: an https:// endpoint requires a `tls` block (fail-closed) — \
         add `tls: {}` to use system roots, or `tls: { ca_cert: ... }` for a private CA"
    );
    assert_eq!(
        ConfigError::PlaintextAuth.message(),
        "cluster.etcd: `auth` over a plaintext http:// endpoint would send the password in \
         cleartext — use https:// (with a `tls` block) for an auth-enabled cluster"
    );
    assert_eq!(
        ConfigError::TlsWithoutHttps.message(),
        "cluster.etcd: a `tls` block is set but no endpoint is https:// — drop `tls` or use \
         https://"
    );
    assert_eq!(
        ConfigError::MixedSchemes.message(),
        "cluster.etcd: endpoints mix http:// and https:// — use one scheme for all endpoints"
    );
    assert_eq!(
        ConfigError::MtlsHalfPair.message(),
        "cluster.etcd: tls.client_cert and tls.client_key must be set together (mTLS)"
    );
    assert_eq!(
        ConfigError::TlsFileRead { path: "/x".to_owned(), source: "gone".to_owned() }.message(),
        "cluster.etcd: could not read TLS PEM file `/x`: gone"
    );
}

#[test]
fn keyspaces_have_their_own_segments() {
    let cfg = parse(r#"{"endpoints":["http://etcd:2379"]}"#).unwrap();
    assert_eq!(cfg.kv_prefix(), "/mcpg/kv/");
    assert_eq!(cfg.leadership_name("leader"), "/mcpg/leadership/leader");
    assert_eq!(cfg.lock_name("job/1"), "/mcpg/locks/job/1");
}

#[test]
fn event_keys_lie_under_their_topic_and_differ() {
    let cfg = parse(r#"{"endpoints":["http://etcd:2379"]}"#).unwrap();
    let key = cfg.event_key("x.y", 1_700_000_000_123_456_789, 42);
    assert_eq!(key, "/mcpg/events/x.y/1700000000123456789-42");
    assert!(key.starts_with(&cfg.topic_key_prefix("x.y")));
    assert_ne!(key, cfg.event_key("x.y", 1_700_000_000_123_456_789, 43));
    assert_ne!(cfg.event_key("t", 1, 23), cfg.event_key("t", 12, 3));
    assert_eq!(cfg.event_key("t", u128::MAX, 0), format!("/mcpg/events/t/{}-0", u128::MAX));
}

#[test]
fn a_prefix_inside_anothers_keyspace_shares_its_keys() {
    // Distinct prefixes keep deployments apart, unless one lies in a keyspace
    // of the other.
    let name = |prefix: &str, key: &str| {
        let json = format!(r#"{{"endpoints":["http://a"],"key_prefix":"{prefix}"}}"#);
        format!("{}{key}", parse(&json).unwrap().kv_prefix())
    };
    assert_eq!(name("/a/", "kv/x"), name("/a/kv/", "x"));
    assert_ne!(name("/a/", "b/kv/x"), name("/a/b/", "x"));
    assert_ne!(name("/a/", "x"), name("/b/", "x"));
}
