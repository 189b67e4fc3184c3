//! Operator-supplied configuration of the etcd coordinator.
use vstd::prelude::*;
use vstd::string::*;

use crate::text::{
    concat2, concat3, concat4, content, contents, decimal, ends_with, starts_with, to_decimal,
    trim, trimmed,
};

verus! {

/// How to reach etcd, and how to name things in it.
#[derive(Debug, Clone)]
pub struct EtcdConfig {
    /// One or more etcd endpoints, each with an explicit `http://` or
    /// `https://` scheme.
    pub endpoints: Vec<String>,
    /// Credentials for a cluster with authentication. Refused over a plaintext
    /// endpoint: the password must not cross the wire in cleartext.
    pub auth: Option<AuthConfig>,
    /// TLS for `https://` endpoints: required when an endpoint is `https://`,
    /// refused when none is.
    pub tls: Option<TlsConfig>,
    /// Namespace of everything that the coordinator writes; ends in `/`.
    /// Deployments that share one etcd cluster set distinct prefixes.
    pub key_prefix: String,
    /// This node's stable identifier. By default it is made of the prefix and
    /// the host name.
    pub node_id: Option<String>,
    /// How long a published event stays in etcd, in seconds.
    pub event_ttl_secs: i64,
    /// A lease is renewed when this share of its time is left; taken between 1
    /// and 99.
    pub lease_renew_before_expiry_percent: u32,
}

/// User name and password.
#[derive(Debug, Clone)]
pub struct AuthConfig {
    pub username: String,
    pub password: String,
}

/// TLS material for `https://` endpoints. Each PEM value is either inline, a
/// text that begins with `-----BEGIN`, or the path of a file.
#[derive(Debug, Clone)]
pub struct TlsConfig {
    /// Root certificate of a private authority. Without it the system's trust
    /// roots are used.
    pub ca_cert: Option<String>,
    /// Client certificate; set together with `client_key`.
    pub client_cert: Option<String>,
    /// Client private key.
    pub client_key: Option<String>,
    /// Host name to expect in the server's certificate, where it is not that
    /// of the endpoint.
    pub domain_name: Option<String>,
}

/// The content of an [`EtcdConfig`].
pub struct Settings {
    pub endpoints: Seq<Seq<char>>,
    pub auth: Option<Credentials>,
    pub tls: Option<TlsMaterial>,
    pub key_prefix: Seq<char>,
    pub node_id: Option<Seq<char>>,
    pub event_ttl_secs: i64,
    pub lease_renew_before_expiry_percent: u32,
}

/// The content of an [`AuthConfig`].
pub struct Credentials {
    pub username: Seq<char>,
    pub password: Seq<char>,
}

/// The content of a [`TlsConfig`].
pub struct TlsMaterial {
    pub ca_cert: Option<Seq<char>>,
    pub client_cert: Option<Seq<char>>,
    pub client_key: Option<Seq<char>>,
    pub domain_name: Option<Seq<char>>,
}

impl View for AuthConfig {
    type V = Credentials;

    open spec fn view(&self) -> Credentials {
        Credentials { username: self.username@, password: self.password@ }
    }
}

impl View for TlsConfig {
    type V = TlsMaterial;

    open spec fn view(&self) -> TlsMaterial {
        TlsMaterial {
            ca_cert: content(self.ca_cert),
            client_cert: content(self.client_cert),
            client_key: content(self.client_key),
            domain_name: content(self.domain_name),
        }
    }
}

impl View for EtcdConfig {
    type V = Settings;

    open spec fn view(&self) -> Settings {
        Settings {
            endpoints: contents(self.endpoints@),
            auth: match self.auth {
                Some(auth) => Some(auth@),
                None => None,
            },
            tls: match self.tls {
                Some(tls) => Some(tls@),
                None => None,
            },
            key_prefix: self.key_prefix@,
            node_id: content(self.node_id),
            event_ttl_secs: self.event_ttl_secs,
            lease_renew_before_expiry_percent: self.lease_renew_before_expiry_percent,
        }
    }
}

/// The namespace for a configuration that names none.
pub fn default_key_prefix() -> (r: String)
    ensures
        r@ == "/mcpg/"@,
{
    "/mcpg/".to_owned()
}

/// The event lifetime for a configuration that names none.
pub fn default_event_ttl_secs() -> (r: i64)
    ensures
        r == 60,
{
    60
}

/// The renewal share for a configuration that names none.
pub fn default_renew_pct() -> (r: u32)
    ensures
        r == 30,
{
    30
}

/// Why a configuration is refused.
#[derive(Debug)]
pub enum ConfigError {
    /// The text is not a configuration; with what the decoder said.
    InvalidJson(String),
    EmptyEndpoints,
    EmptyEndpoint { index: usize },
    MissingScheme { index: usize, endpoint: String },
    KeyPrefixMissingTrailingSlash,
    InvalidEventTtl,
    HttpsRequiresTls,
    PlaintextAuth,
    TlsWithoutHttps,
    MixedSchemes,
    MtlsHalfPair,
    /// A PEM file could not be read; with what the system said.
    TlsFileRead { path: String, source: String },
}

/// The content of a [`ConfigError`].
pub enum ConfigFault {
    InvalidJson(Seq<char>),
    EmptyEndpoints,
    EmptyEndpoint(int),
    MissingScheme(int, Seq<char>),
    KeyPrefixMissingTrailingSlash,
    InvalidEventTtl,
    HttpsRequiresTls,
    PlaintextAuth,
    TlsWithoutHttps,
    MixedSchemes,
    MtlsHalfPair,
    TlsFileRead(Seq<char>, Seq<char>),
}

impl View for ConfigError {
    type V = ConfigFault;

    open spec fn view(&self) -> ConfigFault {
        match self {
            ConfigError::InvalidJson(detail) => ConfigFault::InvalidJson(detail@),
            ConfigError::EmptyEndpoints => ConfigFault::EmptyEndpoints,
            ConfigError::EmptyEndpoint { index } => ConfigFault::EmptyEndpoint(*index as int),
            ConfigError::MissingScheme { index, endpoint } => ConfigFault::MissingScheme(
                *index as int,
                endpoint@,
            ),
            ConfigError::KeyPrefixMissingTrailingSlash => ConfigFault::KeyPrefixMissingTrailingSlash,
            ConfigError::InvalidEventTtl => ConfigFault::InvalidEventTtl,
            ConfigError::HttpsRequiresTls => ConfigFault::HttpsRequiresTls,
            ConfigError::PlaintextAuth => ConfigFault::PlaintextAuth,
            ConfigError::TlsWithoutHttps => ConfigFault::TlsWithoutHttps,
            ConfigError::MixedSchemes => ConfigFault::MixedSchemes,
            ConfigError::MtlsHalfPair => ConfigFault::MtlsHalfPair,
            ConfigError::TlsFileRead { path, source } => ConfigFault::TlsFileRead(path@, source@),
        }
    }
}

/// The sentence that tells an operator about a [`ConfigFault`].
pub open spec fn fault_text(fault: ConfigFault) -> Seq<char> {
    match fault {
        ConfigFault::InvalidJson(detail) => "invalid cluster.etcd config JSON: "@ + detail,
        ConfigFault::EmptyEndpoints => "cluster.etcd: endpoints must be non-empty"@,
        ConfigFault::EmptyEndpoint(index) => "cluster.etcd: endpoint["@ + decimal(index as nat)
            + "] is empty"@,
        ConfigFault::MissingScheme(index, endpoint) => "cluster.etcd: endpoint["@ + decimal(
            index as nat,
        ) + "] (`"@ + endpoint
            + "`) has no scheme — etcd-client connects a scheme-less `host:port` in plaintext. Use an explicit `https://` (or `http://`) scheme"@,
        ConfigFault::KeyPrefixMissingTrailingSlash =>
            "cluster.etcd: key_prefix must end with '/'"@,
        ConfigFault::InvalidEventTtl => "cluster.etcd: event_ttl_secs must be > 0"@,
        ConfigFault::HttpsRequiresTls =>
            "cluster.etcd: an https:// endpoint requires a `tls` block (fail-closed) — add `tls: {}` to use system roots, or `tls: { ca_cert: ... }` for a private CA"@,
        ConfigFault::PlaintextAuth =>
            "cluster.etcd: `auth` over a plaintext http:// endpoint would send the password in cleartext — use https:// (with a `tls` block) for an auth-enabled cluster"@,
        ConfigFault::TlsWithoutHttps =>
            "cluster.etcd: a `tls` block is set but no endpoint is https:// — drop `tls` or use https://"@,
        ConfigFault::MixedSchemes =>
            "cluster.etcd: endpoints mix http:// and https:// — use one scheme for all endpoints"@,
        ConfigFault::MtlsHalfPair =>
            "cluster.etcd: tls.client_cert and tls.client_key must be set together (mTLS)"@,
        ConfigFault::TlsFileRead(path, source) => "cluster.etcd: could not read TLS PEM file `"@
            + path + "`: "@ + source,
    }
}

impl ConfigError {
    /// The sentence for the operator.
    pub fn message(&self) -> (r: String)
        ensures
            r@ == fault_text(self@),
    {
        match self {
            ConfigError::InvalidJson(detail) => concat2(
                "invalid cluster.etcd config JSON: ",
                detail.as_str(),
            ),
            ConfigError::EmptyEndpoints => "cluster.etcd: endpoints must be non-empty".to_owned(),
            ConfigError::EmptyEndpoint { index } => concat3(
                "cluster.etcd: endpoint[",
                to_decimal(*index as u128).as_str(),
                "] is empty",
            ),
            ConfigError::MissingScheme { index, endpoint } => {
                let mut text: String = concat4(
                    "cluster.etcd: endpoint[",
                    to_decimal(*index as u128).as_str(),
                    "] (`",
                    endpoint.as_str(),
                );
                text.append(
                    "`) has no scheme — etcd-client connects a scheme-less `host:port` in plaintext. Use an explicit `https://` (or `http://`) scheme",
                );
                text
            },
            ConfigError::KeyPrefixMissingTrailingSlash =>
                "cluster.etcd: key_prefix must end with '/'".to_owned(),
            ConfigError::InvalidEventTtl => "cluster.etcd: event_ttl_secs must be > 0".to_owned(),
            ConfigError::HttpsRequiresTls =>
                "cluster.etcd: an https:// endpoint requires a `tls` block (fail-closed) — add `tls: {}` to use system roots, or `tls: { ca_cert: ... }` for a private CA".to_owned(),
            ConfigError::PlaintextAuth =>
                "cluster.etcd: `auth` over a plaintext http:// endpoint would send the password in cleartext — use https:// (with a `tls` block) for an auth-enabled cluster".to_owned(),
            ConfigError::TlsWithoutHttps =>
                "cluster.etcd: a `tls` block is set but no endpoint is https:// — drop `tls` or use https://".to_owned(),
            ConfigError::MixedSchemes =>
                "cluster.etcd: endpoints mix http:// and https:// — use one scheme for all endpoints".to_owned(),
            ConfigError::MtlsHalfPair =>
                "cluster.etcd: tls.client_cert and tls.client_key must be set together (mTLS)".to_owned(),
            ConfigError::TlsFileRead { path, source } => concat4(
                "cluster.etcd: could not read TLS PEM file `",
                path.as_str(),
                "`: ",
                source.as_str(),
            ),
        }
    }
}

/// Whether the endpoint is reached over TLS.
pub open spec fn is_https(endpoint: Seq<char>) -> bool {
    "https://"@.is_prefix_of(trimmed(endpoint))
}

/// Whether the endpoint is reached in plaintext.
pub open spec fn is_http(endpoint: Seq<char>) -> bool {
    "http://"@.is_prefix_of(trimmed(endpoint))
}

/// Whether the endpoint says how it is reached.
pub open spec fn has_scheme(endpoint: Seq<char>) -> bool {
    is_https(endpoint) || is_http(endpoint)
}

/// Whether `index` is the first endpoint without a scheme.
pub open spec fn first_without_scheme(endpoints: Seq<Seq<char>>, index: int) -> bool {
    &&& 0 <= index < endpoints.len()
    &&& !has_scheme(endpoints[index])
    &&& forall|i: int| 0 <= i < index ==> has_scheme(#[trigger] endpoints[i])
}

/// Whether every endpoint has a scheme.
pub open spec fn all_have_scheme(endpoints: Seq<Seq<char>>) -> bool {
    forall|i: int| 0 <= i < endpoints.len() ==> has_scheme(#[trigger] endpoints[i])
}

/// Whether an endpoint is reached over TLS.
pub open spec fn any_https(endpoints: Seq<Seq<char>>) -> bool {
    exists|i: int| 0 <= i < endpoints.len() && is_https(#[trigger] endpoints[i])
}

/// Whether an endpoint is reached in plaintext.
pub open spec fn any_http(endpoints: Seq<Seq<char>>) -> bool {
    exists|i: int| 0 <= i < endpoints.len() && is_http(#[trigger] endpoints[i])
}

/// Whether exactly one of certificate and key is set.
pub open spec fn half_pair(tls: TlsMaterial) -> bool {
    tls.client_cert is Some != tls.client_key is Some
}

/// The first thing that is wrong with a configuration.
pub open spec fn config_fault(c: Settings) -> Option<ConfigFault> {
    if c.endpoints.len() == 0 {
        Some(ConfigFault::EmptyEndpoints)
    } else if !all_have_scheme(c.endpoints) {
        let index = choose|i: int| first_without_scheme(c.endpoints, i);
        if trimmed(c.endpoints[index]).len() == 0 {
            Some(ConfigFault::EmptyEndpoint(index))
        } else {
            Some(ConfigFault::MissingScheme(index, c.endpoints[index]))
        }
    } else if !(c.key_prefix.len() > 0 && c.key_prefix.last() == '/') {
        Some(ConfigFault::KeyPrefixMissingTrailingSlash)
    } else if c.event_ttl_secs <= 0 {
        Some(ConfigFault::InvalidEventTtl)
    } else if any_http(c.endpoints) && any_https(c.endpoints) {
        Some(ConfigFault::MixedSchemes)
    } else if any_https(c.endpoints) && c.tls is None {
        Some(ConfigFault::HttpsRequiresTls)
    } else if c.tls is Some && !any_https(c.endpoints) {
        Some(ConfigFault::TlsWithoutHttps)
    } else if c.auth is Some && any_http(c.endpoints) {
        Some(ConfigFault::PlaintextAuth)
    } else if c.tls is Some && half_pair(c.tls->0) {
        Some(ConfigFault::MtlsHalfPair)
    } else {
        None
    }
}

/// Whether a configuration is accepted.
pub open spec fn accepted(c: Settings) -> bool {
    config_fault(c) is None
}

impl EtcdConfig {
    /// Takes a decoded configuration over if it is sound. `decoded` is what
    /// the JSON decoder made of the operator's text.
    pub fn parse(decoded: Result<EtcdConfig, String>) -> (r: Result<EtcdConfig, ConfigError>)
        ensures
            match decoded {
                Err(detail) => r is Err && r->Err_0@ == ConfigFault::InvalidJson(detail@),
                Ok(config) => match config_fault(config@) {
                    Some(fault) => r is Err && r->Err_0@ == fault,
                    None => r == Ok::<EtcdConfig, ConfigError>(config),
                },
            },
    {
        match decoded {
            Err(detail) => Err(ConfigError::InvalidJson(detail)),
            Ok(config) => match config.validate() {
                Ok(()) => Ok(config),
                Err(error) => Err(error),
            },
        }
    }

    /// Whether some endpoint, trimmed, begins with `scheme`.
    fn any_endpoint_begins(&self, scheme: &str) -> (r: bool)
        ensures
            r == exists|i: int|
                0 <= i < self@.endpoints.len() && scheme@.is_prefix_of(
                    trimmed(#[trigger] self@.endpoints[i]),
                ),
    {
        let mut at: usize = 0;
        while at < self.endpoints.len()
            invariant
                at <= self.endpoints@.len(),
                self@.endpoints.len() == self.endpoints@.len(),
                forall|i: int|
                    0 <= i < at ==> !scheme@.is_prefix_of(trimmed(#[trigger] self@.endpoints[i])),
            decreases self.endpoints@.len() - at,
        {
            assert(self@.endpoints[at as int] == self.endpoints@[at as int]@);
            if starts_with(trim(self.endpoints[at].as_str()), scheme) {
                return true;
            }
            at = at + 1;
        }
        false
    }

    /// Refuses a configuration that is not sound, with the first thing that is
    /// wrong with it.
    pub fn validate(&self) -> (r: Result<(), ConfigError>)
        ensures
            match config_fault(self@) {
                Some(fault) => r is Err && r->Err_0@ == fault,
                None => r is Ok,
            },
    {
        if self.endpoints.is_empty() {
            return Err(ConfigError::EmptyEndpoints);
        }
        let mut index: usize = 0;
        while index < self.endpoints.len()
            invariant
                0 < self.endpoints@.len(),
                index <= self.endpoints@.len(),
                self@.endpoints.len() == self.endpoints@.len(),
                forall|i: int| 0 <= i < index ==> has_scheme(#[trigger] self@.endpoints[i]),
            decreases self.endpoints@.len() - index,
        {
            let endpoint: &String = &self.endpoints[index];
            let ghost at = index as int;
            assert(self@.endpoints[at] == endpoint@);
            let bare: &str = trim(endpoint.as_str());
            if bare.is_empty() || (!starts_with(bare, "https://") && !starts_with(bare, "http://")) {
                proof {
                    reveal_strlit("https://");
                    reveal_strlit("http://");
                    assert(first_without_scheme(self@.endpoints, at));
                    let chosen = choose|i: int| first_without_scheme(self@.endpoints, i);
                    assert(first_without_scheme(self@.endpoints, chosen));
                    assert(chosen == at);
                }
                if bare.is_empty() {
                    return Err(ConfigError::EmptyEndpoint { index });
                }
                return Err(ConfigError::MissingScheme { index, endpoint: endpoint.clone() });
            }
            index = index + 1;
        }
        if !ends_with(self.key_prefix.as_str(), '/') {
            return Err(ConfigError::KeyPrefixMissingTrailingSlash);
        }
        if self.event_ttl_secs <= 0 {
            return Err(ConfigError::InvalidEventTtl);
        }
        let any_https: bool = self.any_endpoint_begins("https://");
        let any_http: bool = self.any_endpoint_begins("http://");
        if any_http && any_https {
            return Err(ConfigError::MixedSchemes);
        }
        if any_https && self.tls.is_none() {
            return Err(ConfigError::HttpsRequiresTls);
        }
        if self.tls.is_some() && !any_https {
            return Err(ConfigError::TlsWithoutHttps);
        }
        if self.auth.is_some() && any_http {
            return Err(ConfigError::PlaintextAuth);
        }
        match &self.tls {
            Some(tls) => {
                if tls.client_cert.is_some() != tls.client_key.is_some() {
                    return Err(ConfigError::MtlsHalfPair);
                }
            },
            None => {},
        }
        Ok(())
    }
}

} // verus!
