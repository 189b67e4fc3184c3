//! Which configurations are refused, for which reason, and in which words.
use vstd::prelude::*;

use crate::backend::{decoded_fault, refusal};
use crate::config::{
    accepted, all_have_scheme, any_http, any_https, config_fault, fault_text, first_without_scheme,
    has_scheme, is_http, is_https, ConfigError, ConfigFault, EtcdConfig, Settings, TlsConfig,
    AuthConfig,
};
use crate::text::{decimal, trimmed};

verus! {

/// Whether the endpoint, without the white space around it, begins with the
/// scheme.
pub open spec fn uses(endpoint: Seq<char>, scheme: Seq<char>) -> bool {
    scheme.is_prefix_of(trimmed(endpoint))
}

/// Whether any endpoint begins with the scheme.
pub open spec fn some_use(endpoints: Seq<Seq<char>>, scheme: Seq<char>) -> bool {
    exists|i: int| 0 <= i < endpoints.len() && uses(#[trigger] endpoints[i], scheme)
}

/// Whether the endpoint names one of the two schemes.
pub open spec fn names_a_scheme(endpoint: Seq<char>) -> bool {
    uses(endpoint, "https://"@) || uses(endpoint, "http://"@)
}

/// A configuration without endpoints is refused as such, and one without a fault
/// is accepted.
pub proof fn endpoints_are_required(c: Settings)
    ensures
        c.endpoints.len() == 0 <==> config_fault(c) == Some(ConfigFault::EmptyEndpoints),
        accepted(c) <==> config_fault(c) is None,
{
}

/// The first endpoint that names no scheme is what a configuration is refused
/// for, whatever else is wrong: as empty, where there is nothing but white space,
/// and as one without a scheme otherwise.
pub proof fn the_first_endpoint_without_a_scheme_counts(c: Settings, at: int)
    requires
        0 <= at < c.endpoints.len(),
        forall|i: int| 0 <= i < at ==> names_a_scheme(#[trigger] c.endpoints[i]),
        !names_a_scheme(c.endpoints[at]),
    ensures
        trimmed(c.endpoints[at]).len() == 0 ==> config_fault(c) == Some(
            ConfigFault::EmptyEndpoint(at),
        ),
        trimmed(c.endpoints[at]).len() > 0 ==> config_fault(c) == Some(
            ConfigFault::MissingScheme(at, c.endpoints[at]),
        ),
{
    assert forall|i: int| 0 <= i < at implies has_scheme(#[trigger] c.endpoints[i]) by {
        assert(names_a_scheme(c.endpoints[i]));
    }
    assert(first_without_scheme(c.endpoints, at));
    let chosen = choose|i: int| first_without_scheme(c.endpoints, i);
    assert(first_without_scheme(c.endpoints, chosen));
    assert(chosen == at) by {
        if chosen < at {
            assert(has_scheme(c.endpoints[chosen]));
        } else if at < chosen {
            assert(has_scheme(c.endpoints[at]));
        }
    }
    assert(!all_have_scheme(c.endpoints));
}

/// Where every endpoint names a scheme, a configuration is refused for the first
/// of these that is the case, and accepted where none is: its prefix does not
/// end in a slash; its events do not live; its endpoints mix the schemes; an
/// `https` endpoint comes without a TLS block; a TLS block comes without an
/// `https` endpoint; credentials would go over `http`; the client's certificate
/// comes without its key, or the key without the certificate.
pub proof fn configurations_are_refused_in_order(c: Settings)
    requires
        c.endpoints.len() > 0,
        forall|i: int| 0 <= i < c.endpoints.len() ==> names_a_scheme(#[trigger] c.endpoints[i]),
    ensures
        ({
            let slash = c.key_prefix.len() > 0 && c.key_prefix.last() == '/';
            let lives = c.event_ttl_secs > 0;
            let https = some_use(c.endpoints, "https://"@);
            let http = some_use(c.endpoints, "http://"@);
            let half = c.tls is Some && (c.tls->0.client_cert is Some) != (c.tls->0.client_key
                is Some);
            let fault = config_fault(c);
            &&& !slash ==> fault == Some(ConfigFault::KeyPrefixMissingTrailingSlash)
            &&& slash && !lives ==> fault == Some(ConfigFault::InvalidEventTtl)
            &&& slash && lives && http && https ==> fault == Some(ConfigFault::MixedSchemes)
            &&& slash && lives && https && !http && c.tls is None ==> fault == Some(
                ConfigFault::HttpsRequiresTls,
            )
            &&& slash && lives && !https && c.tls is Some ==> fault == Some(
                ConfigFault::TlsWithoutHttps,
            )
            &&& slash && lives && !https && c.tls is None && c.auth is Some ==> fault == Some(
                ConfigFault::PlaintextAuth,
            )
            &&& slash && lives && https && !http && half ==> fault == Some(
                ConfigFault::MtlsHalfPair,
            )
            &&& slash && lives && https && !http && c.tls is Some && !half ==> fault is None
            &&& slash && lives && !https && c.tls is None && c.auth is None ==> fault is None
        }),
{
    assert(all_have_scheme(c.endpoints)) by {
        assert forall|i: int| 0 <= i < c.endpoints.len() implies has_scheme(
            #[trigger] c.endpoints[i],
        ) by {
            assert(names_a_scheme(c.endpoints[i]));
        }
    }
    assert(any_https(c.endpoints) == some_use(c.endpoints, "https://"@)) by {
        if any_https(c.endpoints) {
            let i = choose|i: int|
                0 <= i < c.endpoints.len() && is_https(#[trigger] c.endpoints[i]);
            assert(uses(c.endpoints[i], "https://"@));
        }
        if some_use(c.endpoints, "https://"@) {
            let i = choose|i: int|
                0 <= i < c.endpoints.len() && uses(#[trigger] c.endpoints[i], "https://"@);
            assert(is_https(c.endpoints[i]));
        }
    }
    assert(any_http(c.endpoints) == some_use(c.endpoints, "http://"@)) by {
        if any_http(c.endpoints) {
            let i = choose|i: int| 0 <= i < c.endpoints.len() && is_http(#[trigger] c.endpoints[i]);
            assert(uses(c.endpoints[i], "http://"@));
        }
        if some_use(c.endpoints, "http://"@) {
            let i = choose|i: int|
                0 <= i < c.endpoints.len() && uses(#[trigger] c.endpoints[i], "http://"@);
            assert(is_http(c.endpoints[i]));
        }
    }
    assert(names_a_scheme(c.endpoints[0]));
    assert(some_use(c.endpoints, "https://"@) || some_use(c.endpoints, "http://"@)) by {
        if uses(c.endpoints[0], "https://"@) {
            assert(some_use(c.endpoints, "https://"@));
        } else {
            assert(some_use(c.endpoints, "http://"@));
        }
    }
}

/// A scheme is named by its characters, in lower case, and its colon and
/// slashes.
pub proof fn schemes_are_spelt_out()
    ensures
        "https://"@ == seq!['h', 't', 't', 'p', 's', ':', '/', '/'],
        "http://"@ == seq!['h', 't', 't', 'p', ':', '/', '/'],
{
    reveal_strlit("https://");
    reveal_strlit("http://");
    assert("https://"@ =~= seq!['h', 't', 't', 'p', 's', ':', '/', '/']);
    assert("http://"@ =~= seq!['h', 't', 't', 'p', ':', '/', '/']);
}

/// Each fault is told in words of its own, with the index of the endpoint, the
/// endpoint, the path and the detail that belong to it.
pub proof fn faults_are_told_in_words(
    detail: Seq<char>,
    index: nat,
    endpoint: Seq<char>,
    path: Seq<char>,
)
    ensures
        fault_text(ConfigFault::InvalidJson(detail)) == "invalid cluster.etcd config JSON: "@
            + detail,
        fault_text(ConfigFault::EmptyEndpoints) == "cluster.etcd: endpoints must be non-empty"@,
        fault_text(ConfigFault::EmptyEndpoint(index as int)) == "cluster.etcd: endpoint["@
            + decimal(index) + "] is empty"@,
        fault_text(ConfigFault::MissingScheme(index as int, endpoint))
            == "cluster.etcd: endpoint["@ + decimal(index) + "] (`"@ + endpoint
            + "`) has no scheme — etcd-client connects a scheme-less `host:port` in plaintext. Use an explicit `https://` (or `http://`) scheme"@,
        fault_text(ConfigFault::KeyPrefixMissingTrailingSlash)
            == "cluster.etcd: key_prefix must end with '/'"@,
        fault_text(ConfigFault::InvalidEventTtl) == "cluster.etcd: event_ttl_secs must be > 0"@,
        fault_text(ConfigFault::HttpsRequiresTls)
            == "cluster.etcd: an https:// endpoint requires a `tls` block (fail-closed) — add `tls: {}` to use system roots, or `tls: { ca_cert: ... }` for a private CA"@,
        fault_text(ConfigFault::PlaintextAuth)
            == "cluster.etcd: `auth` over a plaintext http:// endpoint would send the password in cleartext — use https:// (with a `tls` block) for an auth-enabled cluster"@,
        fault_text(ConfigFault::TlsWithoutHttps)
            == "cluster.etcd: a `tls` block is set but no endpoint is https:// — drop `tls` or use https://"@,
        fault_text(ConfigFault::MixedSchemes)
            == "cluster.etcd: endpoints mix http:// and https:// — use one scheme for all endpoints"@,
        fault_text(ConfigFault::MtlsHalfPair)
            == "cluster.etcd: tls.client_cert and tls.client_key must be set together (mTLS)"@,
        fault_text(ConfigFault::TlsFileRead(path, detail))
            == "cluster.etcd: could not read TLS PEM file `"@ + path + "`: "@ + detail,
{
}

/// Errors hold what is told of them.
pub proof fn errors_hold_their_details(detail: String, index: usize, endpoint: String, path: String)
    ensures
        ConfigError::InvalidJson(detail)@ == ConfigFault::InvalidJson(detail@),
        ConfigError::EmptyEndpoints@ == ConfigFault::EmptyEndpoints,
        (ConfigError::EmptyEndpoint { index })@ == ConfigFault::EmptyEndpoint(index as int),
        (ConfigError::MissingScheme { index, endpoint })@ == ConfigFault::MissingScheme(
            index as int,
            endpoint@,
        ),
        ConfigError::KeyPrefixMissingTrailingSlash@ == ConfigFault::KeyPrefixMissingTrailingSlash,
        ConfigError::InvalidEventTtl@ == ConfigFault::InvalidEventTtl,
        ConfigError::HttpsRequiresTls@ == ConfigFault::HttpsRequiresTls,
        ConfigError::PlaintextAuth@ == ConfigFault::PlaintextAuth,
        ConfigError::TlsWithoutHttps@ == ConfigFault::TlsWithoutHttps,
        ConfigError::MixedSchemes@ == ConfigFault::MixedSchemes,
        ConfigError::MtlsHalfPair@ == ConfigFault::MtlsHalfPair,
        (ConfigError::TlsFileRead { path, source: detail })@ == ConfigFault::TlsFileRead(
            path@,
            detail@,
        ),
{
}

/// What cannot be decoded is refused for what is wrong with it, and what can be
/// for what [`configurations_are_refused_in_order`] says; the refusal tells the
/// fault.
pub proof fn refusals_tell_the_fault(config: EtcdConfig, detail: String, fault: ConfigFault)
    ensures
        decoded_fault(Err(detail)) == Some(ConfigFault::InvalidJson(detail@)),
        decoded_fault(Ok(config)) == config_fault(config@),
        refusal(fault) == "etcd cluster config parse failed: "@ + fault_text(fault)
            + ". A misconfigured cluster_backend is a security hole; refusing to load."@,
{
}

/// Settings are what the configuration holds, field by field.
pub proof fn settings_are_what_is_configured(
    config: EtcdConfig,
    auth: AuthConfig,
    tls: TlsConfig,
    at: int,
)
    ensures
        config@.endpoints.len() == config.endpoints@.len(),
        0 <= at < config.endpoints@.len() ==> config@.endpoints[at] == config.endpoints@[at]@,
        config@.auth is Some <==> config.auth is Some,
        config.auth == Some(auth) ==> config@.auth->0.username == auth.username@,
        config.auth == Some(auth) ==> config@.auth->0.password == auth.password@,
        config@.tls is Some <==> config.tls is Some,
        config.tls == Some(tls) ==> {
            let held = config@.tls->0;
            &&& held.ca_cert is Some <==> tls.ca_cert is Some
            &&& tls.ca_cert is Some ==> held.ca_cert->0 == tls.ca_cert->0@
            &&& held.client_cert is Some <==> tls.client_cert is Some
            &&& tls.client_cert is Some ==> held.client_cert->0 == tls.client_cert->0@
            &&& held.client_key is Some <==> tls.client_key is Some
            &&& tls.client_key is Some ==> held.client_key->0 == tls.client_key->0@
            &&& held.domain_name is Some <==> tls.domain_name is Some
            &&& tls.domain_name is Some ==> held.domain_name->0 == tls.domain_name->0@
        },
        config@.key_prefix == config.key_prefix@,
        config@.node_id is Some <==> config.node_id is Some,
        config.node_id is Some ==> config@.node_id->0 == config.node_id->0@,
        config@.event_ttl_secs == config.event_ttl_secs,
        config@.lease_renew_before_expiry_percent == config.lease_renew_before_expiry_percent,
{
}

} // verus!
