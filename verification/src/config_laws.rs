//! What an accepted configuration guarantees.
use vstd::prelude::*;

use crate::backend::{
    configured_user, connect_first, connect_gathering, connect_next, connection_after,
    ensure_first, ConnectNext, Connecting,
};
use crate::config::{
    accepted, all_have_scheme, any_http, any_https, config_fault, first_without_scheme, has_scheme,
    fault_text, is_http, is_https, ConfigFault, Settings,
};
use crate::error::{call_failed, ClusterError, Fault};
use crate::protocol::{Answer, Call, Next};
use crate::text::trimmed;
use crate::tls::{
    gathered, material, onward_asks_for_what_is_left, pending, tls_first, tls_next,
    tls_settings_hold_the_material, Gathering, Tls, TlsNext,
};

verus! {

/// No endpoint is both plaintext and TLS.
proof fn schemes_exclude_each_other(endpoint: Seq<char>)
    ensures
        !(is_http(endpoint) && is_https(endpoint)),
{
    reveal_strlit("https://");
    reveal_strlit("http://");
    let bare = trimmed(endpoint);
    if is_http(endpoint) && is_https(endpoint) {
        assert("http://"@[4] == ':');
        assert("https://"@[4] == 's');
        assert(bare.take("http://"@.len() as int)[4] == bare[4]);
        assert(bare.take("https://"@.len() as int)[4] == bare[4]);
    }
}

/// An accepted configuration is sound in every respect: it names endpoints,
/// all with a scheme and all with the same; they are reached over TLS if and
/// only if there is a TLS block; credentials are only sent over TLS; client
/// certificate and key come together; the prefix ends in `/`; events live for
/// a while.
pub proof fn accepted_configurations_are_sound(c: Settings)
    requires
        accepted(c),
    ensures
        c.endpoints.len() > 0,
        c.tls is Some ==> forall|i: int|
            0 <= i < c.endpoints.len() ==> is_https(#[trigger] c.endpoints[i]),
        c.tls is None ==> forall|i: int|
            0 <= i < c.endpoints.len() ==> is_http(#[trigger] c.endpoints[i]),
        c.auth is Some ==> forall|i: int|
            0 <= i < c.endpoints.len() ==> !is_http(#[trigger] c.endpoints[i]),
        c.auth is Some ==> c.tls is Some,
        c.tls matches Some(tls) ==> (tls.client_cert is Some <==> tls.client_key is Some),
        c.key_prefix.last() == '/',
        c.key_prefix.len() > 0,
        c.event_ttl_secs > 0,
{
    assert forall|i: int| 0 <= i < c.endpoints.len() implies is_http(c.endpoints[i])
        || is_https(#[trigger] c.endpoints[i]) by {
        assert(all_have_scheme(c.endpoints));
    }
    if c.tls is Some {
        assert forall|i: int| 0 <= i < c.endpoints.len() implies is_https(
            #[trigger] c.endpoints[i],
        ) by {
            if is_http(c.endpoints[i]) {
                assert(any_http(c.endpoints));
                assert(any_https(c.endpoints));
            }
        }
    } else {
        assert forall|i: int| 0 <= i < c.endpoints.len() implies is_http(
            #[trigger] c.endpoints[i],
        ) by {
            if is_https(c.endpoints[i]) {
                assert(any_https(c.endpoints));
            }
        }
    }
    if c.auth is Some {
        assert forall|i: int| 0 <= i < c.endpoints.len() implies !is_http(
            #[trigger] c.endpoints[i],
        ) by {
            if is_http(c.endpoints[i]) {
                assert(any_http(c.endpoints));
            }
        }
        assert(!is_http(c.endpoints[0]));
        assert(is_https(c.endpoints[0]));
        assert(any_https(c.endpoints));
    }
}

/// Conversely, a configuration that is sound in these respects is accepted.
pub proof fn sound_configurations_are_accepted(c: Settings)
    requires
        c.endpoints.len() > 0,
        c.tls is Some ==> forall|i: int|
            0 <= i < c.endpoints.len() ==> is_https(#[trigger] c.endpoints[i]),
        c.tls is None ==> forall|i: int|
            0 <= i < c.endpoints.len() ==> is_http(#[trigger] c.endpoints[i]),
        c.auth is Some ==> c.tls is Some,
        c.tls matches Some(tls) ==> (tls.client_cert is Some <==> tls.client_key is Some),
        c.key_prefix.len() > 0,
        c.key_prefix.last() == '/',
        c.event_ttl_secs > 0,
    ensures
        accepted(c),
{
    assert forall|i: int| 0 <= i < c.endpoints.len() implies is_http(#[trigger] c.endpoints[i])
        != is_https(c.endpoints[i]) by {
        schemes_exclude_each_other(c.endpoints[i]);
    }
    if c.tls is Some {
        assert(is_https(c.endpoints[0]));
        assert(any_https(c.endpoints));
        assert(!any_http(c.endpoints));
    } else {
        assert(!any_https(c.endpoints));
    }
    assert(all_have_scheme(c.endpoints));
}

proof fn some_endpoint_is_the_first(endpoints: Seq<Seq<char>>, bad: int)
    requires
        0 <= bad < endpoints.len(),
        !has_scheme(endpoints[bad]),
    ensures
        exists|i: int| first_without_scheme(endpoints, i),
    decreases bad,
{
    if forall|i: int| 0 <= i < bad ==> has_scheme(#[trigger] endpoints[i]) {
        assert(first_without_scheme(endpoints, bad));
    } else {
        let earlier = choose|i: int|
            0 <= i < bad && !has_scheme(#[trigger] endpoints[i]);
        some_endpoint_is_the_first(endpoints, earlier);
    }
}

/// Where an endpoint has no scheme, the first such endpoint is the one that
/// the operator is told about.
pub proof fn the_first_bad_endpoint_is_named(c: Settings, index: int)
    requires
        first_without_scheme(c.endpoints, index),
    ensures
        config_fault(c) == Some(
            if trimmed(c.endpoints[index]).len() == 0 {
                ConfigFault::EmptyEndpoint(index)
            } else {
                ConfigFault::MissingScheme(index, c.endpoints[index])
            },
        ),
{
    some_endpoint_is_the_first(c.endpoints, index);
    let chosen = choose|i: int| first_without_scheme(c.endpoints, i);
    assert(first_without_scheme(c.endpoints, chosen));
    assert(chosen == index);
    assert(!all_have_scheme(c.endpoints));
}

// ---------------------------------------------------------------------------
// the connection
// ---------------------------------------------------------------------------

/// The connection after attempts to connect that ended with `outcomes`.
pub open spec fn connection_of<C>(outcomes: Seq<Result<C, ClusterError>>) -> Option<C>
    decreases outcomes.len(),
{
    if outcomes.len() == 0 {
        None
    } else {
        connection_after(connection_of(outcomes.drop_last()), outcomes.last())
    }
}

/// After an attempt that failed the next one tries again; until one succeeds
/// there is no connection.
pub proof fn failed_connections_are_tried_again<C>(
    c: Settings,
    outcomes: Seq<Result<C, ClusterError>>,
)
    requires
        forall|i: int| 0 <= i < outcomes.len() ==> #[trigger] outcomes[i] is Err,
    ensures
        connection_of(outcomes) is None,
        ensure_first(c, connection_of(outcomes) is Some) == connect_first(c),
    decreases outcomes.len(),
{
    if outcomes.len() > 0 {
        let before = outcomes.drop_last();
        assert forall|i: int| 0 <= i < before.len() implies #[trigger] before[i] is Err by {
            assert(before[i] == outcomes[i]);
        }
        failed_connections_are_tried_again(c, before);
    }
}

/// A connection is made once and reused: from the first attempt that succeeds
/// on, the coordinator keeps its client, whatever comes later, and nothing is
/// asked for any more to be connected.
pub proof fn connections_are_made_once<C>(
    c: Settings,
    outcomes: Seq<Result<C, ClusterError>>,
    first: int,
)
    requires
        0 <= first < outcomes.len(),
        outcomes[first] is Ok,
        forall|i: int| 0 <= i < first ==> #[trigger] outcomes[i] is Err,
    ensures
        connection_of(outcomes) == Some(outcomes[first]->Ok_0),
        ensure_first(c, connection_of(outcomes) is Some) == ConnectNext::Finished(Ok(())),
    decreases outcomes.len(),
{
    let before = outcomes.drop_last();
    assert forall|i: int| 0 <= i < before.len() && i < first implies #[trigger] before[i] is Err by {
        assert(before[i] == outcomes[i]);
    }
    if first == outcomes.len() - 1 {
        failed_connections_are_tried_again(c, before);
    } else {
        assert(before[first] == outcomes[first]);
        connections_are_made_once(c, before, first);
    }
}

/// Where the TLS material cannot be read, no connection is opened and the
/// failure is an internal one; where the connection cannot be opened, etcd is
/// unavailable.
pub proof fn failures_to_connect_tell_why(
    state: Gathering,
    endpoints: Seq<Seq<char>>,
    user: Option<(Seq<char>, Seq<char>)>,
    source: Seq<char>,
    detail: Seq<char>,
)
    ensures
        connect_next(Connecting::Gather(state, endpoints, user), Answer::Failed(source))
            == ConnectNext::Finished(
            Err(
                Fault::Internal(
                    "etcd TLS config"@ + ": "@ + fault_text(
                        ConfigFault::TlsFileRead(state.path, source),
                    ),
                ),
            ),
        ),
        connect_next(Connecting::Open, Answer::Failed(detail)) == ConnectNext::Finished(
            Err(call_failed("etcd connect"@, detail)),
        ),
{
}

// ---------------------------------------------------------------------------
// connecting
// ---------------------------------------------------------------------------

/// How many files connecting may still read.
pub open spec fn to_gather(at: ConnectNext) -> nat {
    match at {
        Next::Ask(_, Connecting::Gather(state, _, _)) => 1 + state.rest.len(),
        _ => 0,
    }
}

/// The connection that is opened, on a system with the given files.
pub open spec fn opened(at: ConnectNext, files: Map<Seq<char>, Seq<u8>>) -> Option<Call>
    decreases to_gather(at),
{
    match at {
        Next::Ask(_, Connecting::Gather(state, endpoints, user)) => {
            proof {
                onward_asks_for_what_is_left(
                    state.has_ca,
                    state.domain_name,
                    state.resolved.push(files[state.path]),
                    state.rest,
                );
            }
            opened(
                connect_next(
                    Connecting::Gather(state, endpoints, user),
                    Answer::Bytes(files[state.path]),
                ),
                files,
            )
        },
        Next::Ask(call, Connecting::Open) => Some(call),
        Next::Finished(_) => None,
    }
}

proof fn gathering_inside_connecting(
    at: TlsNext,
    endpoints: Seq<Seq<char>>,
    user: Option<(Seq<char>, Seq<char>)>,
    files: Map<Seq<char>, Seq<u8>>,
)
    ensures
        opened(connect_gathering(at, endpoints, user), files) == match gathered(at, files) {
            Ok(tls) => Some(Call::Open(endpoints, user, tls)),
            Err(_) => None,
        },
    decreases pending(at),
{
    match at {
        Next::Ask(_, state) => {
            onward_asks_for_what_is_left(
                state.has_ca,
                state.domain_name,
                state.resolved.push(files[state.path]),
                state.rest,
            );
            gathering_inside_connecting(
                tls_next(state, Answer::Bytes(files[state.path])),
                endpoints,
                user,
                files,
            );
        },
        Next::Finished(_) => {},
    }
}

/// A connection is opened to the configured endpoints, with the configured
/// credentials, and with TLS if and only if it is configured.
pub proof fn connections_are_as_configured(c: Settings, files: Map<Seq<char>, Seq<u8>>)
    ensures
        opened(connect_first(c), files) == Some(
            Call::Open(
                c.endpoints,
                configured_user(c),
                match c.tls {
                    Some(tls) => Some(material(tls, files)),
                    None => None,
                },
            ),
        ),
{
    gathering_inside_connecting(tls_first(c.tls), c.endpoints, configured_user(c), files);
    match c.tls {
        Some(tls) => {
            tls_settings_hold_the_material(tls, files);
        },
        None => {},
    }
}

/// Under an accepted configuration credentials never cross the wire in
/// cleartext: a connection that carries them uses TLS, to endpoints that all
/// are `https://`.
pub proof fn credentials_are_never_sent_in_cleartext(
    c: Settings,
    files: Map<Seq<char>, Seq<u8>>,
    endpoints: Seq<Seq<char>>,
    user: Option<(Seq<char>, Seq<char>)>,
    tls: Option<Tls>,
)
    requires
        accepted(c),
        opened(connect_first(c), files) == Some(Call::Open(endpoints, user, tls)),
        user is Some,
    ensures
        tls is Some,
        forall|i: int| 0 <= i < endpoints.len() ==> is_https(#[trigger] endpoints[i]),
{
    connections_are_as_configured(c, files);
    accepted_configurations_are_sound(c);
}

} // verus!
