//! What the coordinator is called, what it calls things, and what it starts as.
use vstd::prelude::*;

use crate::backend::{
    connection_after, first_segment, is_manifest_of, placeholder, separator_at, started,
    ends_first_segment, PluginClass, PluginManifest, Surroundings,
};
use crate::config::Settings;
use crate::error::ClusterError;
use crate::names::{event_name, identity, name_in, topic_prefix, Keyspace};
use crate::text::{contents, decimal};
use crate::time::rfc3339;

verus! {

/// Every name is the prefix, the word of its keyspace and what is named, and
/// those of events lie under their topic, with their time and their random
/// number.
pub proof fn names_are_spelt_out(
    prefix: Seq<char>,
    rest: Seq<char>,
    topic: Seq<char>,
    nanos: nat,
    random: nat,
)
    ensures
        name_in(prefix, Keyspace::Kv, rest) == prefix + "kv/"@ + rest,
        name_in(prefix, Keyspace::Leadership, rest) == prefix + "leadership/"@ + rest,
        name_in(prefix, Keyspace::Locks, rest) == prefix + "locks/"@ + rest,
        name_in(prefix, Keyspace::Events, rest) == prefix + "events/"@ + rest,
        name_in(prefix, Keyspace::Peers, rest) == prefix + "peers/"@ + rest,
        topic_prefix(prefix, topic) == prefix + "events/"@ + topic + "/"@,
        event_name(prefix, topic, nanos, random) == prefix + "events/"@ + topic + "/"@ + decimal(
            nanos,
        ) + "-"@ + decimal(random),
{
    assert(prefix + "events/"@ + (topic + "/"@) =~= prefix + "events/"@ + topic + "/"@);
}

/// A node is called what the configuration says; where it says nothing, after
/// the prefix and the host, and where the host is not known, after neither.
pub proof fn nodes_are_called_as_configured(c: Settings, host: Seq<char>)
    ensures
        c.node_id is Some ==> identity(c, Some(host)) == c.node_id->0 && identity(c, None)
            == c.node_id->0,
        c.node_id is None ==> identity(c, Some(host)) == c.key_prefix + "node-"@ + host,
        c.node_id is None ==> identity(c, None) == c.key_prefix + "node-unknown"@,
{
    reveal_strlit("node-");
    reveal_strlit("unknown");
    reveal_strlit("node-unknown");
    assert(c.key_prefix + "node-"@ + "unknown"@ =~= c.key_prefix + "node-unknown"@);
}

/// The first segment of a path ends before its first `::`, and is the whole path
/// where there is none.
pub proof fn first_segments_end_before_the_separator(path: Seq<char>, at: int)
    requires
        0 <= at <= path.len(),
        forall|i: int|
            0 <= i < at && i + 1 < path.len() && (#[trigger] path[i]) == ':' ==> path[i + 1] != ':',
        at < path.len() ==> at + 1 < path.len() && path[at] == ':' && path[at + 1] == ':',
    ensures
        first_segment(path) == path.take(at),
{
    assert(ends_first_segment(path, at)) by {
        assert forall|i: int| 0 <= i < at implies !separator_at(path, i) by {
            if i + 1 < path.len() && path[i] == ':' {
                assert(path[i + 1] != ':');
            }
        }
    }
    let chosen = choose|end: int| ends_first_segment(path, end);
    assert(ends_first_segment(path, chosen));
    if chosen < at {
        assert(!separator_at(path, chosen));
    } else if at < chosen {
        assert(!separator_at(path, at));
    }
}

/// A coordinator starts with its configuration as it is, the version and the
/// module that it is told, the name that the configuration gives it, and the
/// time at which it starts.
pub proof fn coordinators_start_as_configured(c: Settings, around: Surroundings)
    ensures
        started(c, around).config == c,
        started(c, around).version == around.version@,
        started(c, around).module_path_prefix == first_segment(around.module@),
        started(c, around).started_at == rfc3339(around.now.secs as int),
        around.hostname is Some ==> started(c, around).node_id == identity(
            c,
            Some(around.hostname->0@),
        ),
        around.hostname is None ==> started(c, around).node_id == identity(c, None),
{
}

/// The configuration that a probe starts with has one local endpoint, the
/// default prefix, lifetime and share, and nothing else.
pub proof fn probes_start_with_defaults()
    ensures
        placeholder().endpoints.len() == 1,
        placeholder().endpoints[0] == "http://127.0.0.1:2379"@,
        placeholder().auth is None,
        placeholder().tls is None,
        placeholder().key_prefix == "/mcpg/"@,
        placeholder().node_id is None,
        placeholder().event_ttl_secs == 60,
        placeholder().lease_renew_before_expiry_percent == 30,
{
}

/// The manifest says what the coordinator is: its identity, its class and its
/// protocol, that it provides the bus and the key-value store, and nothing
/// besides.
pub proof fn manifests_say_what_is_provided(
    m: PluginManifest,
    version: Seq<char>,
    module: Seq<char>,
)
    ensures
        is_manifest_of(m, version, module) ==> {
            &&& m.id@ == "dev.mcpg.cluster.etcd"@
            &&& m.version@ == version
            &&& m.name@ == "etcd Cluster Coordinator"@
            &&& m.plugin_class == PluginClass::Cluster
            &&& m.protocol_version@ == "1.0"@
            &&& m.license is None
            &&& m.required_capabilities@.len() == 0
            &&& m.tags@.len() == 0
            &&& m.provides@.len() == 2
            &&& m.provides@[0]@ == "bus"@
            &&& m.provides@[1]@ == "kv"@
            &&& m.provides_schemes@.len() == 0
            &&& m.module_path_prefix@ == module
            &&& m.backend_profile is None
        },
{
    if is_manifest_of(m, version, module) {
        let provided = contents(m.provides@);
        assert(provided.len() == 2);
        assert(provided[0] == m.provides@[0]@ && provided[1] == m.provides@[1]@);
    }
}

/// A connection that there is stays; where there is none, the one that was
/// opened is kept, and none where that failed.
pub proof fn connections_are_kept<C>(held: C, opened: Result<C, ClusterError>)
    ensures
        connection_after(Some(held), opened) == Some(held),
        opened is Ok ==> connection_after(None, opened) == Some(opened->Ok_0),
        opened is Err ==> connection_after(None, opened) is None,
{
}

} // verus!
