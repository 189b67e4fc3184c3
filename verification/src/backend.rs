//! The coordinator as its host sees it.
use vstd::pervasive::unreached;
use vstd::prelude::*;
use vstd::string::*;

use crate::config::{
    accepted, config_fault, default_event_ttl_secs, default_key_prefix, default_renew_pct,
    fault_text, ConfigError, ConfigFault, EtcdConfig, Settings,
};
use crate::error::{backend_unavailable, call_failed, internal, ClusterError, Fault};
use crate::kv::EtcdKv;
use crate::lease::{
    acquire, acquire_first, renewal_interval, renewal_nanos, try_acquire, try_first, AcquireNext,
    AcquireOp, LeaseState, TryAcquireOp, TryNext,
};
use crate::names::{identity, name_in, Keyspace};
use crate::protocol::{fits, Answer, Call, Kind, Next, Reply, Request, Step};
use crate::text::{concat3, contents, join, joined, left_trimmed, right_trimmed};
use crate::time::{now_rfc3339, rfc3339, TimeSpan, UnixTime};
use crate::tls::{tls_first, tls_next, Gathering, TlsNext, TlsOp, TlsSettings};

verus! {

/// What a plugin is for.
#[derive(Clone, Copy, Debug, PartialEq, Eq, Structural)]
pub enum PluginClass {
    Cluster,
}

/// What the host reads of a plugin before it uses it.
#[derive(Debug)]
pub struct PluginManifest {
    pub id: String,
    pub version: String,
    pub name: String,
    pub plugin_class: PluginClass,
    pub protocol_version: String,
    pub license: Option<String>,
    pub required_capabilities: Vec<String>,
    pub tags: Vec<String>,
    /// The slots that the plugin can fill: `bus` through watched keys, `kv`
    /// through the key-value store.
    pub provides: Vec<String>,
    pub provides_schemes: Vec<String>,
    pub module_path_prefix: String,
    pub backend_profile: Option<String>,
}

/// What the host reads of this node.
#[derive(Debug)]
pub struct ClusterNodeInfo {
    pub node_id: String,
    /// The etcd endpoints, separated by commas.
    pub address: String,
    pub version: String,
    pub started_at: String,
    pub roles: Vec<String>,
}

/// The coordinator of one node.
#[derive(Debug)]
pub struct EtcdBackend {
    manifest: PluginManifest,
    config: EtcdConfig,
    node_id: String,
    started_at: String,
}

/// The content of an [`EtcdBackend`].
pub struct Backend {
    pub version: Seq<char>,
    pub module_path_prefix: Seq<char>,
    pub config: Settings,
    pub node_id: Seq<char>,
    pub started_at: Seq<char>,
}

/// Whether the manifest is that of the coordinator in the given version, whose
/// code lies under the given module.
pub open spec fn is_manifest_of(
    m: PluginManifest,
    version: Seq<char>,
    module_path_prefix: Seq<char>,
) -> bool {
    &&& m.id@ == "dev.mcpg.cluster.etcd"@
    &&& m.version@ == version
    &&& m.name@ == "etcd Cluster Coordinator"@
    &&& m.plugin_class == PluginClass::Cluster
    &&& m.protocol_version@ == "1.0"@
    &&& m.license is None
    &&& m.required_capabilities@.len() == 0
    &&& m.tags@.len() == 0
    &&& contents(m.provides@) == seq!["bus"@, "kv"@]
    &&& m.provides_schemes@.len() == 0
    &&& m.module_path_prefix@ == module_path_prefix
    &&& m.backend_profile is None
}

impl EtcdBackend {
    /// The configuration is sound, and the manifest is that of the coordinator.
    #[verifier::type_invariant]
    closed spec fn inv(self) -> bool {
        &&& accepted(self.config@)
        &&& is_manifest_of(
            self.manifest,
            self.manifest.version@,
            self.manifest.module_path_prefix@,
        )
    }
}

impl View for EtcdBackend {
    type V = Backend;

    closed spec fn view(&self) -> Backend {
        Backend {
            version: self.manifest.version@,
            module_path_prefix: self.manifest.module_path_prefix@,
            config: self.config@,
            node_id: self.node_id@,
            started_at: self.started_at@,
        }
    }
}

// ---------------------------------------------------------------------------
// starting
// ---------------------------------------------------------------------------

/// Whether a path separator stands at `at`.
pub open spec fn separator_at(path: Seq<char>, at: int) -> bool {
    0 <= at && at + 1 < path.len() && path[at] == ':' && path[at + 1] == ':'
}

/// The part of a module path before its first `::`, which begins at `at`.
pub open spec fn ends_first_segment(path: Seq<char>, at: int) -> bool {
    &&& 0 <= at <= path.len()
    &&& forall|i: int| 0 <= i < at ==> !separator_at(path, i)
    &&& at == path.len() || separator_at(path, at)
}

/// The first segment of a module path: all of a path without `::`.
pub open spec fn first_segment(path: Seq<char>) -> Seq<char> {
    path.take(choose|at: int| ends_first_segment(path, at))
}

proof fn first_segment_ends_once(path: Seq<char>, at: int)
    requires
        ends_first_segment(path, at),
    ensures
        first_segment(path) == path.take(at),
{
    let chosen = choose|at: int| ends_first_segment(path, at);
    assert(ends_first_segment(path, chosen));
    if chosen < at {
        assert(!separator_at(path, chosen));
        assert(chosen == path.len());
    } else if at < chosen {
        assert(!separator_at(path, at));
        assert(at == path.len());
    }
}

/// Cuts a module path off at its first `::`.
pub fn module_path_prefix(path: &str) -> (r: String)
    ensures
        r@ == first_segment(path@),
{
    let total: usize = path.unicode_len();
    let mut at: usize = 0;
    while at < total
        invariant
            total == path@.len(),
            at <= total,
            forall|i: int| 0 <= i < at ==> !separator_at(path@, i),
        decreases total - at,
    {
        if at + 1 < total && path.get_char(at) == ':' && path.get_char(at + 1) == ':' {
            proof {
                assert(separator_at(path@, at as int));
                first_segment_ends_once(path@, at as int);
                assert(path@.subrange(0, at as int) =~= path@.take(at as int));
            }
            return path.substring_char(0, at).to_owned();
        }
        at = at + 1;
    }
    proof {
        first_segment_ends_once(path@, total as int);
        assert(path@.take(total as int) =~= path@);
    }
    path.to_owned()
}

/// The configuration that stands in when the host only asks for the manifest.
pub open spec fn placeholder() -> Settings {
    Settings {
        endpoints: seq!["http://127.0.0.1:2379"@],
        auth: None,
        tls: None,
        key_prefix: "/mcpg/"@,
        node_id: None,
        event_ttl_secs: 60,
        lease_renew_before_expiry_percent: 30,
    }
}

fn placeholder_config() -> (r: EtcdConfig)
    ensures
        r@ == placeholder(),
{
    let mut endpoints: Vec<String> = Vec::new();
    endpoints.push("http://127.0.0.1:2379".to_owned());
    assert(contents(endpoints@) =~= seq!["http://127.0.0.1:2379"@]);
    EtcdConfig {
        endpoints,
        auth: None,
        tls: None,
        key_prefix: default_key_prefix(),
        node_id: None,
        event_ttl_secs: default_event_ttl_secs(),
        lease_renew_before_expiry_percent: default_renew_pct(),
    }
}

/// What the coordinator learns of the process it starts in.
#[derive(Debug)]
pub struct Surroundings {
    /// The version of the program.
    pub version: String,
    /// The path of the module that hosts the coordinator.
    pub module: String,
    /// The host's name, where it has one.
    pub hostname: Option<String>,
    /// The time of the start.
    pub now: UnixTime,
}

/// The coordinator for a configuration.
pub open spec fn started(c: Settings, around: Surroundings) -> Backend {
    Backend {
        version: around.version@,
        module_path_prefix: first_segment(around.module@),
        config: c,
        node_id: identity(
            c,
            match around.hostname {
                Some(host) => Some(host@),
                None => None,
            },
        ),
        started_at: rfc3339(around.now.secs as int),
    }
}

/// Why the coordinator refuses to start.
pub open spec fn refusal(fault: ConfigFault) -> Seq<char> {
    "etcd cluster config parse failed: "@ + fault_text(fault)
        + ". A misconfigured cluster_backend is a security hole; refusing to load."@
}

/// What is wrong with a configuration as the JSON decoder returned it.
pub open spec fn decoded_fault(decoded: Result<EtcdConfig, String>) -> Option<ConfigFault> {
    match decoded {
        Ok(config) => config_fault(config@),
        Err(detail) => Some(ConfigFault::InvalidJson(detail@)),
    }
}

impl EtcdBackend {
    /// Starts the coordinator. `decoded` is what the JSON decoder made of the
    /// configuration. Where the host only asks for the manifest, as `is_probe`
    /// tells, a placeholder stands in for it. An unsound configuration is
    /// refused, with the sentence for the operator.
    pub fn from_config_json(
        is_probe: bool,
        decoded: Result<EtcdConfig, String>,
        around: Surroundings,
    ) -> (r: Result<EtcdBackend, String>)
        requires
            around.now.wf(),
        ensures
            is_probe ==> r is Ok && r->Ok_0@ == started(placeholder(), around),
            !is_probe ==> match decoded_fault(decoded) {
                Some(fault) => r is Err && r->Err_0@ == refusal(fault),
                None => r is Ok && r->Ok_0@ == started(decoded->Ok_0@, around),
            },
    {
        let config: Result<EtcdConfig, String> = if is_probe {
            Ok(placeholder_config())
        } else {
            decoded
        };
        proof {
            placeholder_is_accepted();
        }
        match EtcdConfig::parse(config) {
            Ok(config) => Ok(EtcdBackend::from_validated_config(config, around)),
            Err(error) => Err(
                concat3(
                    "etcd cluster config parse failed: ",
                    error.message().as_str(),
                    ". A misconfigured cluster_backend is a security hole; refusing to load.",
                ),
            ),
        }
    }

    /// Starts the coordinator with a configuration that was found sound.
    fn from_validated_config(config: EtcdConfig, around: Surroundings) -> (r: EtcdBackend)
        requires
            accepted(config@),
            around.now.wf(),
        ensures
            r@ == started(config@, around),
    {
        let node_id: String = match &around.hostname {
            Some(host) => config.resolved_node_id(Some(host.as_str())),
            None => config.resolved_node_id(None),
        };
        let mut provides: Vec<String> = Vec::new();
        provides.push("bus".to_owned());
        provides.push("kv".to_owned());
        assert(contents(provides@) =~= seq!["bus"@, "kv"@]);
        let manifest: PluginManifest = PluginManifest {
            id: "dev.mcpg.cluster.etcd".to_owned(),
            version: around.version,
            name: "etcd Cluster Coordinator".to_owned(),
            plugin_class: PluginClass::Cluster,
            protocol_version: "1.0".to_owned(),
            license: None,
            required_capabilities: Vec::new(),
            tags: Vec::new(),
            provides,
            provides_schemes: Vec::new(),
            module_path_prefix: module_path_prefix(around.module.as_str()),
            backend_profile: None,
        };
        EtcdBackend { manifest, config, node_id, started_at: now_rfc3339(around.now) }
    }

    pub fn manifest(&self) -> (r: &PluginManifest)
        ensures
            is_manifest_of(*r, self@.version, self@.module_path_prefix),
    {
        proof {
            use_type_invariant(self);
        }
        &self.manifest
    }

    /// The configuration, which is sound.
    pub fn config(&self) -> (r: &EtcdConfig)
        ensures
            r@ == self@.config,
            accepted(r@),
    {
        proof {
            use_type_invariant(self);
        }
        &self.config
    }

    pub fn node_id(&self) -> (r: &String)
        ensures
            r@ == self@.node_id,
    {
        &self.node_id
    }

    /// What the host reads of this node.
    pub fn node_info(&self) -> (r: ClusterNodeInfo)
        ensures
            r.node_id@ == self@.node_id,
            r.address@ == joined(self@.config.endpoints, ","@),
            r.version@ == self@.version,
            r.started_at@ == self@.started_at,
            r.roles@.len() == 0,
    {
        ClusterNodeInfo {
            node_id: self.node_id.clone(),
            address: join(&self.config.endpoints, ","),
            version: self.manifest.version.clone(),
            started_at: self.started_at.clone(),
            roles: Vec::new(),
        }
    }
}

/// The placeholder is a sound configuration.
pub proof fn placeholder_is_accepted()
    ensures
        accepted(placeholder()),
{
    reveal_strlit("http://127.0.0.1:2379");
    reveal_strlit("http://");
    reveal_strlit("https://");
    reveal_strlit("/mcpg/");
    let endpoint = "http://127.0.0.1:2379"@;
    assert(left_trimmed(endpoint) == endpoint);
    assert(right_trimmed(endpoint) == endpoint);
    assert(endpoint.take(7) =~= "http://"@);
    assert(endpoint.take(8)[4] == ':');
    assert(!"https://"@.is_prefix_of(endpoint)) by {
        assert("https://"@[4] == 's');
    }
    assert(placeholder().endpoints[0] == endpoint);
}

// ---------------------------------------------------------------------------
// connecting
// ---------------------------------------------------------------------------

/// Opening the connection that a configuration describes.
#[derive(Debug)]
pub enum ConnectOp {
    /// Gathers the TLS material.
    Gather { op: TlsOp, endpoints: Vec<String>, user: Option<(String, String)> },
    /// Waits for the connection.
    Open,
}

/// The content of a [`ConnectOp`].
pub enum Connecting {
    Gather(Gathering, Seq<Seq<char>>, Option<(Seq<char>, Seq<char>)>),
    Open,
}

/// The content of an optional user name and password.
pub open spec fn user_of(user: Option<(String, String)>) -> Option<(Seq<char>, Seq<char>)> {
    match user {
        Some((name, password)) => Some((name@, password@)),
        None => None,
    }
}

impl View for ConnectOp {
    type V = Connecting;

    open spec fn view(&self) -> Connecting {
        match self {
            ConnectOp::Gather { op, endpoints, user } => Connecting::Gather(
                op@,
                contents(endpoints@),
                user_of(*user),
            ),
            ConnectOp::Open => Connecting::Open,
        }
    }
}

/// What [`ConnectOp`] results in.
pub type ConnectNext = Next<Connecting, Result<(), Fault>>;

/// How connecting goes on when gathering the TLS material is at `at`.
pub open spec fn connect_gathering(
    at: TlsNext,
    endpoints: Seq<Seq<char>>,
    user: Option<(Seq<char>, Seq<char>)>,
) -> ConnectNext {
    match at {
        Next::Ask(call, state) => Next::Ask(call, Connecting::Gather(state, endpoints, user)),
        Next::Finished(Ok(tls)) => Next::Ask(Call::Open(endpoints, user, tls), Connecting::Open),
        Next::Finished(Err(fault)) => Next::Finished(
            Err(Fault::Internal("etcd TLS config"@ + ": "@ + fault_text(fault))),
        ),
    }
}

/// The user name and password of a configuration.
pub open spec fn configured_user(c: Settings) -> Option<(Seq<char>, Seq<char>)> {
    match c.auth {
        Some(auth) => Some((auth.username, auth.password)),
        None => None,
    }
}

/// How connecting begins.
pub open spec fn connect_first(c: Settings) -> ConnectNext {
    connect_gathering(tls_first(c.tls), c.endpoints, configured_user(c))
}

/// The replies that connecting can go on with.
pub open spec fn connect_accepts(state: Connecting, answer: Answer) -> bool {
    match state {
        Connecting::Gather(_, _, _) => fits(Kind::Bytes, answer),
        Connecting::Open => fits(Kind::Done, answer),
    }
}

/// How connecting goes on.
pub open spec fn connect_next(state: Connecting, answer: Answer) -> ConnectNext {
    match (state, answer) {
        (Connecting::Gather(state, endpoints, user), _) => connect_gathering(
            tls_next(state, answer),
            endpoints,
            user,
        ),
        (Connecting::Open, Answer::Failed(detail)) => Next::Finished(
            Err(call_failed("etcd connect"@, detail)),
        ),
        (Connecting::Open, Answer::Done) => Next::Finished(Ok(())),
        _ => arbitrary(),
    }
}

/// Carries the step of gathering the TLS material over.
fn gathering(
    at: Step<TlsOp, Result<Option<TlsSettings>, ConfigError>>,
    endpoints: Vec<String>,
    user: Option<(String, String)>,
) -> (r: Step<ConnectOp, Result<(), ClusterError>>)
    ensures
        r@ == connect_gathering(at@, contents(endpoints@), user_of(user)),
{
    match at {
        Step::Ask { request, state } => Step::Ask {
            request,
            state: ConnectOp::Gather { op: state, endpoints, user },
        },
        Step::Finished { result: Ok(tls) } => Step::Ask {
            request: Request::Open { endpoints, user, tls },
            state: ConnectOp::Open,
        },
        Step::Finished { result: Err(error) } => Step::Finished {
            result: Err(internal("etcd TLS config", error.message().as_str())),
        },
    }
}

/// Copies a list of strings.
fn copied_list(list: &Vec<String>) -> (r: Vec<String>)
    ensures
        contents(r@) == contents(list@),
{
    let mut r: Vec<String> = Vec::new();
    while r.len() < list.len()
        invariant
            r@.len() <= list@.len(),
            contents(r@) == contents(list@.take(r@.len() as int)),
        decreases list@.len() - r@.len(),
    {
        let at: usize = r.len();
        let ghost before = contents(r@);
        let text: String = list[at].clone();
        r.push(text);
        assert(contents(r@) =~= before.push(list@[at as int]@));
        assert(contents(list@.take(at + 1)) =~= before.push(list@[at as int]@));
    }
    assert(list@.take(list@.len() as int) =~= list@);
    r
}

impl EtcdConfig {
    /// Begins to connect.
    pub fn connect(&self) -> (r: Step<ConnectOp, Result<(), ClusterError>>)
        ensures
            r@ == connect_first(self@),
    {
        let user: Option<(String, String)> = match &self.auth {
            Some(auth) => Some((auth.username.clone(), auth.password.clone())),
            None => None,
        };
        gathering(self.build_tls_options(), copied_list(&self.endpoints), user)
    }
}

impl ConnectOp {
    /// Whether the operation can go on with `reply`.
    pub fn accepts(&self, reply: &Reply) -> (r: bool)
        ensures
            r == connect_accepts(self@, reply@),
    {
        match self {
            ConnectOp::Gather { .. } => reply.is_for(Kind::Bytes),
            ConnectOp::Open => reply.is_for(Kind::Done),
        }
    }

    /// Goes on with the reply to the call that was asked for.
    pub fn step(self, reply: Reply) -> (r: Step<ConnectOp, Result<(), ClusterError>>)
        requires
            connect_accepts(self@, reply@),
        ensures
            r@ == connect_next(self@, reply@),
    {
        match self {
            ConnectOp::Gather { op, endpoints, user } => gathering(op.step(reply), endpoints, user),
            ConnectOp::Open => match reply {
                Reply::Failed { detail } => Step::Finished {
                    result: Err(backend_unavailable("etcd connect", detail.as_str())),
                },
                Reply::Done => Step::Finished { result: Ok(()) },
                _ => unreached(),
            },
        }
    }
}

/// The connection of a coordinator, once there is one.
#[derive(Debug)]
pub struct Connection<C> {
    client: Option<C>,
}

impl<C> View for Connection<C> {
    type V = Option<C>;

    closed spec fn view(&self) -> Option<C> {
        self.client
    }
}

/// The connection after an attempt to connect: the first one that was made is
/// kept, and a failure leaves things as they were.
pub open spec fn connection_after<C>(
    held: Option<C>,
    opened: Result<C, ClusterError>,
) -> Option<C> {
    match (held, opened) {
        (Some(client), _) => Some(client),
        (None, Ok(client)) => Some(client),
        (None, Err(_)) => None,
    }
}

impl<C> Connection<C> {
    /// No connection yet.
    pub fn none() -> (r: Connection<C>)
        ensures
            r@ is None,
    {
        Connection { client: None }
    }

    pub fn is_made(&self) -> (r: bool)
        ensures
            r == (self@ is Some),
    {
        self.client.is_some()
    }

    pub fn client(&self) -> (r: Option<&C>)
        ensures
            match r {
                Some(client) => self@ == Some(*client),
                None => self@ is None,
            },
    {
        self.client.as_ref()
    }

    /// Takes the end of an attempt to connect over. Reports the failure only
    /// where there is no connection.
    pub fn settle(&mut self, opened: Result<C, ClusterError>) -> (r: Result<(), ClusterError>)
        ensures
            final(self)@ == connection_after(old(self)@, opened),
            match final(self)@ {
                Some(_) => r is Ok,
                None => r is Err && r->Err_0@ == opened->Err_0@,
            },
    {
        if self.client.is_some() {
            return Ok(());
        }
        match opened {
            Ok(client) => {
                self.client = Some(client);
                Ok(())
            },
            Err(error) => Err(error),
        }
    }
}

/// How a connection is made sure of: where there is one, nothing is asked for.
pub open spec fn ensure_first(c: Settings, has_connection: bool) -> ConnectNext {
    if has_connection {
        Next::Finished(Ok(()))
    } else {
        connect_first(c)
    }
}

impl EtcdBackend {
    /// Makes sure of the connection: connects where there is none yet, or
    /// where connecting has failed so far.
    pub fn ensure_connected(&self, has_connection: bool) -> (r: Step<
        ConnectOp,
        Result<(), ClusterError>,
    >)
        ensures
            r@ == ensure_first(self@.config, has_connection),
    {
        if has_connection {
            Step::Finished { result: Ok(()) }
        } else {
            self.config.connect()
        }
    }
}

// ---------------------------------------------------------------------------
// the operations
// ---------------------------------------------------------------------------

/// How a coordinator begins to acquire the leadership of `role`.
pub open spec fn leadership_first(b: Backend, role: Seq<char>, ttl: TimeSpan) -> AcquireNext {
    acquire_first(name_in(b.config.key_prefix, Keyspace::Leadership, role), ttl)
}

/// How a coordinator begins to acquire the lock `key`.
pub open spec fn lock_first(b: Backend, key: Seq<char>, ttl: TimeSpan) -> AcquireNext {
    acquire_first(name_in(b.config.key_prefix, Keyspace::Locks, key), ttl)
}

/// How a coordinator begins to try for the leadership of `role`.
pub open spec fn try_leadership_first(b: Backend, role: Seq<char>, ttl: TimeSpan) -> TryNext {
    try_first(name_in(b.config.key_prefix, Keyspace::Leadership, role), ttl)
}

/// How a coordinator begins to try for the lock `key`.
pub open spec fn try_lock_first(b: Backend, key: Seq<char>, ttl: TimeSpan) -> TryNext {
    try_first(name_in(b.config.key_prefix, Keyspace::Locks, key), ttl)
}

impl EtcdBackend {
    /// The key-value store of the deployment; there is none before the first
    /// connection.
    pub fn key_value_store(&self, has_connection: bool) -> (r: Option<EtcdKv>)
        ensures
            r is Some <==> has_connection,
            r matches Some(kv) ==> kv@ == name_in(
                self@.config.key_prefix,
                Keyspace::Kv,
                Seq::empty(),
            ),
    {
        if has_connection {
            Some(EtcdKv::new(self.config.kv_prefix()))
        } else {
            None
        }
    }

    /// The key-value store, or the refusal where there is none.
    pub fn require_kv(&self, has_connection: bool) -> (r: Result<EtcdKv, ClusterError>)
        ensures
            match r {
                Ok(kv) => has_connection && kv@ == name_in(
                    self@.config.key_prefix,
                    Keyspace::Kv,
                    Seq::empty(),
                ),
                Err(error) => !has_connection && error@ == Fault::BackendUnavailable(
                    "etcd cluster: key_value_store unavailable"@,
                ),
            },
    {
        match self.key_value_store(has_connection) {
            Some(kv) => Ok(kv),
            None => Err(
                ClusterError::BackendUnavailable {
                    reason: "etcd cluster: key_value_store unavailable".to_owned(),
                },
            ),
        }
    }

    /// Begins to acquire the leadership of `role`, waiting until it is free.
    pub fn acquire_leadership(&self, role: &str, lease_ttl: TimeSpan) -> (r: Step<
        AcquireOp,
        Result<LeaseState, ClusterError>,
    >)
        ensures
            r@ == acquire_first(
                name_in(self@.config.key_prefix, Keyspace::Leadership, role@),
                lease_ttl,
            ),
            r@ == leadership_first(self@, role@, lease_ttl),
    {
        acquire(self.config.leadership_name(role).as_str(), lease_ttl)
    }

    /// Begins to acquire the lock `key`, waiting until it is free.
    pub fn acquire_lock(&self, key: &str, lease_ttl: TimeSpan) -> (r: Step<
        AcquireOp,
        Result<LeaseState, ClusterError>,
    >)
        ensures
            r@ == acquire_first(
                name_in(self@.config.key_prefix, Keyspace::Locks, key@),
                lease_ttl,
            ),
            r@ == lock_first(self@, key@, lease_ttl),
    {
        acquire(self.config.lock_name(key).as_str(), lease_ttl)
    }

    /// Begins to acquire the leadership of `role`, if it is free.
    pub fn try_acquire_leadership(&self, role: &str, lease_ttl: TimeSpan) -> (r: Step<
        TryAcquireOp,
        Result<Option<LeaseState>, ClusterError>,
    >)
        ensures
            r@ == try_first(
                name_in(self@.config.key_prefix, Keyspace::Leadership, role@),
                lease_ttl,
            ),
            r@ == try_leadership_first(self@, role@, lease_ttl),
    {
        try_acquire(self.config.leadership_name(role).as_str(), lease_ttl)
    }

    /// Begins to acquire the lock `key`, if it is free.
    pub fn try_acquire_lock(&self, key: &str, lease_ttl: TimeSpan) -> (r: Step<
        TryAcquireOp,
        Result<Option<LeaseState>, ClusterError>,
    >)
        ensures
            r@ == try_first(
                name_in(self@.config.key_prefix, Keyspace::Locks, key@),
                lease_ttl,
            ),
            r@ == try_lock_first(self@, key@, lease_ttl),
    {
        try_acquire(self.config.lock_name(key).as_str(), lease_ttl)
    }

    /// The time between two renewals of a lease of `lease_ttl`.
    pub fn renewal_interval(&self, lease_ttl: TimeSpan) -> (r: TimeSpan)
        requires
            lease_ttl.wf(),
        ensures
            r.wf(),
            r.length() == renewal_nanos(
                lease_ttl.length(),
                self@.config.lease_renew_before_expiry_percent,
            ),
    {
        renewal_interval(lease_ttl, self.config.lease_renew_before_expiry_percent)
    }
}

} // verus!
