//! The TLS material of a connection.
use vstd::pervasive::unreached;
use vstd::prelude::*;
use vstd::string::*;
use vstd::utf8::*;

use crate::config::{ConfigError, ConfigFault, EtcdConfig, TlsMaterial};
use crate::protocol::{fits, Answer, Call, Kind, Next, Outcome, Reply, Request, Step};
use crate::text::{content, contents, copied, left_trimmed, starts_with, trim_start};

verus! {

/// Whether a PEM value is the material itself, not the path of a file.
pub open spec fn is_inline(value: Seq<char>) -> bool {
    "-----BEGIN"@.is_prefix_of(left_trimmed(value))
}

/// The bytes of an inline PEM value; nothing where the value is a path.
pub fn resolve_pem(value: &str) -> (r: Option<Vec<u8>>)
    ensures
        r is Some <==> is_inline(value@),
        r matches Some(bytes) ==> bytes@ == encode_utf8(value@),
{
    if starts_with(trim_start(value), "-----BEGIN") {
        Some(value.as_bytes_vec())
    } else {
        None
    }
}

/// What a TLS connection is made with.
#[derive(Debug)]
pub struct TlsSettings {
    /// The authority to trust; `None` for the system's trust roots.
    pub ca_cert: Option<Vec<u8>>,
    /// Client certificate and private key.
    pub identity: Option<(Vec<u8>, Vec<u8>)>,
    /// Host name to expect in the server's certificate, where it is not that
    /// of the endpoint.
    pub domain_name: Option<String>,
}

/// The content of [`TlsSettings`].
pub struct Tls {
    pub ca_cert: Option<Seq<u8>>,
    pub identity: Option<(Seq<u8>, Seq<u8>)>,
    pub domain_name: Option<Seq<char>>,
}

impl Outcome for TlsSettings {
    type Content = Tls;

    open spec fn content(&self) -> Tls {
        Tls {
            ca_cert: match self.ca_cert {
                Some(ca) => Some(ca@),
                None => None,
            },
            identity: match self.identity {
                Some((cert, key)) => Some((cert@, key@)),
                None => None,
            },
            domain_name: content(self.domain_name),
        }
    }
}

/// The PEM values that a connection needs: the authority, then certificate and
/// key where both are set.
pub open spec fn pem_values(tls: TlsMaterial) -> Seq<Seq<char>> {
    let ca = match tls.ca_cert {
        Some(ca) => seq![ca],
        None => Seq::empty(),
    };
    match (tls.client_cert, tls.client_key) {
        (Some(cert), Some(key)) => ca.push(cert).push(key),
        _ => ca,
    }
}

/// The settings that the resolved PEM values make.
pub open spec fn settings(
    has_ca: bool,
    domain_name: Option<Seq<char>>,
    resolved: Seq<Seq<u8>>,
) -> Tls {
    let first = if has_ca {
        1int
    } else {
        0
    };
    Tls {
        ca_cert: if has_ca {
            Some(resolved[0])
        } else {
            None
        },
        identity: if resolved.len() >= first + 2 {
            Some((resolved[first], resolved[first + 1]))
        } else {
            None
        },
        domain_name,
    }
}

/// Gathering the TLS material. Waits for the file of the PEM value `path`.
#[derive(Debug)]
pub struct TlsOp {
    pub path: String,
    /// The PEM values that come after it, the next one last.
    pub rest: Vec<String>,
    /// The values that came before it.
    pub resolved: Vec<Vec<u8>>,
    pub has_ca: bool,
    pub domain_name: Option<String>,
}

/// The content of a [`TlsOp`].
pub struct Gathering {
    pub path: Seq<char>,
    pub rest: Seq<Seq<char>>,
    pub resolved: Seq<Seq<u8>>,
    pub has_ca: bool,
    pub domain_name: Option<Seq<char>>,
}

/// The contents of a list of byte strings.
pub open spec fn blobs(list: Seq<Vec<u8>>) -> Seq<Seq<u8>> {
    list.map_values(|bytes: Vec<u8>| bytes@)
}

impl View for TlsOp {
    type V = Gathering;

    open spec fn view(&self) -> Gathering {
        Gathering {
            path: self.path@,
            rest: contents(self.rest@),
            resolved: blobs(self.resolved@),
            has_ca: self.has_ca,
            domain_name: content(self.domain_name),
        }
    }
}

/// What [`TlsOp`] results in: no settings where the connection is plaintext.
pub type TlsNext = Next<Gathering, Result<Option<Tls>, ConfigFault>>;

/// How gathering goes on when `resolved` is known and `rest` is not, the next
/// value last: inline values are known at once, the others are read.
pub open spec fn tls_onward(
    has_ca: bool,
    domain_name: Option<Seq<char>>,
    resolved: Seq<Seq<u8>>,
    rest: Seq<Seq<char>>,
) -> TlsNext
    decreases rest.len(),
{
    if rest.len() == 0 {
        Next::Finished(Ok(Some(settings(has_ca, domain_name, resolved))))
    } else {
        let value = rest.last();
        if is_inline(value) {
            tls_onward(has_ca, domain_name, resolved.push(encode_utf8(value)), rest.drop_last())
        } else {
            Next::Ask(
                Call::ReadFile(value),
                Gathering { path: value, rest: rest.drop_last(), resolved, has_ca, domain_name },
            )
        }
    }
}

/// How gathering begins.
pub open spec fn tls_first(tls: Option<TlsMaterial>) -> TlsNext {
    match tls {
        None => Next::Finished(Ok(None)),
        Some(tls) => tls_onward(
            tls.ca_cert is Some,
            tls.domain_name,
            Seq::empty(),
            pem_values(tls).reverse(),
        ),
    }
}

/// How gathering goes on.
pub open spec fn tls_next(state: Gathering, answer: Answer) -> TlsNext {
    match answer {
        Answer::Failed(source) => Next::Finished(Err(ConfigFault::TlsFileRead(state.path, source))),
        Answer::Bytes(bytes) => tls_onward(
            state.has_ca,
            state.domain_name,
            state.resolved.push(bytes),
            state.rest,
        ),
        _ => arbitrary(),
    }
}

/// Puts the resolved PEM values where they belong.
fn assembled(has_ca: bool, domain_name: Option<String>, resolved: Vec<Vec<u8>>) -> (r: TlsSettings)
    requires
        has_ca ==> resolved@.len() > 0,
    ensures
        r.content() == settings(has_ca, content(domain_name), blobs(resolved@)),
{
    let mut resolved = resolved;
    let ghost all = resolved@;
    let first: usize = if has_ca {
        1
    } else {
        0
    };
    let mut identity: Option<(Vec<u8>, Vec<u8>)> = None;
    if resolved.len() >= first + 2 {
        let key: Vec<u8> = resolved.swap_remove(first + 1);
        let cert: Vec<u8> = resolved.swap_remove(first);
        assert(key == all[first + 1]);
        assert(cert == all[first as int]);
        identity = Some((cert, key));
    }
    let ca_cert: Option<Vec<u8>> = if has_ca {
        let ca: Vec<u8> = resolved.swap_remove(0);
        assert(ca == all[0]);
        Some(ca)
    } else {
        None
    };
    TlsSettings { ca_cert, identity, domain_name }
}

/// Takes the inline values over and asks for the next file.
#[verifier::loop_isolation(false)]
fn tls_from(
    has_ca: bool,
    domain_name: Option<String>,
    resolved: Vec<Vec<u8>>,
    rest: Vec<String>,
) -> (r: Step<TlsOp, Result<Option<TlsSettings>, ConfigError>>)
    requires
        has_ca ==> resolved@.len() + rest@.len() > 0,
    ensures
        r@ == tls_onward(has_ca, content(domain_name), blobs(resolved@), contents(rest@)),
{
    let mut resolved = resolved;
    let mut rest = rest;
    let ghost whole = tls_onward(has_ca, content(domain_name), blobs(resolved@), contents(rest@));
    loop
        invariant
            has_ca ==> resolved@.len() + rest@.len() > 0,
            whole == tls_onward(has_ca, content(domain_name), blobs(resolved@), contents(rest@)),
        decreases rest@.len(),
    {
        let ghost known = blobs(resolved@);
        let ghost left = contents(rest@);
        match rest.pop() {
            None => {
                return Step::Finished { result: Ok(Some(assembled(has_ca, domain_name, resolved))) };
            },
            Some(value) => {
                assert(left.last() == value@);
                assert(contents(rest@) =~= left.drop_last());
                match resolve_pem(value.as_str()) {
                    Some(bytes) => {
                        resolved.push(bytes);
                        assert(blobs(resolved@) =~= known.push(encode_utf8(value@)));
                    },
                    None => {
                        return Step::Ask {
                            request: Request::ReadFile { path: value.clone() },
                            state: TlsOp { path: value, rest, resolved, has_ca, domain_name },
                        };
                    },
                }
            },
        }
    }
}

impl TlsOp {
    /// Whether the operation can go on with `reply`.
    pub fn accepts(&self, reply: &Reply) -> (r: bool)
        ensures
            r == fits(Kind::Bytes, reply@),
    {
        reply.is_for(Kind::Bytes)
    }

    /// Goes on with the reply to the call that was asked for.
    pub fn step(self, reply: Reply) -> (r: Step<TlsOp, Result<Option<TlsSettings>, ConfigError>>)
        requires
            fits(Kind::Bytes, reply@),
        ensures
            r@ == tls_next(self@, reply@),
    {
        match reply {
            Reply::Failed { detail } => Step::Finished {
                result: Err(ConfigError::TlsFileRead { path: self.path, source: detail }),
            },
            Reply::Bytes { bytes } => {
                let ghost known = blobs(self.resolved@);
                let mut resolved: Vec<Vec<u8>> = self.resolved;
                resolved.push(bytes);
                assert(blobs(resolved@) =~= known.push(bytes@));
                tls_from(self.has_ca, self.domain_name, resolved, self.rest)
            },
            _ => unreached(),
        }
    }
}

impl EtcdConfig {
    /// Gathers the TLS material of the configuration. A plaintext connection
    /// needs none.
    pub fn build_tls_options(&self) -> (r: Step<TlsOp, Result<Option<TlsSettings>, ConfigError>>)
        ensures
            r@ == tls_first(self@.tls),
    {
        match &self.tls {
            None => Step::Finished { result: Ok(None) },
            Some(tls) => {
                let mut wanted: Vec<String> = Vec::new();
                match (&tls.client_cert, &tls.client_key) {
                    (Some(cert), Some(key)) => {
                        wanted.push(key.clone());
                        wanted.push(cert.clone());
                    },
                    _ => {},
                }
                match &tls.ca_cert {
                    Some(ca) => {
                        wanted.push(ca.clone());
                    },
                    None => {},
                }
                assert(contents(wanted@) =~= pem_values(tls@).reverse());
                let resolved: Vec<Vec<u8>> = Vec::new();
                assert(blobs(resolved@) =~= Seq::empty());
                tls_from(tls.ca_cert.is_some(), copied(&tls.domain_name), resolved, wanted)
            },
        }
    }
}

/// The bytes of a PEM value, on a system with the given files.
pub open spec fn pem_bytes(value: Seq<char>, files: Map<Seq<char>, Seq<u8>>) -> Seq<u8> {
    if is_inline(value) {
        encode_utf8(value)
    } else {
        files[value]
    }
}

/// How many files gathering may still read.
pub open spec fn pending(at: TlsNext) -> nat {
    match at {
        Next::Finished(_) => 0,
        Next::Ask(_, state) => 1 + state.rest.len(),
    }
}

/// No more files are asked for than there are values left.
pub proof fn onward_asks_for_what_is_left(
    has_ca: bool,
    domain_name: Option<Seq<char>>,
    resolved: Seq<Seq<u8>>,
    rest: Seq<Seq<char>>,
)
    ensures
        pending(tls_onward(has_ca, domain_name, resolved, rest)) <= rest.len(),
    decreases rest.len(),
{
    if rest.len() > 0 && is_inline(rest.last()) {
        onward_asks_for_what_is_left(
            has_ca,
            domain_name,
            resolved.push(encode_utf8(rest.last())),
            rest.drop_last(),
        );
    }
}

/// What gathering results in, on a system with the given files.
pub open spec fn gathered(at: TlsNext, files: Map<Seq<char>, Seq<u8>>) -> Result<
    Option<Tls>,
    ConfigFault,
>
    decreases pending(at),
{
    match at {
        Next::Finished(result) => result,
        Next::Ask(_, state) => {
            proof {
                onward_asks_for_what_is_left(
                    state.has_ca,
                    state.domain_name,
                    state.resolved.push(files[state.path]),
                    state.rest,
                );
            }
            gathered(tls_next(state, Answer::Bytes(files[state.path])), files)
        },
    }
}

proof fn gathering_resolves_the_rest(
    has_ca: bool,
    domain_name: Option<Seq<char>>,
    resolved: Seq<Seq<u8>>,
    rest: Seq<Seq<char>>,
    files: Map<Seq<char>, Seq<u8>>,
)
    ensures
        gathered(tls_onward(has_ca, domain_name, resolved, rest), files) == Ok::<
            Option<Tls>,
            ConfigFault,
        >(
            Some(
                settings(
                    has_ca,
                    domain_name,
                    resolved + rest.reverse().map_values(|v: Seq<char>| pem_bytes(v, files)),
                ),
            ),
        ),
    decreases rest.len(),
{
    let bytes = |v: Seq<char>| pem_bytes(v, files);
    if rest.len() == 0 {
        assert(resolved + rest.reverse().map_values(bytes) =~= resolved);
    } else {
        let value = rest.last();
        let known = resolved.push(pem_bytes(value, files));
        gathering_resolves_the_rest(has_ca, domain_name, known, rest.drop_last(), files);
        assert(known + rest.drop_last().reverse().map_values(bytes) =~= resolved
            + rest.reverse().map_values(bytes));
    }
}

/// The configured material as a connection uses it, on a system with the given
/// files: the authority, and certificate and key where both are set.
pub open spec fn material(tls: TlsMaterial, files: Map<Seq<char>, Seq<u8>>) -> Tls {
    Tls {
        ca_cert: match tls.ca_cert {
            Some(ca) => Some(pem_bytes(ca, files)),
            None => None,
        },
        identity: match (tls.client_cert, tls.client_key) {
            (Some(cert), Some(key)) => Some((pem_bytes(cert, files), pem_bytes(key, files))),
            _ => None,
        },
        domain_name: tls.domain_name,
    }
}

/// The settings hold the configured material, each value inline or out of its
/// file.
pub proof fn tls_settings_hold_the_material(tls: TlsMaterial, files: Map<Seq<char>, Seq<u8>>)
    ensures
        gathered(tls_first(Some(tls)), files) == Ok::<Option<Tls>, ConfigFault>(
            Some(material(tls, files)),
        ),
{
    let pems = pem_values(tls);
    gathering_resolves_the_rest(
        tls.ca_cert is Some,
        tls.domain_name,
        Seq::empty(),
        pems.reverse(),
        files,
    );
    let bytes = |v: Seq<char>| pem_bytes(v, files);
    let resolved = Seq::<Seq<u8>>::empty() + pems.reverse().reverse().map_values(bytes);
    assert(resolved =~= pems.map_values(bytes));
}

/// Inline material is never read from a file.
pub proof fn inline_material_is_not_read(tls: TlsMaterial)
    requires
        tls.ca_cert matches Some(ca) ==> is_inline(ca),
        tls.client_cert matches Some(cert) ==> is_inline(cert),
        tls.client_key matches Some(key) ==> is_inline(key),
    ensures
        tls_first(Some(tls)) is Finished,
{
    reveal_with_fuel(tls_onward, 4);
}

} // verus!
