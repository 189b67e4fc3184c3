//! What a connection is opened with, and what is read for it.
use vstd::prelude::*;
use vstd::utf8::*;

use crate::backend::{
    connect_accepts, connect_first, connect_gathering, connect_next, ensure_first, ConnectNext,
    Connecting,
};
use crate::config::{ConfigFault, Settings, TlsMaterial};
use crate::error::Fault;
use crate::protocol::{fits, Answer, Call, Kind, Next};
use crate::runs::{run_begins, runs, turn, Turn};
use crate::text_laws::{is_blank, left_trimming_cuts_blanks};
use crate::tls::{
    is_inline, pem_values, settings, tls_first, tls_next, tls_onward, Gathering, Tls, TlsNext,
};

verus! {

/// Whether the call opens a connection.
pub open spec fn opens(call: Call) -> bool {
    call is Open
}

// ---------------------------------------------------------------------------
// TLS material
// ---------------------------------------------------------------------------

/// What the files that a TLS block names hold.
pub struct Files {
    pub ca_cert: Seq<u8>,
    pub client_cert: Seq<u8>,
    pub client_key: Seq<u8>,
}

/// A value holds the PEM text itself if and only if that begins, behind white
/// space, with the marker of PEM.
pub proof fn pem_texts_begin_with_their_marker(value: Seq<char>, from: int)
    requires
        0 <= from <= value.len(),
        forall|i: int| 0 <= i < from ==> is_blank(#[trigger] value[i]),
        from < value.len() ==> !is_blank(value[from]),
    ensures
        is_inline(value) <==> "-----BEGIN"@.is_prefix_of(value.skip(from)),
{
    left_trimming_cuts_blanks(value, from);
}

/// The bytes of a PEM value: its own, where it holds the PEM text itself, and
/// those of the file that it names otherwise.
pub open spec fn bytes_of(value: Seq<char>, file: Seq<u8>) -> Seq<u8> {
    if is_inline(value) {
        encode_utf8(value)
    } else {
        file
    }
}

/// How a PEM value is read: only where it names a file.
pub open spec fn reading(value: Seq<char>, file: Answer) -> Seq<Turn> {
    if is_inline(value) {
        Seq::empty()
    } else {
        seq![turn(Call::ReadFile(value), file)]
    }
}

/// How the PEM values are read, one after the other.
pub open spec fn all_reading(values: Seq<Seq<char>>, files: Seq<Seq<u8>>) -> Seq<Turn>
    decreases values.len(),
{
    if values.len() == 0 {
        Seq::empty()
    } else {
        reading(values[0], Answer::Bytes(files[0])) + all_reading(
            values.drop_first(),
            files.drop_first(),
        )
    }
}

/// The PEM values of a TLS block that count, in the order in which they are
/// read: the certificate authority's, then the client's certificate and key,
/// where there are both.
pub open spec fn values_of(tls: TlsMaterial) -> Seq<Seq<char>> {
    (if tls.ca_cert is Some {
        seq![tls.ca_cert->0]
    } else {
        Seq::empty()
    }) + (if tls.client_cert is Some && tls.client_key is Some {
        seq![tls.client_cert->0, tls.client_key->0]
    } else {
        Seq::empty()
    })
}

/// What the files hold, in the same order.
pub open spec fn files_of(tls: TlsMaterial, files: Files) -> Seq<Seq<u8>> {
    (if tls.ca_cert is Some {
        seq![files.ca_cert]
    } else {
        Seq::empty()
    }) + (if tls.client_cert is Some && tls.client_key is Some {
        seq![files.client_cert, files.client_key]
    } else {
        Seq::empty()
    })
}

/// Whether `made` is what a TLS block asks for: the authority's certificate if
/// and only if it names one, the client's pair if and only if it names both, and
/// its domain name.
pub open spec fn is_made_of(made: Tls, tls: TlsMaterial, files: Files) -> bool {
    &&& made.ca_cert is Some <==> tls.ca_cert is Some
    &&& made.ca_cert is Some ==> made.ca_cert->0 == bytes_of(tls.ca_cert->0, files.ca_cert)
    &&& made.identity is Some <==> tls.client_cert is Some && tls.client_key is Some
    &&& made.identity is Some ==> (made.identity->0).0 == bytes_of(
        tls.client_cert->0,
        files.client_cert,
    )
    &&& made.identity is Some ==> (made.identity->0).1 == bytes_of(
        tls.client_key->0,
        files.client_key,
    )
    &&& made.domain_name == tls.domain_name
}

/// Whether gathering the TLS material runs through `turns` to `result`.
pub open spec fn gathering_runs(
    at: TlsNext,
    turns: Seq<Turn>,
    result: Result<Option<Tls>, ConfigFault>,
) -> bool {
    runs(
        |s: Gathering, a: Answer| tls_next(s, a),
        |s: Gathering, a: Answer| fits(Kind::Bytes, a),
        at,
        turns,
        result,
    )
}

/// The bytes of PEM values.
pub open spec fn all_bytes_of(values: Seq<Seq<char>>, files: Seq<Seq<u8>>) -> Seq<Seq<u8>> {
    Seq::new(values.len(), |i: int| bytes_of(values[i], files[i]))
}

proof fn values_are_read(
    has_ca: bool,
    domain_name: Option<Seq<char>>,
    known: Seq<Seq<u8>>,
    values: Seq<Seq<char>>,
    files: Seq<Seq<u8>>,
    more: Seq<Seq<char>>,
    turns: Seq<Turn>,
    result: Result<Option<Tls>, ConfigFault>,
)
    requires
        files.len() == values.len(),
        gathering_runs(
            tls_onward(has_ca, domain_name, known + all_bytes_of(values, files), more.reverse()),
            turns,
            result,
        ),
    ensures
        gathering_runs(
            tls_onward(has_ca, domain_name, known, (values + more).reverse()),
            all_reading(values, files) + turns,
            result,
        ),
    decreases values.len(),
{
    let step = |s: Gathering, a: Answer| tls_next(s, a);
    let accepts = |s: Gathering, a: Answer| fits(Kind::Bytes, a);
    if values.len() == 0 {
        assert(values + more =~= more);
        assert(known + all_bytes_of(values, files) =~= known);
        assert(all_reading(values, files) + turns =~= turns);
    } else {
        let (value, file) = (values[0], files[0]);
        let (values1, files1) = (values.drop_first(), files.drop_first());
        let known1 = known.push(bytes_of(value, file));
        assert(known1 + all_bytes_of(values1, files1) =~= known + all_bytes_of(values, files));
        values_are_read(has_ca, domain_name, known1, values1, files1, more, turns, result);
        let rest = (values + more).reverse();
        let left = (values1 + more).reverse();
        assert(rest.last() == value);
        assert(rest.drop_last() =~= left);
        let tail = all_reading(values1, files1) + turns;
        let all = all_reading(values, files) + turns;
        if is_inline(value) {
            assert(all =~= tail);
        } else {
            let asked = Gathering {
                path: value,
                rest: left,
                resolved: known,
                has_ca,
                domain_name,
            };
            assert(step(asked, Answer::Bytes(file)) == tls_onward(
                has_ca,
                domain_name,
                known1,
                left,
            ));
            run_begins(
                step,
                accepts,
                Call::ReadFile(value),
                asked,
                Answer::Bytes(file),
                tail,
                result,
            );
            assert(all =~= seq![turn(Call::ReadFile(value), Answer::Bytes(file))] + tail);
        }
    }
}

/// Gathering reads the file of each PEM value that names one, in order, and
/// yields what the TLS block asks for.
pub proof fn tls_gathering_runs(tls: TlsMaterial, files: Files, made: Tls)
    requires
        is_made_of(made, tls, files),
    ensures
        gathering_runs(
            tls_first(Some(tls)),
            all_reading(values_of(tls), files_of(tls, files)),
            Ok(Some(made)),
        ),
        gathering_runs(tls_first(None), Seq::empty(), Ok(None)),
{
    let (values, held) = (values_of(tls), files_of(tls, files));
    assert(pem_values(tls) =~= values);
    let none: Seq<Seq<u8>> = Seq::empty();
    let no_more: Seq<Seq<char>> = Seq::empty();
    let all = none + all_bytes_of(values, held);
    assert(no_more.reverse() =~= no_more);
    assert(values + no_more =~= values);
    let built = settings(tls.ca_cert is Some, tls.domain_name, all);
    assert(built.ca_cert == made.ca_cert);
    assert(built.identity == made.identity);
    assert(built == made);
    values_are_read(
        tls.ca_cert is Some,
        tls.domain_name,
        none,
        values,
        held,
        no_more,
        Seq::empty(),
        Ok(Some(made)),
    );
    assert(all_reading(values, held) + Seq::<Turn>::empty() =~= all_reading(values, held));
}

/// Gathering ends with the first file that cannot be read, and names it.
pub proof fn failed_tls_gathering_runs(
    tls: TlsMaterial,
    files: Files,
    at: int,
    detail: Seq<char>,
)
    requires
        0 <= at < values_of(tls).len(),
        !is_inline(values_of(tls)[at]),
    ensures
        gathering_runs(
            tls_first(Some(tls)),
            all_reading(values_of(tls).take(at), files_of(tls, files).take(at)) + seq![
                turn(Call::ReadFile(values_of(tls)[at]), Answer::Failed(detail)),
            ],
            Err(ConfigFault::TlsFileRead(values_of(tls)[at], detail)),
        ),
{
    let (values, held) = (values_of(tls), files_of(tls, files));
    assert(pem_values(tls) =~= values);
    let none: Seq<Seq<u8>> = Seq::empty();
    let more = values.skip(at);
    let known = none + all_bytes_of(values.take(at), held.take(at));
    let end = seq![turn(Call::ReadFile(values[at]), Answer::Failed(detail))];
    let result = Err::<Option<Tls>, ConfigFault>(ConfigFault::TlsFileRead(values[at], detail));
    assert(gathering_runs(
        tls_onward(tls.ca_cert is Some, tls.domain_name, known, more.reverse()),
        end,
        result,
    )) by {
        assert(more.reverse().last() == values[at]);
        reveal_with_fuel(runs, 3);
    }
    values_are_read(
        tls.ca_cert is Some,
        tls.domain_name,
        none,
        values.take(at),
        held.take(at),
        more,
        end,
        result,
    );
    assert(values.take(at) + more =~= values);
}

// ---------------------------------------------------------------------------
// connect
// ---------------------------------------------------------------------------

/// Whether connecting runs through `turns` to `result`.
pub open spec fn connect_runs(
    at: ConnectNext,
    turns: Seq<Turn>,
    result: Result<(), Fault>,
) -> bool {
    runs(
        |s: Connecting, a: Answer| connect_next(s, a),
        |s: Connecting, a: Answer| connect_accepts(s, a),
        at,
        turns,
        result,
    )
}

proof fn connecting_gathers_first(
    at: TlsNext,
    endpoints: Seq<Seq<char>>,
    user: Option<(Seq<char>, Seq<char>)>,
    gathering: Seq<Turn>,
    gathered: Result<Option<Tls>, ConfigFault>,
    turns: Seq<Turn>,
    result: Result<(), Fault>,
)
    requires
        gathering_runs(at, gathering, gathered),
        connect_runs(
            connect_gathering(TlsNext::Finished(gathered), endpoints, user),
            turns,
            result,
        ),
    ensures
        connect_runs(connect_gathering(at, endpoints, user), gathering + turns, result),
    decreases gathering.len(),
{
    let step = |s: Connecting, a: Answer| connect_next(s, a);
    let accepts = |s: Connecting, a: Answer| connect_accepts(s, a);
    match at {
        Next::Finished(_) => {
            assert(gathering + turns =~= turns);
        },
        Next::Ask(call, state) => {
            let answer = gathering[0].answer;
            let later = tls_next(state, answer);
            let tail = gathering.drop_first();
            assert(gathering_runs(later, tail, gathered));
            connecting_gathers_first(later, endpoints, user, tail, gathered, turns, result);
            let asked = Connecting::Gather(state, endpoints, user);
            assert(step(asked, answer) == connect_gathering(later, endpoints, user));
            run_begins(step, accepts, call, asked, answer, tail + turns, result);
            assert(gathering + turns =~= seq![turn(call, answer)] + (tail + turns));
        },
    }
}

/// Whether `user` is the configuration's: there is one if and only if the
/// configuration has credentials, with exactly their name and password.
pub open spec fn is_user_of(user: Option<(Seq<char>, Seq<char>)>, c: Settings) -> bool {
    &&& user is None <==> c.auth is None
    &&& user is Some ==> (user->0).0 == c.auth->0.username
    &&& user is Some ==> (user->0).1 == c.auth->0.password
}

/// A configuration without a TLS block is connected to by opening its endpoints
/// with its user, without TLS.
pub proof fn plain_connecting_runs(
    c: Settings,
    user: Option<(Seq<char>, Seq<char>)>,
    detail: Seq<char>,
)
    requires
        c.tls is None,
        is_user_of(user, c),
    ensures
        connect_runs(
            connect_first(c),
            seq![turn(Call::Open(c.endpoints, user, None), Answer::Done)],
            Ok(()),
        ),
        connect_runs(
            connect_first(c),
            seq![turn(Call::Open(c.endpoints, user, None), Answer::Failed(detail))],
            Err(Fault::BackendUnavailable("etcd connect: "@ + detail)),
        ),
{
    reveal_with_fuel(runs, 3);
    reveal_strlit(": ");
    reveal_strlit("etcd connect");
    reveal_strlit("etcd connect: ");
    assert("etcd connect"@ + ": "@ + detail =~= "etcd connect: "@ + detail);
}

/// A configuration with a TLS block is connected to by reading the files that
/// the block names and opening the endpoints with the configuration's user and
/// with what the block asks for. The user is the configuration's whatever the
/// block holds.
pub proof fn secure_connecting_runs(
    c: Settings,
    user: Option<(Seq<char>, Seq<char>)>,
    files: Files,
    made: Tls,
    detail: Seq<char>,
)
    requires
        c.tls is Some,
        is_user_of(user, c),
        is_made_of(made, c.tls->0, files),
    ensures
        connect_runs(
            connect_first(c),
            all_reading(values_of(c.tls->0), files_of(c.tls->0, files)) + seq![
                turn(Call::Open(c.endpoints, user, Some(made)), Answer::Done),
            ],
            Ok(()),
        ),
        connect_runs(
            connect_first(c),
            all_reading(values_of(c.tls->0), files_of(c.tls->0, files)) + seq![
                turn(Call::Open(c.endpoints, user, Some(made)), Answer::Failed(detail)),
            ],
            Err(Fault::BackendUnavailable("etcd connect: "@ + detail)),
        ),
{
    let tls = c.tls->0;
    tls_gathering_runs(tls, files, made);
    let reads = all_reading(values_of(tls), files_of(tls, files));
    let call = Call::Open(c.endpoints, user, Some(made));
    let gathered = Ok::<Option<Tls>, ConfigFault>(Some(made));
    let opened = seq![turn(call, Answer::Done)];
    let failed = seq![turn(call, Answer::Failed(detail))];
    let error = Err::<(), Fault>(Fault::BackendUnavailable("etcd connect: "@ + detail));
    let at = connect_gathering(TlsNext::Finished(gathered), c.endpoints, user);
    assert(connect_runs(at, opened, Ok(())) && connect_runs(at, failed, error)) by {
        reveal_with_fuel(runs, 3);
        reveal_strlit(": ");
        reveal_strlit("etcd connect");
        reveal_strlit("etcd connect: ");
        assert("etcd connect"@ + ": "@ + detail =~= "etcd connect: "@ + detail);
    }
    connecting_gathers_first(
        tls_first(Some(tls)),
        c.endpoints,
        user,
        reads,
        gathered,
        opened,
        Ok(()),
    );
    connecting_gathers_first(
        tls_first(Some(tls)),
        c.endpoints,
        user,
        reads,
        gathered,
        failed,
        error,
    );
}

/// Connecting ends with the first file that cannot be read, and says so; nothing
/// is opened.
pub proof fn unreadable_files_end_connecting(
    c: Settings,
    files: Files,
    at: int,
    detail: Seq<char>,
)
    requires
        c.tls is Some,
        0 <= at < values_of(c.tls->0).len(),
        !is_inline(values_of(c.tls->0)[at]),
    ensures
        connect_runs(
            connect_first(c),
            all_reading(values_of(c.tls->0).take(at), files_of(c.tls->0, files).take(at)) + seq![
                turn(Call::ReadFile(values_of(c.tls->0)[at]), Answer::Failed(detail)),
            ],
            Err(
                Fault::Internal(
                    "etcd TLS config: cluster.etcd: could not read TLS PEM file `"@ + values_of(
                        c.tls->0,
                    )[at] + "`: "@ + detail,
                ),
            ),
        ),
{
    let tls = c.tls->0;
    let path = values_of(tls)[at];
    failed_tls_gathering_runs(tls, files, at, detail);
    let reads = all_reading(values_of(tls).take(at), files_of(tls, files).take(at)) + seq![
        turn(Call::ReadFile(path), Answer::Failed(detail)),
    ];
    let gathered = Err::<Option<Tls>, ConfigFault>(ConfigFault::TlsFileRead(path, detail));
    let text = "etcd TLS config: cluster.etcd: could not read TLS PEM file `"@ + path + "`: "@
        + detail;
    let error = Err::<(), Fault>(Fault::Internal(text));
    let user = match c.auth {
        Some(auth) => Some((auth.username, auth.password)),
        None => None,
    };
    let end = connect_gathering(TlsNext::Finished(gathered), c.endpoints, user);
    assert(end == ConnectNext::Finished(error)) by {
        reveal_strlit(": ");
        reveal_strlit("etcd TLS config");
        reveal_strlit("cluster.etcd: could not read TLS PEM file `");
        reveal_strlit("etcd TLS config: cluster.etcd: could not read TLS PEM file `");
        assert("etcd TLS config"@ + ": "@ + ("cluster.etcd: could not read TLS PEM file `"@ + path
            + "`: "@ + detail) =~= text);
    }
    assert(connect_runs(end, Seq::empty(), error));
    connecting_gathers_first(
        tls_first(Some(tls)),
        c.endpoints,
        user,
        reads,
        gathered,
        Seq::empty(),
        error,
    );
    assert(reads + Seq::<Turn>::empty() =~= reads);
}

/// Where there is a connection nothing is asked; where there is none, one is
/// opened as configured.
pub proof fn connections_are_opened_where_there_is_none(
    c: Settings,
    turns: Seq<Turn>,
    result: Result<(), Fault>,
)
    requires
        connect_runs(connect_first(c), turns, result),
    ensures
        connect_runs(ensure_first(c, false), turns, result),
        connect_runs(ensure_first(c, true), Seq::empty(), Ok(())),
{
}

/// Whether connecting opens with nothing but what belongs to `c`.
pub open spec fn belongs_to(at: ConnectNext, c: Settings) -> bool {
    match at {
        Next::Ask(call, Connecting::Gather(_, endpoints, user)) => {
            &&& !opens(call)
            &&& endpoints == c.endpoints
            &&& is_user_of(user, c)
        },
        Next::Ask(call, Connecting::Open) => {
            &&& opens(call)
            &&& call->Open_0 == c.endpoints
            &&& is_user_of(call->Open_1, c)
        },
        Next::Finished(_) => true,
    }
}

proof fn gathering_only_reads(
    has_ca: bool,
    domain_name: Option<Seq<char>>,
    resolved: Seq<Seq<u8>>,
    rest: Seq<Seq<char>>,
)
    ensures
        match tls_onward(has_ca, domain_name, resolved, rest) {
            Next::Ask(call, _) => call is ReadFile,
            Next::Finished(_) => true,
        },
    decreases rest.len(),
{
    if rest.len() > 0 {
        gathering_only_reads(
            has_ca,
            domain_name,
            resolved.push(encode_utf8(rest.last())),
            rest.drop_last(),
        );
    }
}

proof fn what_is_opened_belongs(
    at: ConnectNext,
    c: Settings,
    turns: Seq<Turn>,
    result: Result<(), Fault>,
)
    requires
        belongs_to(at, c),
        connect_runs(at, turns, result),
    ensures
        forall|i: int|
            0 <= i < turns.len() && opens((#[trigger] turns[i]).call) ==> turns[i].call->Open_0
                == c.endpoints && is_user_of(turns[i].call->Open_1, c),
    decreases turns.len(),
{
    let step = |s: Connecting, a: Answer| connect_next(s, a);
    let accepts = |s: Connecting, a: Answer| connect_accepts(s, a);
    match at {
        Next::Ask(call, state) => {
            let answer = turns[0].answer;
            let later = connect_next(state, answer);
            assert(step(state, answer) == later);
            assert(accepts(state, answer));
            let rest = turns.drop_first();
            match (state, answer) {
                (Connecting::Gather(inner, _, _), Answer::Bytes(bytes)) => {
                    gathering_only_reads(
                        inner.has_ca,
                        inner.domain_name,
                        inner.resolved.push(bytes),
                        inner.rest,
                    );
                },
                _ => {},
            }
            what_is_opened_belongs(later, c, rest, result);
            assert forall|i: int|
                0 <= i < turns.len() && opens((#[trigger] turns[i]).call) implies
                turns[i].call->Open_0 == c.endpoints && is_user_of(turns[i].call->Open_1, c) by {
                if i > 0 {
                    assert(turns[i] == rest[i - 1]);
                }
            }
        },
        Next::Finished(_) => {},
    }
}

/// Every connection that is opened for a configuration is opened to its
/// endpoints, and carries a user if and only if the configuration has
/// credentials: exactly their name and password, whatever the TLS block holds
/// and whatever its files do.
pub proof fn connections_carry_the_configured_user(
    c: Settings,
    turns: Seq<Turn>,
    result: Result<(), Fault>,
    at: int,
)
    requires
        connect_runs(connect_first(c), turns, result),
        0 <= at < turns.len(),
        opens(turns[at].call),
    ensures
        turns[at].call->Open_0 == c.endpoints,
        turns[at].call->Open_1 is None <==> c.auth is None,
        c.auth is Some ==> turns[at].call->Open_1 == Some(
            (c.auth->0.username, c.auth->0.password),
        ),
{
    match c.tls {
        Some(tls) => {
            gathering_only_reads(
                tls.ca_cert is Some,
                tls.domain_name,
                Seq::empty(),
                pem_values(tls).reverse(),
            );
        },
        None => {},
    }
    what_is_opened_belongs(connect_first(c), c, turns, result);
    assert(opens(turns[at].call));
}

} // verus!
