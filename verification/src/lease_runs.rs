//! What leases ask of etcd, and what they make of its answers.
use vstd::prelude::*;

use crate::error::{call_failed, Fault};
use crate::kv_runs::is_done_or_failed;
use crate::lease::{
    acquire_accepts, acquire_first, acquire_next, after_renewal, attempt, release_first,
    release_next, renew_accepts, renew_first, renew_next, renewal_nanos, renewal_report, token,
    try_accepts, try_first, try_next, ttl_nanos, upkeep_after, upkeep_due, AcquireNext, Acquiring,
    Lease, Releasing, Renewed, Renewing, Trying, Upkeep,
};
use crate::protocol::{fits, Answer, Call, Kind, Next};
use crate::runs::{run_begins, runs, turn, Turn};
use crate::text::trimmed;
use crate::time::{rfc3339, TimeSpan, UnixTime};

verus! {

/// Whether `seconds` are what a lease of `ttl` is asked for: its whole seconds,
/// at least one, read as a signed number of 64 bits.
pub open spec fn are_asked_seconds(seconds: i64, ttl: TimeSpan) -> bool {
    &&& ttl.secs == 0 ==> seconds == 1
    &&& 1 <= ttl.secs <= 0x7fff_ffff_ffff_ffff ==> seconds == ttl.secs
    &&& ttl.secs > 0x7fff_ffff_ffff_ffff ==> seconds == ttl.secs - 0x1_0000_0000_0000_0000
}

/// Nanoseconds by which a date is moved: those of `ttl`, or none where they are
/// more than a date can be moved by.
pub open spec fn moved_by(ttl: TimeSpan) -> int {
    if ttl.secs * 1_000_000_000 + ttl.nanos <= 0x7fff_ffff_ffff_ffff * 1_000_000 {
        ttl.secs * 1_000_000_000 + ttl.nanos
    } else {
        0
    }
}

/// Whether the end of `ttl`, counted from `now`, is a date.
pub open spec fn ends_at_a_date(now: UnixTime, ttl: TimeSpan) -> bool {
    &&& now.secs >= 0
    &&& now.nanos < 1_000_000_000
    &&& ttl.nanos < 1_000_000_000
    &&& now.secs * 1_000_000_000 + now.nanos + moved_by(ttl) < 8_210_266_876_800 * 1_000_000_000
}

/// The text for the second in which `ttl`, counted from `now`, is over.
pub open spec fn end_text(now: UnixTime, ttl: TimeSpan) -> Seq<char> {
    rfc3339((now.secs * 1_000_000_000 + now.nanos + moved_by(ttl)) / 1_000_000_000)
}

/// A failed call is reported by its name and its detail.
pub proof fn lease_failures_name_the_call(detail: Seq<char>)
    ensures
        call_failed("lease_grant"@, detail) == Fault::BackendUnavailable("lease_grant: "@ + detail),
        call_failed("txn"@, detail) == Fault::BackendUnavailable("txn: "@ + detail),
        call_failed("lease_keep_alive"@, detail) == Fault::BackendUnavailable(
            "lease_keep_alive: "@ + detail,
        ),
        call_failed("keep_alive heartbeat"@, detail) == Fault::BackendUnavailable(
            "keep_alive heartbeat: "@ + detail,
        ),
        call_failed("keep_alive recv"@, detail) == Fault::BackendUnavailable(
            "keep_alive recv: "@ + detail,
        ),
{
    reveal_strlit(": ");
    reveal_strlit("lease_grant");
    reveal_strlit("lease_grant: ");
    reveal_strlit("txn");
    reveal_strlit("txn: ");
    reveal_strlit("lease_keep_alive");
    reveal_strlit("lease_keep_alive: ");
    reveal_strlit("keep_alive heartbeat");
    reveal_strlit("keep_alive heartbeat: ");
    reveal_strlit("keep_alive recv");
    reveal_strlit("keep_alive recv: ");
    assert("lease_grant"@ + ": "@ + detail =~= "lease_grant: "@ + detail);
    assert("txn"@ + ": "@ + detail =~= "txn: "@ + detail);
    assert("lease_keep_alive"@ + ": "@ + detail =~= "lease_keep_alive: "@ + detail);
    assert("keep_alive heartbeat"@ + ": "@ + detail =~= "keep_alive heartbeat: "@ + detail);
    assert("keep_alive recv"@ + ": "@ + detail =~= "keep_alive recv: "@ + detail);
}

// ---------------------------------------------------------------------------
// try_acquire
// ---------------------------------------------------------------------------

/// Whether an attempt runs through `turns` to `result`.
pub open spec fn try_runs(
    name: Seq<char>,
    ttl: TimeSpan,
    turns: Seq<Turn>,
    result: Result<Option<Lease>, Fault>,
) -> bool {
    runs(
        |s: Trying, a: Answer| try_next(s, a),
        |s: Trying, a: Answer| try_accepts(s, a),
        try_first(name, ttl),
        turns,
        result,
    )
}

/// The turns of an attempt up to the outcome of its transaction, which creates
/// an empty value under `<name>/lock`, attached to the lease that was granted.
pub open spec fn contest(name: Seq<char>, seconds: i64, id: i64, outcome: Answer) -> Seq<Turn> {
    seq![
        turn(Call::LeaseGrant(seconds), Answer::Granted(id)),
        turn(Call::PutIfAbsent(name + "/lock"@, Seq::empty(), Some(id)), outcome),
    ]
}

/// An attempt asks for a lease and creates the key with it. One that fails says
/// so; one that is lost revokes the lease and finds nothing, whatever comes of
/// that; one that is won holds the key until the time to live is over.
pub proof fn attempt_runs(
    name: Seq<char>,
    ttl: TimeSpan,
    seconds: i64,
    id: i64,
    revoked: Answer,
    now: UnixTime,
    detail: Seq<char>,
)
    requires
        trimmed(name).len() > 0,
        are_asked_seconds(seconds, ttl),
        is_done_or_failed(revoked),
        ends_at_a_date(now, ttl),
    ensures
        try_runs(
            name,
            ttl,
            seq![turn(Call::LeaseGrant(seconds), Answer::Failed(detail))],
            Err(Fault::BackendUnavailable("lease_grant: "@ + detail)),
        ),
        try_runs(
            name,
            ttl,
            contest(name, seconds, id, Answer::Failed(detail)),
            Err(Fault::BackendUnavailable("txn: "@ + detail)),
        ),
        try_runs(
            name,
            ttl,
            contest(name, seconds, id, Answer::Compared(false)) + seq![
                turn(Call::LeaseRevoke(id), revoked),
            ],
            Ok(None),
        ),
        try_runs(
            name,
            ttl,
            contest(name, seconds, id, Answer::Compared(true)) + seq![
                turn(Call::ReadClock, Answer::Clock(now)),
            ],
            Ok(
                Some(
                    Lease {
                        id,
                        lock_key: name + "/lock"@,
                        expires_at: end_text(now, ttl),
                        released: false,
                    },
                ),
            ),
        ),
{
    reveal_with_fuel(runs, 5);
    lease_failures_name_the_call(detail);
    let nothing: Seq<u8> = Seq::empty();
    assert(nothing =~= Seq::<u8>::empty());
}

/// A lease without a name is refused before anything is asked.
pub proof fn nameless_attempts_ask_nothing(name: Seq<char>, ttl: TimeSpan)
    requires
        trimmed(name).len() == 0,
    ensures
        try_runs(
            name,
            ttl,
            Seq::empty(),
            Err(Fault::InvalidReference("lease key must not be empty"@)),
        ),
        acquire_runs(
            name,
            ttl,
            Seq::empty(),
            Err(Fault::InvalidReference("lease key must not be empty"@)),
        ),
{
}

// ---------------------------------------------------------------------------
// acquire
// ---------------------------------------------------------------------------

/// Whether an acquisition runs through `turns` to `result`.
pub open spec fn acquire_runs(
    name: Seq<char>,
    ttl: TimeSpan,
    turns: Seq<Turn>,
    result: Result<Lease, Fault>,
) -> bool {
    runs(
        |s: Acquiring, a: Answer| acquire_next(s, a),
        |s: Acquiring, a: Answer| acquire_accepts(s, a),
        acquire_first(name, ttl),
        turns,
        result,
    )
}

/// A lost attempt: the lease that was granted for it, and what came of its
/// revocation and of the wait.
pub struct Loss {
    pub id: i64,
    pub revoked: Answer,
    pub waited: Answer,
}

/// Milliseconds of the wait after `lost` earlier losses.
pub open spec fn wait_ms(lost: nat) -> int {
    if lost == 0 {
        50
    } else if lost == 1 {
        100
    } else if lost == 2 {
        200
    } else if lost == 3 {
        400
    } else if lost == 4 {
        800
    } else if lost == 5 {
        1600
    } else {
        2000
    }
}

/// The turns of an attempt that is lost after `lost` earlier ones: after its
/// lease is revoked, a wait.
pub open spec fn lost_turns(name: Seq<char>, seconds: i64, loss: Loss, lost: nat) -> Seq<Turn> {
    contest(name, seconds, loss.id, Answer::Compared(false)) + seq![
        turn(Call::LeaseRevoke(loss.id), loss.revoked),
        turn(
            Call::Sleep(
                TimeSpan {
                    secs: (wait_ms(lost) / 1000) as u64,
                    nanos: (wait_ms(lost) % 1000 * 1_000_000) as u32,
                },
            ),
            loss.waited,
        ),
    ]
}

/// The turns of attempts that are lost one after the other, after `lost`
/// earlier ones.
pub open spec fn all_lost_turns(
    name: Seq<char>,
    seconds: i64,
    losses: Seq<Loss>,
    lost: nat,
) -> Seq<Turn>
    decreases losses.len(),
{
    if losses.len() == 0 {
        Seq::empty()
    } else {
        lost_turns(name, seconds, losses[0], lost) + all_lost_turns(
            name,
            seconds,
            losses.drop_first(),
            lost + 1,
        )
    }
}

proof fn losses_are_followed_by_attempts(
    name: Seq<char>,
    ttl: TimeSpan,
    seconds: i64,
    losses: Seq<Loss>,
    lost: nat,
    turns: Seq<Turn>,
    result: Result<Lease, Fault>,
)
    requires
        trimmed(name).len() > 0,
        are_asked_seconds(seconds, ttl),
        forall|i: int|
            0 <= i < losses.len() ==> is_done_or_failed((#[trigger] losses[i]).revoked)
                && is_done_or_failed(losses[i].waited),
        runs(
            |s: Acquiring, a: Answer| acquire_next(s, a),
            |s: Acquiring, a: Answer| acquire_accepts(s, a),
            attempt(
                try_first(name, ttl),
                name,
                ttl,
                wait_ms((lost + losses.len()) as nat) as u64,
            ),
            turns,
            result,
        ),
    ensures
        runs(
            |s: Acquiring, a: Answer| acquire_next(s, a),
            |s: Acquiring, a: Answer| acquire_accepts(s, a),
            attempt(try_first(name, ttl), name, ttl, wait_ms(lost) as u64),
            all_lost_turns(name, seconds, losses, lost) + turns,
            result,
        ),
    decreases losses.len(),
{
    let step = |s: Acquiring, a: Answer| acquire_next(s, a);
    let accepts = |s: Acquiring, a: Answer| acquire_accepts(s, a);
    if losses.len() == 0 {
        assert(all_lost_turns(name, seconds, losses, lost) + turns =~= turns);
    } else {
        let loss = losses[0];
        let rest = losses.drop_first();
        assert(is_done_or_failed(losses[0].revoked) && is_done_or_failed(losses[0].waited));
        assert forall|i: int| 0 <= i < rest.len() implies is_done_or_failed(
            (#[trigger] rest[i]).revoked,
        ) && is_done_or_failed(rest[i].waited) by {
            assert(rest[i] == losses[i + 1]);
        }
        assert(lost + 1 + rest.len() == lost + losses.len());
        losses_are_followed_by_attempts(name, ttl, seconds, rest, lost + 1, turns, result);
        let tail = all_lost_turns(name, seconds, rest, lost + 1) + turns;
        let all = all_lost_turns(name, seconds, losses, lost) + turns;
        let ms = wait_ms(lost) as u64;
        let key = name + "/lock"@;
        let nothing: Seq<u8> = Seq::empty();
        let asked = Acquiring::Backoff(name, ttl, ms);
        let slept = lost_turns(name, seconds, loss, lost)[3];
        assert(step(asked, slept.answer) == attempt(
            try_first(name, ttl),
            name,
            ttl,
            wait_ms(lost + 1) as u64,
        ));
        run_begins(step, accepts, slept.call, asked, slept.answer, tail, result);
        let turns3 = seq![slept] + tail;
        let revoking = Acquiring::Attempt(Trying::Revoke, name, ttl, ms);
        assert(step(revoking, loss.revoked) == AcquireNext::Ask(slept.call, asked));
        run_begins(
            step,
            accepts,
            Call::LeaseRevoke(loss.id),
            revoking,
            loss.revoked,
            turns3,
            result,
        );
        let turns2 = seq![turn(Call::LeaseRevoke(loss.id), loss.revoked)] + turns3;
        let comparing = Acquiring::Attempt(Trying::Compare(key, ttl, loss.id), name, ttl, ms);
        assert(step(comparing, Answer::Compared(false)) == AcquireNext::Ask(
            Call::LeaseRevoke(loss.id),
            revoking,
        ));
        run_begins(
            step,
            accepts,
            Call::PutIfAbsent(key, nothing, Some(loss.id)),
            comparing,
            Answer::Compared(false),
            turns2,
            result,
        );
        let turns1 = seq![
            turn(Call::PutIfAbsent(key, nothing, Some(loss.id)), Answer::Compared(false)),
        ] + turns2;
        let granting = Acquiring::Attempt(Trying::Grant(key, ttl), name, ttl, ms);
        assert(step(granting, Answer::Granted(loss.id)) == AcquireNext::Ask(
            Call::PutIfAbsent(key, nothing, Some(loss.id)),
            comparing,
        ));
        run_begins(
            step,
            accepts,
            Call::LeaseGrant(seconds),
            granting,
            Answer::Granted(loss.id),
            turns1,
            result,
        );
        assert(all =~= seq![turn(Call::LeaseGrant(seconds), Answer::Granted(loss.id))] + turns1);
        assert(attempt(try_first(name, ttl), name, ttl, ms) == AcquireNext::Ask(
            Call::LeaseGrant(seconds),
            granting,
        ));
    }
}

/// An acquisition goes on for as long as it loses. Each lost attempt, for
/// whatever time to live, is followed by a wait and by a further attempt,
/// whatever the revocation and the wait are answered; the waits last 50, 100,
/// 200, 400, 800, 1600 and from then on 2000 milliseconds. It ends with the
/// attempt that is won, or with a call for the lease or for the transaction
/// that fails.
pub proof fn acquisition_runs(
    name: Seq<char>,
    ttl: TimeSpan,
    seconds: i64,
    losses: Seq<Loss>,
    id: i64,
    now: UnixTime,
    detail: Seq<char>,
)
    requires
        trimmed(name).len() > 0,
        are_asked_seconds(seconds, ttl),
        forall|i: int|
            0 <= i < losses.len() ==> is_done_or_failed((#[trigger] losses[i]).revoked)
                && is_done_or_failed(losses[i].waited),
        ends_at_a_date(now, ttl),
    ensures
        acquire_runs(
            name,
            ttl,
            all_lost_turns(name, seconds, losses, 0) + (contest(
                name,
                seconds,
                id,
                Answer::Compared(true),
            ) + seq![turn(Call::ReadClock, Answer::Clock(now))]),
            Ok(
                Lease {
                    id,
                    lock_key: name + "/lock"@,
                    expires_at: end_text(now, ttl),
                    released: false,
                },
            ),
        ),
        acquire_runs(
            name,
            ttl,
            all_lost_turns(name, seconds, losses, 0) + seq![
                turn(Call::LeaseGrant(seconds), Answer::Failed(detail)),
            ],
            Err(Fault::BackendUnavailable("lease_grant: "@ + detail)),
        ),
        acquire_runs(
            name,
            ttl,
            all_lost_turns(name, seconds, losses, 0) + contest(
                name,
                seconds,
                id,
                Answer::Failed(detail),
            ),
            Err(Fault::BackendUnavailable("txn: "@ + detail)),
        ),
{
    lease_failures_name_the_call(detail);
    let step = |s: Acquiring, a: Answer| acquire_next(s, a);
    let accepts = |s: Acquiring, a: Answer| acquire_accepts(s, a);
    let n = losses.len();
    let at = attempt(try_first(name, ttl), name, ttl, wait_ms(n) as u64);
    let won = contest(name, seconds, id, Answer::Compared(true)) + seq![
        turn(Call::ReadClock, Answer::Clock(now)),
    ];
    let held = Ok::<Lease, Fault>(
        Lease { id, lock_key: name + "/lock"@, expires_at: end_text(now, ttl), released: false },
    );
    let refused = seq![turn(Call::LeaseGrant(seconds), Answer::Failed(detail))];
    let no_lease = Err::<Lease, Fault>(Fault::BackendUnavailable("lease_grant: "@ + detail));
    let broken = contest(name, seconds, id, Answer::Failed(detail));
    let no_txn = Err::<Lease, Fault>(Fault::BackendUnavailable("txn: "@ + detail));
    assert(runs(step, accepts, at, won, held) && runs(step, accepts, at, refused, no_lease) && runs(
        step,
        accepts,
        at,
        broken,
        no_txn,
    )) by {
        reveal_with_fuel(runs, 5);
    }
    losses_are_followed_by_attempts(name, ttl, seconds, losses, 0, won, held);
    losses_are_followed_by_attempts(name, ttl, seconds, losses, 0, refused, no_lease);
    losses_are_followed_by_attempts(name, ttl, seconds, losses, 0, broken, no_txn);
}

/// Whether the acquisition is in the middle of things, of a lease with a name.
pub open spec fn is_named(at: AcquireNext) -> bool {
    match at {
        Next::Ask(_, Acquiring::Attempt(_, name, _, _)) => trimmed(name).len() > 0,
        Next::Ask(_, Acquiring::Backoff(name, _, _)) => trimmed(name).len() > 0,
        Next::Finished(_) => false,
    }
}

/// Whether the call is one that an attempt is made with.
pub open spec fn makes_an_attempt(call: Call) -> bool {
    call is LeaseGrant || call is PutIfAbsent
}

/// Whether the acquisition asks for what its state waits for.
pub open spec fn asks_in_step(at: AcquireNext) -> bool {
    match at {
        Next::Ask(call, Acquiring::Attempt(Trying::Grant(_, _), _, _, _)) => call is LeaseGrant,
        Next::Ask(call, Acquiring::Attempt(Trying::Compare(_, _, _), _, _, _)) =>
            call is PutIfAbsent,
        _ => true,
    }
}

proof fn errors_come_of_failed_calls(
    at: AcquireNext,
    turns: Seq<Turn>,
    fault: Fault,
)
    requires
        is_named(at),
        asks_in_step(at),
        runs(
            |s: Acquiring, a: Answer| acquire_next(s, a),
            |s: Acquiring, a: Answer| acquire_accepts(s, a),
            at,
            turns,
            Err(fault),
        ),
    ensures
        turns.len() > 0,
        turns.last().answer is Failed,
        makes_an_attempt(turns.last().call),
    decreases turns.len(),
{
    let step = |s: Acquiring, a: Answer| acquire_next(s, a);
    let accepts = |s: Acquiring, a: Answer| acquire_accepts(s, a);
    match at {
        Next::Ask(call, state) => {
            let answer = turns[0].answer;
            let later = acquire_next(state, answer);
            assert(step(state, answer) == later);
            assert(accepts(state, answer));
            assert(acquire_accepts(state, answer));
            let rest = turns.drop_first();
            assert(runs(step, accepts, later, rest, Err(fault)));
            match later {
                Next::Ask(_, _) => {
                    errors_come_of_failed_calls(later, rest, fault);
                    assert(turns.last() == rest.last());
                },
                Next::Finished(_) => {
                    assert(turns.last() == turns[0]);
                },
            }
        },
        Next::Finished(_) => {},
    }
}

/// An acquisition of a lease with a name ends with an error only through a
/// call, for the lease or for the transaction, that failed.
pub proof fn acquisitions_fail_only_with_a_call(
    name: Seq<char>,
    ttl: TimeSpan,
    turns: Seq<Turn>,
    fault: Fault,
)
    requires
        trimmed(name).len() > 0,
        acquire_runs(name, ttl, turns, Err(fault)),
    ensures
        turns.len() > 0,
        turns.last().answer is Failed,
        makes_an_attempt(turns.last().call),
{
    errors_come_of_failed_calls(acquire_first(name, ttl), turns, fault);
}

// ---------------------------------------------------------------------------
// renew
// ---------------------------------------------------------------------------

/// Whether a renewal runs through `turns` to `result`.
pub open spec fn renew_runs(lease: Option<Lease>, turns: Seq<Turn>, result: Renewed) -> bool {
    runs(
        |s: Renewing, a: Answer| renew_next(s, a),
        |s: Renewing, a: Answer| renew_accepts(s, a),
        renew_first(lease),
        turns,
        result,
    )
}

/// The turns of a renewal up to the answer to its heartbeat.
pub open spec fn heartbeat(lease: Lease, answer: Answer) -> Seq<Turn> {
    seq![
        turn(Call::LeaseKeepAlive(lease.id), Answer::Done),
        turn(Call::SendHeartbeat, Answer::Done),
        turn(Call::ReadHeartbeat, answer),
    ]
}

/// A renewal opens the exchange for its lease, sends a heartbeat and reads the
/// answer. One that is answered with a time to live of one second or more, for
/// every such time, ends renewed until that many seconds after the clock
/// reading are over; one that is answered with nothing, or with no time left,
/// ends lapsed.
pub proof fn renewal_runs(lease: Lease, ttl: i64, now: UnixTime)
    requires
        !lease.released,
        ttl > 0 ==> ends_at_a_date(now, TimeSpan { secs: ttl as u64, nanos: 0 }),
    ensures
        ttl > 0 ==> renew_runs(
            Some(lease),
            heartbeat(lease, Answer::Heartbeat(Some(ttl))) + seq![
                turn(Call::ReadClock, Answer::Clock(now)),
            ],
            Renewed::Until(end_text(now, TimeSpan { secs: ttl as u64, nanos: 0 })),
        ),
        0 < ttl <= 8_210_266_876_799 ==> end_text(now, TimeSpan { secs: ttl as u64, nanos: 0 })
            == rfc3339(now.secs + ttl),
        ttl <= 0 ==> renew_runs(
            Some(lease),
            heartbeat(lease, Answer::Heartbeat(Some(ttl))),
            Renewed::Lapsed,
        ),
        renew_runs(Some(lease), heartbeat(lease, Answer::Heartbeat(None)), Renewed::Lapsed),
{
    reveal_with_fuel(runs, 6);
}

/// A call that fails ends a renewal with its failure.
pub proof fn failed_renewal_runs(lease: Lease, detail: Seq<char>)
    requires
        !lease.released,
    ensures
        renew_runs(
            Some(lease),
            seq![turn(Call::LeaseKeepAlive(lease.id), Answer::Failed(detail))],
            Renewed::Failed(Fault::BackendUnavailable("lease_keep_alive: "@ + detail)),
        ),
        renew_runs(
            Some(lease),
            seq![
                turn(Call::LeaseKeepAlive(lease.id), Answer::Done),
                turn(Call::SendHeartbeat, Answer::Failed(detail)),
            ],
            Renewed::Failed(Fault::BackendUnavailable("keep_alive heartbeat: "@ + detail)),
        ),
        renew_runs(
            Some(lease),
            heartbeat(lease, Answer::Failed(detail)),
            Renewed::Failed(Fault::BackendUnavailable("keep_alive recv: "@ + detail)),
        ),
{
    reveal_with_fuel(runs, 6);
    lease_failures_name_the_call(detail);
}

/// Of a lease that was given up, and of one whose holder has dropped it,
/// nothing is asked: it has lapsed, and there is nothing to give up.
pub proof fn leases_that_are_gone_ask_nothing(lease: Lease)
    requires
        lease.released,
    ensures
        renew_runs(Some(lease), Seq::empty(), Renewed::Lapsed),
        renew_runs(None, Seq::empty(), Renewed::Lapsed),
        release_runs(Some(lease), Seq::empty(), Ok(())),
        release_runs(None, Seq::empty(), Ok(())),
{
}

/// A renewal whose calls do not fail ends lapsed if and only if the heartbeat's
/// answer is missing or leaves no time, and renewed otherwise.
pub proof fn renewals_lapse_only_without_time(lease: Lease, turns: Seq<Turn>, result: Renewed)
    requires
        !lease.released,
        renew_runs(Some(lease), turns, result),
        forall|i: int| 0 <= i < turns.len() ==> !((#[trigger] turns[i]).answer is Failed),
    ensures
        turns.len() >= 3,
        turns[2].call is ReadHeartbeat,
        turns[2].answer is Heartbeat,
        result is Lapsed <==> match turns[2].answer->Heartbeat_0 {
            Some(ttl) => ttl <= 0,
            None => true,
        },
        !(result is Lapsed) ==> result is Until && turns.len() == 4 && turns[3].call is ReadClock,
{
    reveal_with_fuel(runs, 6);
    assert(!(turns[0].answer is Failed));
    assert(turns.drop_first()[0] == turns[1]);
    assert(!(turns[1].answer is Failed));
    assert(turns.drop_first().drop_first()[0] == turns[2]);
    assert(!(turns[2].answer is Failed));
    if turns.len() > 3 {
        assert(turns.drop_first().drop_first().drop_first()[0] == turns[3]);
        assert(!(turns[3].answer is Failed));
    }
}

/// A renewal is taken over as it ended. A renewed lease has the new end and is
/// otherwise as it was; a lapsed one counts as given up and is otherwise as it
/// was; a renewal that failed changes nothing. Its holder is told of the new
/// end, that the lease expired, or of the failure.
pub proof fn renewals_are_taken_over(lease: Lease, expires_at: Seq<char>, fault: Fault)
    ensures
        after_renewal(lease, Renewed::Until(expires_at)) == (Lease {
            id: lease.id,
            lock_key: lease.lock_key,
            expires_at,
            released: lease.released,
        }),
        after_renewal(lease, Renewed::Lapsed) == (Lease {
            id: lease.id,
            lock_key: lease.lock_key,
            expires_at: lease.expires_at,
            released: true,
        }),
        after_renewal(lease, Renewed::Failed(fault)) == lease,
        renewal_report(Renewed::Until(expires_at)) == Ok::<Seq<char>, Fault>(expires_at),
        renewal_report(Renewed::Lapsed) == Err::<Seq<char>, Fault>(Fault::LeaseExpired),
        renewal_report(Renewed::Failed(fault)) == Err::<Seq<char>, Fault>(fault),
{
}

/// A lease is kept up for as long as it is held and can be renewed: after each
/// wait it is renewed if and only if its holder still has it and did not give it
/// up; after a renewal the next wait begins, which lasts as long as the first, if
/// and only if the lease was renewed, and one that lapsed or could not be renewed
/// is left alone from then on.
pub proof fn leases_are_kept_up_while_they_are_held(
    lease: Lease,
    renewed: Renewed,
    interval: TimeSpan,
)
    ensures
        upkeep_due(Some(lease)) is Renew <==> !lease.released,
        upkeep_due(Some(lease)) is Stop <==> lease.released,
        upkeep_due(None) is Stop,
        upkeep_after(renewal_report(renewed), interval) is Stop <==> !(renewed is Until),
        renewed is Until ==> upkeep_after(renewal_report(renewed), interval) == (Upkeep::Wait {
            span: interval,
        }),
        renewed is Lapsed ==> upkeep_due(Some(after_renewal(lease, renewed))) is Stop,
        upkeep_due(Some(lease)) is Renew && renewed is Until ==> upkeep_due(
            Some(after_renewal(lease, renewed)),
        ) is Renew,
{
}

/// A time to live is given in milliseconds, and is never shorter than one.
pub proof fn times_to_live_last_a_millisecond(ttl_ms: u64)
    ensures
        ttl_nanos(ttl_ms) >= 1_000_000,
        ttl_ms > 0 ==> ttl_nanos(ttl_ms) == ttl_ms * 1_000_000,
        ttl_ms == 0 ==> ttl_nanos(ttl_ms) == 1_000_000,
{
}

// ---------------------------------------------------------------------------
// release
// ---------------------------------------------------------------------------

/// Whether giving up runs through `turns` to `result`.
pub open spec fn release_runs(
    lease: Option<Lease>,
    turns: Seq<Turn>,
    result: Result<(), Fault>,
) -> bool {
    runs(
        |s: Releasing, a: Answer| release_next(s),
        |s: Releasing, a: Answer| fits(Kind::Done, a),
        release_first(lease),
        turns,
        result,
    )
}

/// Giving up stops the renewal, gives the key up and revokes the lease, in this
/// order, and succeeds whatever comes of these calls.
pub proof fn giving_up_runs(lease: Lease, stopped: Answer, unlocked: Answer, revoked: Answer)
    requires
        !lease.released,
        is_done_or_failed(stopped),
        is_done_or_failed(unlocked),
        is_done_or_failed(revoked),
    ensures
        release_runs(
            Some(lease),
            seq![
                turn(Call::StopRenewal, stopped),
                turn(Call::Unlock(lease.lock_key), unlocked),
                turn(Call::LeaseRevoke(lease.id), revoked),
            ],
            Ok(()),
        ),
{
    reveal_with_fuel(runs, 5);
}

// ---------------------------------------------------------------------------
// tokens and intervals
// ---------------------------------------------------------------------------

/// A fencing token is the lease's id; a negative one counts from the end of the
/// unsigned numbers of 64 bits.
pub proof fn fencing_tokens_are_ids(id: i64)
    ensures
        id >= 0 ==> token(id) == id,
        id < 0 ==> token(id) == 0xffff_ffff_ffff_ffff - (-1 - id),
{
}

/// A renewal comes when the share of the time to live that is not to be left is
/// over, rounded down to the nanosecond; the share is taken between 1 and 99
/// percent, and where nothing would be over, a tenth of a second is. Where the
/// product is more than the longest span, that span is divided.
pub proof fn renewal_intervals_are_shares(ttl: nat, percent_left: u32, share: int)
    requires
        percent_left == 0 ==> share == 99,
        1 <= percent_left <= 99 ==> share == 100 - percent_left,
        percent_left >= 100 ==> share == 1,
    ensures
        100 <= ttl * share <= 0xffff_ffff_ffff_ffff * 1_000_000_000 + 999_999_999
            ==> renewal_nanos(ttl, percent_left) == ttl * share / 100,
        ttl * share < 100 ==> renewal_nanos(ttl, percent_left) == 100_000_000,
        ttl * share > 0xffff_ffff_ffff_ffff * 1_000_000_000 + 999_999_999 ==> renewal_nanos(
            ttl,
            percent_left,
        ) == (0xffff_ffff_ffff_ffff * 1_000_000_000 + 999_999_999) / 100,
{
    assert(ttl * share >= 0) by (nonlinear_arith)
        requires
            ttl >= 0,
            share >= 0,
    ;
}

} // verus!
