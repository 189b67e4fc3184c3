//! Runs of operations: what is asked for, turn by turn, and what comes of it.
use vstd::prelude::*;

use crate::protocol::{Answer, Call, Next};

verus! {

/// One call and its answer.
pub struct Turn {
    pub call: Call,
    pub answer: Answer,
}

/// One turn.
pub open spec fn turn(call: Call, answer: Answer) -> Turn {
    Turn { call, answer }
}

/// Whether an operation that is at `at` asks for exactly the calls of `turns`,
/// accepts each of the answers and then ends with `result`.
pub open spec fn runs<S, R>(
    step: spec_fn(S, Answer) -> Next<S, R>,
    accepts: spec_fn(S, Answer) -> bool,
    at: Next<S, R>,
    turns: Seq<Turn>,
    result: R,
) -> bool
    decreases turns.len(),
{
    match at {
        Next::Finished(r) => turns.len() == 0 && r == result,
        Next::Ask(call, state) => {
            &&& turns.len() > 0
            &&& turns[0].call == call
            &&& accepts(state, turns[0].answer)
            &&& runs(step, accepts, step(state, turns[0].answer), turns.drop_first(), result)
        },
    }
}

/// A run begins with its first turn.
pub proof fn run_begins<S, R>(
    step: spec_fn(S, Answer) -> Next<S, R>,
    accepts: spec_fn(S, Answer) -> bool,
    call: Call,
    state: S,
    answer: Answer,
    turns: Seq<Turn>,
    result: R,
)
    requires
        accepts(state, answer),
        runs(step, accepts, step(state, answer), turns, result),
    ensures
        runs(
            step,
            accepts,
            Next::Ask(call, state),
            seq![turn(call, answer)] + turns,
            result,
        ),
{
    let all = seq![turn(call, answer)] + turns;
    assert(all[0] == turn(call, answer));
    assert(all.drop_first() =~= turns);
}

/// Turns can be grouped in any way.
pub proof fn turns_can_be_grouped(a: Seq<Turn>, b: Seq<Turn>, c: Seq<Turn>)
    ensures
        (a + b) + c == a + (b + c),
{
    assert((a + b) + c =~= a + (b + c));
}

/// What comes first is the last in reverse.
pub proof fn first_is_last_in_reverse<T>(list: Seq<T>, more: Seq<T>)
    requires
        list.len() > 0,
    ensures
        (list + more).reverse() == (list.drop_first() + more).reverse().push(list[0]),
{
    assert((list + more).reverse() =~= (list.drop_first() + more).reverse().push(list[0]));
}

/// An operation has one run for the same answers: what it asks for and what it
/// ends with are fixed by them.
pub proof fn runs_are_determined<S, R>(
    step: spec_fn(S, Answer) -> Next<S, R>,
    accepts: spec_fn(S, Answer) -> bool,
    at: Next<S, R>,
    turns: Seq<Turn>,
    result: R,
    other_turns: Seq<Turn>,
    other_result: R,
)
    requires
        runs(step, accepts, at, turns, result),
        runs(step, accepts, at, other_turns, other_result),
        forall|i: int|
            0 <= i < turns.len() && i < other_turns.len() ==> (#[trigger] turns[i]).answer == (
            #[trigger] other_turns[i]).answer,
    ensures
        turns == other_turns,
        result == other_result,
    decreases turns.len(),
{
    match at {
        Next::Finished(_) => {
            assert(turns =~= other_turns);
        },
        Next::Ask(_, state) => {
            let (rest, other_rest) = (turns.drop_first(), other_turns.drop_first());
            assert(turns[0].answer == other_turns[0].answer);
            assert forall|i: int|
                0 <= i < rest.len() && i < other_rest.len() implies (#[trigger] rest[i]).answer == (
            #[trigger] other_rest[i]).answer by {
                assert(rest[i] == turns[i + 1] && other_rest[i] == other_turns[i + 1]);
            }
            runs_are_determined(
                step,
                accepts,
                step(state, turns[0].answer),
                rest,
                result,
                other_rest,
                other_result,
            );
            assert(turns =~= seq![turns[0]] + rest);
            assert(other_turns =~= seq![other_turns[0]] + other_rest);
        },
    }
}

} // verus!
