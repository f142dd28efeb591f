//! Items that a command goes through one after the other.

use vstd::prelude::*;

verus! {

/// Whether one step after the other can lead through the worlds, with these
/// answers. `step` says of the number of an item whether it can lead from one
/// world to the next with an answer.
pub open spec fn in_turn<W, A>(
    step: spec_fn(int, W, W, A) -> bool,
    worlds: Seq<W>,
    answers: Seq<A>,
) -> bool {
    &&& worlds.len() == answers.len() + 1
    &&& forall|i: int|
        0 <= i < answers.len() ==> step(i, worlds[i], worlds[i + 1], #[trigger] answers[i])
}

/// A step from where the others led is one more of them.
pub proof fn lemma_one_more<W, A>(
    step: spec_fn(int, W, W, A) -> bool,
    worlds: Seq<W>,
    answers: Seq<A>,
    next: W,
    answer: A,
)
    requires
        in_turn(step, worlds, answers),
        step(answers.len() as int, worlds.last(), next, answer),
    ensures
        in_turn(step, worlds.push(next), answers.push(answer)),
{
    assert forall|i: int| 0 <= i < answers.push(answer).len() implies step(
        i,
        worlds.push(next)[i],
        worlds.push(next)[i + 1],
        #[trigger] answers.push(answer)[i],
    ) by {
        if i < answers.len() {
            assert(step(i, worlds[i], worlds[i + 1], answers[i]));
        }
    }
}

} // verus!
