//! Gathering a sequence of outcomes into one: the first failure wins,
//! otherwise every success is kept, in order.

use vstd::prelude::*;

verus! {

/// The index of the first failure in a sequence of outcomes.
pub open spec fn first_failure<T, E>(outcomes: Seq<Result<T, E>>) -> Option<int>
    decreases outcomes.len(),
{
    if outcomes.len() == 0 {
        None
    } else {
        match first_failure(outcomes.drop_last()) {
            Some(i) => Some(i),
            None => if outcomes.last() is Err {
                Some(outcomes.len() - 1)
            } else {
                None
            },
        }
    }
}

/// The successes of a sequence of outcomes, in order. Meaningful where no
/// outcome is a failure.
pub open spec fn successes<T, E>(outcomes: Seq<Result<T, E>>) -> Seq<T> {
    Seq::new(outcomes.len(), |i: int| outcomes[i]->Ok_0)
}

/// All successes in order, or the first failure.
pub open spec fn gather<T, E>(outcomes: Seq<Result<T, E>>) -> Result<Seq<T>, E> {
    match first_failure(outcomes) {
        Some(i) => Err(outcomes[i]->Err_0),
        None => Ok(successes(outcomes)),
    }
}

/// `first_failure` names a failure that no failure precedes, and names none
/// only where every outcome is a success.
pub proof fn lemma_first_failure<T, E>(outcomes: Seq<Result<T, E>>)
    ensures
        match first_failure(outcomes) {
            Some(i) => 0 <= i < outcomes.len() && outcomes[i] is Err && forall|j: int|
                0 <= j < i ==> outcomes[j] is Ok,
            None => forall|j: int| 0 <= j < outcomes.len() ==> outcomes[j] is Ok,
        },
    decreases outcomes.len(),
{
    if outcomes.len() > 0 {
        lemma_first_failure(outcomes.drop_last());
        assert forall|j: int| 0 <= j < outcomes.len() - 1 implies outcomes.drop_last()[j]
            == outcomes[j] by {}
    }
}

/// Where the outcome at `i` fails and all before it succeed, gathering
/// yields that failure.
pub proof fn lemma_gather_fails_at<T, E>(outcomes: Seq<Result<T, E>>, i: int)
    requires
        0 <= i < outcomes.len(),
        outcomes[i] is Err,
        forall|j: int| 0 <= j < i ==> outcomes[j] is Ok,
    ensures
        gather(outcomes) == Err::<Seq<T>, E>(outcomes[i]->Err_0),
{
    lemma_first_failure(outcomes);
}

/// Where every outcome succeeds, gathering yields the successes.
pub proof fn lemma_gather_succeeds<T, E>(outcomes: Seq<Result<T, E>>)
    requires
        forall|j: int| 0 <= j < outcomes.len() ==> outcomes[j] is Ok,
    ensures
        gather(outcomes) == Ok::<Seq<T>, E>(successes(outcomes)),
{
    lemma_first_failure(outcomes);
}

/// Threads a state through the items in order: each step takes the state
/// and an item and yields the next state or a failure, and the first
/// failure ends the run.
pub open spec fn fold_outcomes<S, T, E>(
    items: Seq<T>,
    start: S,
    step: spec_fn(S, T) -> Result<S, E>,
) -> Result<S, E>
    decreases items.len(),
{
    if items.len() == 0 {
        Ok(start)
    } else {
        match fold_outcomes(items.drop_last(), start, step) {
            Ok(s) => step(s, items.last()),
            Err(e) => Err(e),
        }
    }
}

/// One more item takes one more step.
pub proof fn lemma_fold_next<S, T, E>(
    items: Seq<T>,
    start: S,
    step: spec_fn(S, T) -> Result<S, E>,
    n: int,
)
    requires
        0 <= n < items.len(),
    ensures
        fold_outcomes(items.take(n + 1), start, step) == match fold_outcomes(
            items.take(n),
            start,
            step,
        ) {
            Ok(s) => step(s, items[n]),
            Err(e) => Err(e),
        },
{
    assert(items.take(n + 1).drop_last() =~= items.take(n));
}

/// A failure on a prefix is the failure of the whole run.
pub proof fn lemma_fold_failure_stays<S, T, E>(
    items: Seq<T>,
    start: S,
    step: spec_fn(S, T) -> Result<S, E>,
    n: int,
)
    requires
        0 <= n <= items.len(),
        fold_outcomes(items.take(n), start, step) is Err,
    ensures
        fold_outcomes(items, start, step) == fold_outcomes(items.take(n), start, step),
    decreases items.len() - n,
{
    if n < items.len() {
        lemma_fold_next(items, start, step, n);
        lemma_fold_failure_stays(items, start, step, n + 1);
    } else {
        assert(items.take(n) =~= items);
    }
}

/// The run over the whole prefix is the run over the items.
pub proof fn lemma_fold_whole<S, T, E>(
    items: Seq<T>,
    start: S,
    step: spec_fn(S, T) -> Result<S, E>,
)
    ensures
        fold_outcomes(items.take(items.len() as int), start, step) == fold_outcomes(
            items,
            start,
            step,
        ),
{
    assert(items.take(items.len() as int) =~= items);
}

} // verus!
