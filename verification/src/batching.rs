//! What the batcher guarantees over a whole feed: no event is lost or
//! reordered, and without a timeout every closed batch is full.

use vstd::prelude::*;
use crate::change::ChangeEventView;
use crate::sync::{BatcherView, close_spec, take_in};

verus! {

/// The batcher after the arrivals, each an event with the time it came
/// at, and the batches that were closed on the way, in order.
pub open spec fn feed(b: BatcherView, arrivals: Seq<(ChangeEventView, nat)>) -> (
    BatcherView,
    Seq<Seq<ChangeEventView>>,
)
    decreases arrivals.len(),
{
    if arrivals.len() == 0 {
        (b, Seq::empty())
    } else {
        let before = feed(b, arrivals.drop_last());
        let after = take_in(before.0, arrivals.last().0, arrivals.last().1);
        (
            after.0,
            match after.1 {
                Some(batch) => before.1.push(batch),
                None => before.1,
            },
        )
    }
}

/// The events of the arrivals, in order.
pub open spec fn arrived(arrivals: Seq<(ChangeEventView, nat)>) -> Seq<ChangeEventView> {
    Seq::new(arrivals.len(), |i: int| arrivals[i].0)
}

/// The events of the batches, one batch after the other.
pub open spec fn chained(batches: Seq<Seq<ChangeEventView>>) -> Seq<ChangeEventView>
    decreases batches.len(),
{
    if batches.len() == 0 {
        Seq::empty()
    } else {
        chained(batches.drop_last()) + batches.last()
    }
}

/// Chaining one more batch appends its events.
proof fn lemma_chained_push(batches: Seq<Seq<ChangeEventView>>, batch: Seq<ChangeEventView>)
    ensures
        chained(batches.push(batch)) == chained(batches) + batch,
{
    assert(batches.push(batch).drop_last() =~= batches);
}

/// No event is lost, repeated or reordered: the closed batches one after
/// the other, followed by what still waits, are what waited before
/// followed by the events in the order they arrived.
pub proof fn lemma_feed_keeps_order(b: BatcherView, arrivals: Seq<(ChangeEventView, nat)>)
    ensures
        chained(feed(b, arrivals).1) + feed(b, arrivals).0.pending == b.pending + arrived(
            arrivals,
        ),
    decreases arrivals.len(),
{
    if arrivals.len() == 0 {
        assert(chained(feed(b, arrivals).1) + feed(b, arrivals).0.pending =~= b.pending + arrived(
            arrivals,
        ));
    } else {
        let rest = arrivals.drop_last();
        lemma_feed_keeps_order(b, rest);
        let before = feed(b, rest);
        let after = take_in(before.0, arrivals.last().0, arrivals.last().1);
        assert(arrived(arrivals) =~= arrived(rest).push(arrivals.last().0));
        match after.1 {
            Some(batch) => {
                lemma_chained_push(before.1, batch);
                assert(chained(before.1) + batch + after.0.pending =~= (chained(before.1)
                    + before.0.pending).push(arrivals.last().0));
            },
            None => {
                assert(chained(before.1) + after.0.pending =~= (chained(before.1)
                    + before.0.pending).push(arrivals.last().0));
            },
        }
        assert((b.pending + arrived(rest)).push(arrivals.last().0) =~= b.pending + arrived(
            arrivals,
        ));
    }
}

/// Feeding keeps the limits of the batcher.
pub proof fn lemma_feed_keeps_limits(b: BatcherView, arrivals: Seq<(ChangeEventView, nat)>)
    ensures
        feed(b, arrivals).0.batch_size == b.batch_size,
        feed(b, arrivals).0.sync_interval == b.sync_interval,
    decreases arrivals.len(),
{
    if arrivals.len() > 0 {
        lemma_feed_keeps_limits(b, arrivals.drop_last());
    }
}

/// How long the first event of the batch that an arrival joins has waited
/// when the arrival comes at the time `now`: no time where the arrival
/// opens the batch itself or the clock went back.
pub open spec fn waited(b: BatcherView, now: nat) -> nat {
    if b.pending.len() == 0 || now < b.opened_at {
        0
    } else {
        (now - b.opened_at) as nat
    }
}

/// Whether no timeout fires during the arrivals: whenever an event
/// arrives, the first event of the batch it joins has waited less than
/// the longest wait.
pub open spec fn no_timeout(b: BatcherView, arrivals: Seq<(ChangeEventView, nat)>) -> bool
    decreases arrivals.len(),
{
    if arrivals.len() == 0 {
        true
    } else {
        no_timeout(b, arrivals.drop_last()) && waited(
            feed(b, arrivals.drop_last()).0,
            arrivals.last().1,
        ) < b.sync_interval
    }
}

/// Where no timeout fires, every batch is closed by its size alone:
/// starting with nothing waiting, every closed batch holds exactly as many
/// events as the limit says, fewer than that wait at the end, and the two
/// account for every arrival.
pub proof fn lemma_feed_fills_batches(b: BatcherView, arrivals: Seq<(ChangeEventView, nat)>)
    requires
        b.batch_size >= 1,
        b.pending.len() == 0,
        no_timeout(b, arrivals),
    ensures
        forall|k: int|
            0 <= k < feed(b, arrivals).1.len() ==> (#[trigger] feed(b, arrivals).1[k]).len()
                == b.batch_size,
        feed(b, arrivals).0.pending.len() < b.batch_size,
        feed(b, arrivals).1.len() * b.batch_size + feed(b, arrivals).0.pending.len()
            == arrivals.len(),
    decreases arrivals.len(),
{
    if arrivals.len() > 0 {
        let rest = arrivals.drop_last();
        lemma_feed_fills_batches(b, rest);
        lemma_feed_keeps_limits(b, rest);
        let before = feed(b, rest);
        let after = take_in(before.0, arrivals.last().0, arrivals.last().1);
        let size = b.batch_size;
        let closed = before.1.len();
        assert((closed + 1) * size == closed * size + size) by (nonlinear_arith);
        match after.1 {
            Some(batch) => {
                assert(batch.len() == size);
                assert forall|k: int| 0 <= k < before.1.push(batch).len() implies (
                #[trigger] before.1.push(batch)[k]).len() == size by {
                    if k < before.1.len() {
                        assert(before.1.push(batch)[k] == before.1[k]);
                    }
                }
            },
            None => {},
        }
    }
}

/// After such a feed, ending it hands out what waits as one last batch,
/// smaller than the limit, or nothing where every batch was full.
pub proof fn lemma_close_hands_out_the_rest(b: BatcherView, arrivals: Seq<(ChangeEventView, nat)>)
    requires
        b.batch_size >= 1,
        b.pending.len() == 0,
        no_timeout(b, arrivals),
    ensures
        ({
            let last = close_spec(feed(b, arrivals).0);
            &&& last.0.pending.len() == 0
            &&& match last.1 {
                Some(batch) => 0 < batch.len() < b.batch_size && feed(b, arrivals).1.len()
                    * b.batch_size + batch.len() == arrivals.len(),
                None => feed(b, arrivals).1.len() * b.batch_size == arrivals.len(),
            }
        }),
{
    lemma_feed_fills_batches(b, arrivals);
}

/// Arrivals that all come within less than the longest wait of one
/// another meet the condition: where the clock readings lie between
/// `from` and `from` plus the longest wait, whatever `from` is, no
/// timeout fires.
pub proof fn lemma_close_arrivals_have_no_timeout(
    b: BatcherView,
    arrivals: Seq<(ChangeEventView, nat)>,
    from: nat,
)
    requires
        b.pending.len() == 0,
        b.sync_interval > 0,
        forall|i: int|
            0 <= i < arrivals.len() ==> from <= (#[trigger] arrivals[i]).1 < from
                + b.sync_interval,
    ensures
        no_timeout(b, arrivals),
        feed(b, arrivals).0.pending.len() > 0 ==> from <= feed(b, arrivals).0.opened_at,
    decreases arrivals.len(),
{
    if arrivals.len() > 0 {
        let rest = arrivals.drop_last();
        assert forall|i: int| 0 <= i < rest.len() implies from <= (#[trigger] rest[i]).1 < from
            + b.sync_interval by {
            assert(rest[i] == arrivals[i]);
        }
        lemma_close_arrivals_have_no_timeout(b, rest, from);
        lemma_feed_keeps_limits(b, rest);
        assert(arrivals.last() == arrivals[arrivals.len() - 1]);
    }
}

} // verus!
