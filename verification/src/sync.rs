//! The synchroniser: what replaying a change event asks of the target
//! store, and how events are gathered into batches.

use vstd::prelude::*;
use vstd::string::*;
use crate::change::{ChangeEvent, ChangeEventView, OperationType};
use crate::document::{Document, DocumentView};

verus! {

/// What replaying one change event asks of the target store.
#[derive(Debug)]
pub enum ReplayAction {
    /// Store the document under the identifier, whether or not one is
    /// there already.
    Upsert { collection: String, document_id: String, document: Document },
    /// Remove the document under the identifier if there is one.
    DeleteIfPresent { collection: String, document_id: String },
}

/// The mathematical form of a [`ReplayAction`].
pub enum ReplayActionView {
    Upsert { collection: Seq<char>, document_id: Seq<char>, document: DocumentView },
    DeleteIfPresent { collection: Seq<char>, document_id: Seq<char> },
}

impl View for ReplayAction {
    type V = ReplayActionView;

    open spec fn view(&self) -> ReplayActionView {
        match self {
            ReplayAction::Upsert { collection, document_id, document } => ReplayActionView::Upsert {
                collection: collection@,
                document_id: document_id@,
                document: document@,
            },
            ReplayAction::DeleteIfPresent { collection, document_id } => {
                ReplayActionView::DeleteIfPresent {
                    collection: collection@,
                    document_id: document_id@,
                }
            },
        }
    }
}

/// The views of a sequence of change events, in order.
pub open spec fn events_view(items: Seq<ChangeEvent>) -> Seq<ChangeEventView> {
    Seq::new(items.len(), |i: int| items[i]@)
}

/// The views of a sequence of replay actions, in order.
pub open spec fn actions_view(items: Seq<ReplayAction>) -> Seq<ReplayActionView> {
    Seq::new(items.len(), |i: int| items[i]@)
}

/// What replaying an event asks of the target: an insert and an update
/// both store the event's document under its identifier, a delete removes
/// what is stored there.
pub open spec fn replay_spec(event: ChangeEventView) -> ReplayActionView {
    match event.operation_type {
        OperationType::Delete => ReplayActionView::DeleteIfPresent {
            collection: event.collection,
            document_id: event.document_id,
        },
        _ => ReplayActionView::Upsert {
            collection: event.collection,
            document_id: event.document_id,
            document: event.data,
        },
    }
}

/// What replaying a batch asks of the target: the action of each event, in
/// the order of arrival.
pub open spec fn batch_spec(events: Seq<ChangeEventView>) -> Seq<ReplayActionView> {
    Seq::new(events.len(), |i: int| replay_spec(events[i]))
}

/// The documents of a target store, by collection and identifier.
pub type TargetView = Map<(Seq<char>, Seq<char>), DocumentView>;

/// The target after one action.
pub open spec fn apply_action(target: TargetView, action: ReplayActionView) -> TargetView {
    match action {
        ReplayActionView::Upsert { collection, document_id, document } => target.insert(
            (collection, document_id),
            document,
        ),
        ReplayActionView::DeleteIfPresent { collection, document_id } => target.remove(
            (collection, document_id),
        ),
    }
}

/// The target after a sequence of actions, applied in order.
pub open spec fn apply_actions(target: TargetView, actions: Seq<ReplayActionView>) -> TargetView
    decreases actions.len(),
{
    if actions.len() == 0 {
        target
    } else {
        apply_action(apply_actions(target, actions.drop_last()), actions.last())
    }
}

/// Computes what replaying one event asks of the target.
pub fn replay_action(event: &ChangeEvent) -> (r: ReplayAction)
    ensures
        r@ == replay_spec(event@),
{
    match event.operation_type {
        OperationType::Delete => ReplayAction::DeleteIfPresent {
            collection: event.collection.clone(),
            document_id: event.document_id.clone(),
        },
        _ => ReplayAction::Upsert {
            collection: event.collection.clone(),
            document_id: event.document_id.clone(),
            document: event.data.duplicate(),
        },
    }
}

/// Computes what replaying a batch asks of the target, event by event in
/// the order of arrival.
pub fn sync_batch(changes: &Vec<ChangeEvent>) -> (r: Vec<ReplayAction>)
    ensures
        actions_view(r@) == batch_spec(events_view(changes@)),
{
    let mut out: Vec<ReplayAction> = Vec::new();
    let mut i: usize = 0;
    while i < changes.len()
        invariant
            i <= changes.len(),
            out@.len() == i,
            forall|j: int| 0 <= j < i ==> (#[trigger] out@[j])@ == replay_spec(changes@[j]@),
        decreases changes.len() - i,
    {
        out.push(replay_action(&changes[i]));
        i = i + 1;
    }
    proof {
        assert(actions_view(out@) =~= batch_spec(events_view(changes@)));
    }
    out
}

/// Replaying an action a second time changes nothing.
pub proof fn lemma_action_idempotent(target: TargetView, action: ReplayActionView)
    ensures
        apply_action(apply_action(target, action), action) == apply_action(target, action),
{
    assert(apply_action(apply_action(target, action), action) =~= apply_action(target, action));
}

/// Replaying the same event twice leaves the target as replaying it once
/// does, whatever the kind of the event.
pub proof fn lemma_replay_idempotent(target: TargetView, event: ChangeEventView)
    ensures
        apply_action(apply_action(target, replay_spec(event)), replay_spec(event)) == apply_action(
            target,
            replay_spec(event),
        ),
{
    lemma_action_idempotent(target, replay_spec(event));
}

/// The collection and identifier that an action is about.
pub open spec fn action_key(action: ReplayActionView) -> (Seq<char>, Seq<char>) {
    match action {
        ReplayActionView::Upsert { collection, document_id, document } => (collection, document_id),
        ReplayActionView::DeleteIfPresent { collection, document_id } => (collection, document_id),
    }
}

/// The index of the last action that is about `key`, if there is one.
pub open spec fn last_about(actions: Seq<ReplayActionView>, key: (Seq<char>, Seq<char>)) -> Option<
    int,
>
    decreases actions.len(),
{
    if actions.len() == 0 {
        None
    } else if action_key(actions.last()) == key {
        Some(actions.len() - 1)
    } else {
        last_about(actions.drop_last(), key)
    }
}

/// What the target holds under `key` after the actions: what the last
/// action about the key left there, or what was there before where no
/// action is about it.
pub open spec fn settled(
    target: TargetView,
    actions: Seq<ReplayActionView>,
    key: (Seq<char>, Seq<char>),
) -> Option<DocumentView> {
    match last_about(actions, key) {
        Some(i) => match actions[i] {
            ReplayActionView::Upsert { collection, document_id, document } => Some(document),
            ReplayActionView::DeleteIfPresent { collection, document_id } => None,
        },
        None => if target.dom().contains(key) {
            Some(target[key])
        } else {
            None
        },
    }
}

/// After a sequence of actions the target holds under every key what
/// [`settled`] says.
pub proof fn lemma_apply_actions_settles(
    target: TargetView,
    actions: Seq<ReplayActionView>,
    key: (Seq<char>, Seq<char>),
)
    ensures
        apply_actions(target, actions).dom().contains(key) <==> settled(target, actions, key)
            is Some,
        settled(target, actions, key) matches Some(d) ==> apply_actions(target, actions)[key] == d,
    decreases actions.len(),
{
    if actions.len() > 0 {
        lemma_apply_actions_settles(target, actions.drop_last(), key);
        if action_key(actions.last()) != key {
            match last_about(actions.drop_last(), key) {
                Some(i) => {
                    lemma_last_about_in_range(actions.drop_last(), key);
                    assert(actions.drop_last()[i] == actions[i]);
                },
                None => {},
            }
        }
    }
}

/// `last_about` names an index inside the sequence.
pub proof fn lemma_last_about_in_range(
    actions: Seq<ReplayActionView>,
    key: (Seq<char>, Seq<char>),
)
    ensures
        last_about(actions, key) matches Some(i) ==> 0 <= i < actions.len() && action_key(
            actions[i],
        ) == key,
    decreases actions.len(),
{
    if actions.len() > 0 && action_key(actions.last()) != key {
        lemma_last_about_in_range(actions.drop_last(), key);
        match last_about(actions.drop_last(), key) {
            Some(i) => {
                assert(actions.drop_last()[i] == actions[i]);
            },
            None => {},
        }
    }
}

/// Replaying a whole batch a second time, as a retry after a failure that
/// came late does, leaves the target as replaying it once does.
pub proof fn lemma_batch_idempotent(target: TargetView, events: Seq<ChangeEventView>)
    ensures
        apply_actions(apply_actions(target, batch_spec(events)), batch_spec(events))
            == apply_actions(target, batch_spec(events)),
{
    let actions = batch_spec(events);
    let once = apply_actions(target, actions);
    let twice = apply_actions(once, actions);
    assert forall|key: (Seq<char>, Seq<char>)| #[trigger]
        twice.dom().contains(key) == once.dom().contains(key) by {
        lemma_apply_actions_settles(target, actions, key);
        lemma_apply_actions_settles(once, actions, key);
    }
    assert forall|key: (Seq<char>, Seq<char>)| #[trigger]
        once.dom().contains(key) implies twice[key] == once[key] by {
        lemma_apply_actions_settles(target, actions, key);
        lemma_apply_actions_settles(once, actions, key);
    }
    assert(twice.dom() =~= once.dom());
    assert(twice =~= once);
}

/// The batcher of one watched collection: the events that wait for replay
/// and the limits that close a batch.
#[derive(Debug)]
pub struct SynchronizationModule {
    /// The number of events that closes a batch.
    pub batch_size: usize,
    /// The longest time, in milliseconds, that an event waits in an open
    /// batch.
    pub sync_interval: u64,
    /// The events of the open batch, in the order of arrival.
    pub pending: Vec<ChangeEvent>,
    /// When the first event of the open batch arrived, in milliseconds.
    pub opened_at: u64,
}

/// The mathematical form of a [`SynchronizationModule`].
pub struct BatcherView {
    pub batch_size: nat,
    pub sync_interval: nat,
    pub pending: Seq<ChangeEventView>,
    pub opened_at: nat,
}

impl View for SynchronizationModule {
    type V = BatcherView;

    open spec fn view(&self) -> BatcherView {
        BatcherView {
            batch_size: self.batch_size as nat,
            sync_interval: self.sync_interval as nat,
            pending: events_view(self.pending@),
            opened_at: self.opened_at as nat,
        }
    }
}

/// Whether an open batch of `count` events must be closed at the time
/// `now`: it is not empty, and it is full or its first event has waited
/// long enough.
pub open spec fn batch_due(count: nat, b: BatcherView, opened_at: nat, now: nat) -> bool {
    count > 0 && (count >= b.batch_size || (now >= opened_at && now - opened_at
        >= b.sync_interval))
}

/// The batcher after one event arrived at the time `now`, and the batch
/// that this closed, if any. The event joins the open batch, which dates
/// from its first event; if the batch is then due it is closed with all
/// its events in the order of arrival.
pub open spec fn take_in(b: BatcherView, event: ChangeEventView, now: nat) -> (
    BatcherView,
    Option<Seq<ChangeEventView>>,
) {
    let opened = if b.pending.len() == 0 {
        now
    } else {
        b.opened_at
    };
    let all = b.pending.push(event);
    if batch_due(all.len(), b, opened, now) {
        (BatcherView { pending: Seq::empty(), opened_at: opened, ..b }, Some(all))
    } else {
        (BatcherView { pending: all, opened_at: opened, ..b }, None)
    }
}

/// The batcher after it was told the time, and the batch that this
/// closed, if any.
pub open spec fn tick_spec(b: BatcherView, now: nat) -> (BatcherView, Option<Seq<ChangeEventView>>) {
    if batch_due(b.pending.len(), b, b.opened_at, now) {
        (BatcherView { pending: Seq::empty(), ..b }, Some(b.pending))
    } else {
        (b, None)
    }
}

/// The batcher after the feed ended, and the last batch, if any event was
/// waiting.
pub open spec fn close_spec(b: BatcherView) -> (BatcherView, Option<Seq<ChangeEventView>>) {
    if b.pending.len() > 0 {
        (BatcherView { pending: Seq::empty(), ..b }, Some(b.pending))
    } else {
        (b, None)
    }
}

/// A batch that was closed, as mathematical values.
pub open spec fn batch_option(r: Option<Vec<ChangeEvent>>) -> Option<Seq<ChangeEventView>> {
    match r {
        Some(batch) => Some(events_view(batch@)),
        None => None,
    }
}

impl SynchronizationModule {
    /// A batcher with no event waiting.
    pub fn new(batch_size: usize, sync_interval: u64) -> (r: SynchronizationModule)
        ensures
            r@ == (BatcherView {
                batch_size: batch_size as nat,
                sync_interval: sync_interval as nat,
                pending: Seq::empty(),
                opened_at: 0,
            }),
    {
        let r = SynchronizationModule {
            batch_size,
            sync_interval,
            pending: Vec::new(),
            opened_at: 0,
        };
        proof {
            assert(r@.pending =~= Seq::<ChangeEventView>::empty());
        }
        r
    }

    /// Closes the open batch and hands it out.
    fn flush(&mut self) -> (r: Vec<ChangeEvent>)
        ensures
            events_view(r@) == old(self)@.pending,
            final(self)@ == (BatcherView { pending: Seq::empty(), ..old(self)@ }),
    {
        let mut batch: Vec<ChangeEvent> = Vec::new();
        batch.append(&mut self.pending);
        proof {
            assert(batch@ =~= old(self).pending@);
            assert(self@.pending =~= Seq::<ChangeEventView>::empty());
        }
        batch
    }

    /// Takes in one change event that arrived at the time `now`.
    ///
    /// The event joins the open batch. If the batch is then due, it is
    /// closed and handed out, its events in the order of arrival;
    /// otherwise it stays open.
    pub fn process_change(&mut self, change: ChangeEvent, now: u64) -> (r: Option<
        Vec<ChangeEvent>,
    >)
        ensures
            (final(self)@, batch_option(r)) == take_in(old(self)@, change@, now as nat),
    {
        if self.pending.len() == 0 {
            self.opened_at = now;
        }
        proof {
            assert(events_view(self.pending@.push(change)) =~= events_view(self.pending@).push(
                change@,
            ));
        }
        self.pending.push(change);
        if self.pending.len() >= self.batch_size || (now >= self.opened_at && now - self.opened_at
            >= self.sync_interval) {
            Some(self.flush())
        } else {
            None
        }
    }

    /// Lets the batcher know the time. An open batch that is due is closed
    /// and handed out.
    pub fn tick(&mut self, now: u64) -> (r: Option<Vec<ChangeEvent>>)
        ensures
            (final(self)@, batch_option(r)) == tick_spec(old(self)@, now as nat),
    {
        if self.pending.len() > 0 && (self.pending.len() >= self.batch_size || (now
            >= self.opened_at && now - self.opened_at >= self.sync_interval)) {
            Some(self.flush())
        } else {
            None
        }
    }

    /// Ends the feed: what waits in the open batch is handed out as a last
    /// batch.
    pub fn close(&mut self) -> (r: Option<Vec<ChangeEvent>>)
        ensures
            (final(self)@, batch_option(r)) == close_spec(old(self)@),
    {
        if self.pending.len() > 0 {
            Some(self.flush())
        } else {
            None
        }
    }
}

} // verus!
