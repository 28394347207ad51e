//! Transactions: their status, the passes of a compensating two-phase
//! commit over their operations, and the rules by which a transaction
//! moves on.

use vstd::prelude::*;
use crate::change::OperationType;
use crate::document::{Document, DocumentView};
use crate::error::TransactionError;

verus! {

/// The status of a transaction.
#[derive(Clone, Copy, Debug, PartialEq, Eq, Structural)]
pub enum TransactionStatus {
    Started,
    Prepared,
    Committed,
    RolledBack,
    Failed,
}

/// The pass over the operations that is under way.
#[derive(Clone, Copy, Debug, PartialEq, Eq, Structural)]
pub enum Pass {
    /// No call is outstanding.
    Idle,
    /// The operations are being staged, in the order of enlistment.
    Preparing,
    /// The staged operations are being applied, in the order of enlistment.
    Applying,
    /// The staged operations are being undone, the last one first.
    Undoing,
}

/// The call that the driver must make next. The number is the position of
/// the operation in the order of enlistment.
#[derive(Clone, Copy, Debug, PartialEq, Eq, Structural)]
pub enum Step {
    /// Stage the operation in its store.
    Prepare(usize),
    /// Apply the staged operation.
    Apply(usize),
    /// Undo the staged operation.
    Abort(usize),
    /// Nothing: no pass is under way.
    Done,
}

/// One write of a transaction.
#[derive(Debug)]
pub struct TransactionOperation {
    /// The store that the write goes to.
    pub database: String,
    /// The collection or container.
    pub collection: String,
    pub operation_type: OperationType,
    pub document: Document,
}

/// The mathematical form of a [`TransactionOperation`].
pub struct OperationView {
    pub database: Seq<char>,
    pub collection: Seq<char>,
    pub operation_type: OperationType,
    pub document: DocumentView,
}

impl View for TransactionOperation {
    type V = OperationView;

    open spec fn view(&self) -> OperationView {
        OperationView {
            database: self.database@,
            collection: self.collection@,
            operation_type: self.operation_type,
            document: self.document@,
        }
    }
}

/// How far a transaction has come: its status, the pass under way and the
/// calls that have been answered.
pub struct Progress {
    pub status: TransactionStatus,
    pub pass: Pass,
    /// The number of enlisted operations.
    pub operations: nat,
    /// The number of operations that were staged.
    pub prepares: nat,
    /// The number of operations that were applied.
    pub applied: nat,
    /// The number of staged operations that received an undo call.
    pub aborts: nat,
    /// The failure to report, if any.
    pub failure: Option<TransactionError>,
}

/// The record of one transaction.
#[derive(Debug)]
pub struct TransactionState {
    pub id: String,
    pub status: TransactionStatus,
    pub operations: Vec<TransactionOperation>,
    /// When the transaction began, in milliseconds.
    pub start_time: u64,
    /// The stores that the operations go to, each once.
    pub participants: Vec<String>,
    pub pass: Pass,
    pub prepares: usize,
    pub applied: usize,
    pub aborts: usize,
    pub failure: Option<TransactionError>,
}

/// The mathematical form of a [`TransactionState`].
pub struct RecordView {
    pub id: Seq<char>,
    pub operations: Seq<OperationView>,
    pub start_time: nat,
    pub participants: Seq<Seq<char>>,
    pub progress: Progress,
}

/// The views of a sequence of operations, in order.
pub open spec fn operations_view(items: Seq<TransactionOperation>) -> Seq<OperationView> {
    Seq::new(items.len(), |i: int| items[i]@)
}

/// The views of a sequence of names, in order.
pub open spec fn names_view(items: Seq<String>) -> Seq<Seq<char>> {
    Seq::new(items.len(), |i: int| items[i]@)
}

impl View for TransactionState {
    type V = RecordView;

    open spec fn view(&self) -> RecordView {
        RecordView {
            id: self.id@,
            operations: operations_view(self.operations@),
            start_time: self.start_time as nat,
            participants: names_view(self.participants@),
            progress: Progress {
                status: self.status,
                pass: self.pass,
                operations: self.operations@.len(),
                prepares: self.prepares as nat,
                applied: self.applied as nat,
                aborts: self.aborts as nat,
                failure: self.failure,
            },
        }
    }
}

/// Whether a status is final.
pub open spec fn is_terminal(status: TransactionStatus) -> bool {
    status == TransactionStatus::Committed || status == TransactionStatus::RolledBack
}

/// Whether the numbers of a progress fit together.
pub open spec fn progress_wf(p: Progress) -> bool {
    &&& p.prepares <= p.operations
    &&& p.applied <= p.operations
    &&& p.aborts <= p.prepares
    &&& (p.applied > 0 ==> p.prepares == p.operations)
    &&& (is_terminal(p.status) ==> p.pass == Pass::Idle)
    &&& (p.status == TransactionStatus::Started && p.pass == Pass::Idle ==> p.prepares == 0
        && p.applied == 0 && p.aborts == 0 && p.failure is None)
    &&& (p.status == TransactionStatus::RolledBack ==> p.aborts == p.prepares)
    &&& match p.pass {
        Pass::Idle => true,
        Pass::Preparing => p.status == TransactionStatus::Started && p.prepares < p.operations
            && p.applied == 0 && p.aborts == 0 && p.failure is None,
        Pass::Applying => p.status == TransactionStatus::Prepared && p.prepares == p.operations
            && p.applied < p.operations && p.aborts == 0 && p.failure is None,
        Pass::Undoing => p.aborts < p.prepares,
    }
}

/// The progress of a transaction that has just begun.
pub open spec fn fresh_progress() -> Progress {
    Progress {
        status: TransactionStatus::Started,
        pass: Pass::Idle,
        operations: 0,
        prepares: 0,
        applied: 0,
        aborts: 0,
        failure: None,
    }
}

/// Whether operations may still be enlisted.
pub open spec fn enlistable(p: Progress) -> bool {
    p.status == TransactionStatus::Started && p.pass == Pass::Idle
}

/// The start of a commit. Only a started transaction with no pass under
/// way can be committed. Without operations it is committed at once;
/// otherwise the staging pass begins.
pub open spec fn begin_commit(p: Progress) -> Result<Progress, TransactionError> {
    if p.status == TransactionStatus::Started && p.pass == Pass::Idle {
        if p.operations == 0 {
            Ok(Progress { status: TransactionStatus::Committed, ..p })
        } else {
            Ok(Progress { pass: Pass::Preparing, ..p })
        }
    } else {
        Err(TransactionError::InvalidTransactionState)
    }
}

/// The start of a rollback. A transaction that is not final can be rolled
/// back. With nothing left to undo it is rolled back at once; otherwise
/// the undoing pass begins, or goes on if it is under way.
pub open spec fn begin_rollback(p: Progress) -> Result<Progress, TransactionError> {
    if is_terminal(p.status) {
        Err(TransactionError::InvalidTransactionState)
    } else if p.pass == Pass::Undoing {
        Ok(p)
    } else if p.aborts == p.prepares {
        Ok(Progress { status: TransactionStatus::RolledBack, pass: Pass::Idle, ..p })
    } else {
        Ok(Progress { pass: Pass::Undoing, ..p })
    }
}

/// The progress after the outstanding call was answered.
///
/// A staged operation counts; the last one ends the staging pass and
/// begins the applying pass. A refused staging fails the transaction, and
/// what was staged is undone. An applied operation counts; the last one
/// commits the transaction. A failed application fails the transaction and
/// ends the pass. An undo call counts whatever its answer; the last one
/// rolls the transaction back.
pub open spec fn record_spec(p: Progress, succeeded: bool) -> Result<Progress, TransactionError> {
    match p.pass {
        Pass::Idle => Err(TransactionError::InvalidTransactionState),
        Pass::Preparing => if succeeded {
            if p.prepares + 1 == p.operations {
                Ok(
                    Progress {
                        status: TransactionStatus::Prepared,
                        pass: Pass::Applying,
                        prepares: p.prepares + 1,
                        ..p
                    },
                )
            } else {
                Ok(Progress { prepares: p.prepares + 1, ..p })
            }
        } else if p.prepares == 0 {
            Ok(
                Progress {
                    status: TransactionStatus::RolledBack,
                    pass: Pass::Idle,
                    failure: Some(TransactionError::PrepareFailed),
                    ..p
                },
            )
        } else {
            Ok(
                Progress {
                    status: TransactionStatus::Failed,
                    pass: Pass::Undoing,
                    failure: Some(TransactionError::PrepareFailed),
                    ..p
                },
            )
        },
        Pass::Applying => if succeeded {
            if p.applied + 1 == p.operations {
                Ok(
                    Progress {
                        status: TransactionStatus::Committed,
                        pass: Pass::Idle,
                        applied: p.applied + 1,
                        ..p
                    },
                )
            } else {
                Ok(Progress { applied: p.applied + 1, ..p })
            }
        } else {
            Ok(
                Progress {
                    status: TransactionStatus::Failed,
                    pass: Pass::Idle,
                    failure: Some(TransactionError::StoreUnavailable),
                    ..p
                },
            )
        },
        Pass::Undoing => {
            let failure = if !succeeded && p.failure is None {
                Some(TransactionError::StoreUnavailable)
            } else {
                p.failure
            };
            if p.aborts + 1 == p.prepares {
                Ok(
                    Progress {
                        status: TransactionStatus::RolledBack,
                        pass: Pass::Idle,
                        aborts: p.aborts + 1,
                        failure,
                        ..p
                    },
                )
            } else {
                Ok(Progress { aborts: p.aborts + 1, failure, ..p })
            }
        },
    }
}

/// The call that the driver must make next.
pub open spec fn next_step_spec(p: Progress) -> Step {
    match p.pass {
        Pass::Idle => Step::Done,
        Pass::Preparing => Step::Prepare(p.prepares as usize),
        Pass::Applying => Step::Apply(p.applied as usize),
        Pass::Undoing => Step::Abort((p.prepares - p.aborts - 1) as usize),
    }
}

/// What a transaction has come to: its status, or the failure to report.
pub open spec fn outcome_spec(p: Progress) -> Result<TransactionStatus, TransactionError> {
    match p.failure {
        Some(e) => Err(e),
        None => Ok(p.status),
    }
}

/// Whether a transaction has ended as the caller expected: in the expected
/// status and without a failure to report. A failure is reported as it
/// is; any other status than the expected one counts as an invalid state.
pub open spec fn concluded_spec(p: Progress, expected: TransactionStatus) -> Result<
    (),
    TransactionError,
> {
    match outcome_spec(p) {
        Ok(status) => if status == expected {
            Ok(())
        } else {
            Err(TransactionError::InvalidTransactionState)
        },
        Err(e) => Err(e),
    }
}

/// Whether a text occurs among the names.
pub open spec fn has_name(names: Seq<Seq<char>>, name: Seq<char>) -> bool {
    exists|i: int| 0 <= i < names.len() && names[i] == name
}

/// The names with `name` among them: appended where it was missing.
pub open spec fn with_name(names: Seq<Seq<char>>, name: Seq<char>) -> Seq<Seq<char>> {
    if has_name(names, name) {
        names
    } else {
        names.push(name)
    }
}

/// A record with one more operation enlisted.
pub open spec fn enlisted(r: RecordView, op: OperationView) -> RecordView {
    RecordView {
        operations: r.operations.push(op),
        participants: with_name(r.participants, op.database),
        progress: Progress { operations: r.progress.operations + 1, ..r.progress },
        ..r
    }
}

/// The record of a transaction that has just begun.
pub open spec fn fresh_record(id: Seq<char>, now: nat) -> RecordView {
    RecordView {
        id,
        operations: Seq::empty(),
        start_time: now,
        participants: Seq::empty(),
        progress: fresh_progress(),
    }
}

/// Whether a record is well formed: its numbers fit together and fit its
/// operations.
pub open spec fn record_wf(r: RecordView) -> bool {
    progress_wf(r.progress) && r.progress.operations == r.operations.len()
}

/// The three ways in which a transaction moves on.
pub enum Move {
    /// Begin the commit.
    Commit,
    /// Begin the rollback.
    Rollback,
    /// Record the answer to the outstanding call.
    Answer(bool),
}

/// The progress after a move, or the reason why the move is refused.
pub open spec fn move_spec(p: Progress, m: Move) -> Result<Progress, TransactionError> {
    match m {
        Move::Commit => begin_commit(p),
        Move::Rollback => begin_rollback(p),
        Move::Answer(succeeded) => record_spec(p, succeeded),
    }
}

/// Every move keeps the numbers of a progress fitting together and leaves
/// the number of operations alone.
pub proof fn lemma_move_stays_wf(p: Progress, m: Move)
    requires
        progress_wf(p),
    ensures
        move_spec(p, m) matches Ok(q) ==> progress_wf(q) && q.operations == p.operations,
{
}

/// How far a transaction has come, as its record holds it.
#[derive(Clone, Copy, Debug)]
pub struct TransactionProgress {
    pub status: TransactionStatus,
    pub pass: Pass,
    pub operations: usize,
    pub prepares: usize,
    pub applied: usize,
    pub aborts: usize,
    pub failure: Option<TransactionError>,
}

impl View for TransactionProgress {
    type V = Progress;

    open spec fn view(&self) -> Progress {
        Progress {
            status: self.status,
            pass: self.pass,
            operations: self.operations as nat,
            prepares: self.prepares as nat,
            applied: self.applied as nat,
            aborts: self.aborts as nat,
            failure: self.failure,
        }
    }
}

/// The outcome of a move, as mathematical values.
pub open spec fn progress_outcome(r: Result<TransactionProgress, TransactionError>) -> Result<
    Progress,
    TransactionError,
> {
    match r {
        Ok(p) => Ok(p@),
        Err(e) => Err(e),
    }
}

impl TransactionState {
    /// How far the transaction has come.
    pub fn progress(&self) -> (p: TransactionProgress)
        ensures
            p@ == self@.progress,
    {
        TransactionProgress {
            status: self.status,
            pass: self.pass,
            operations: self.operations.len(),
            prepares: self.prepares,
            applied: self.applied,
            aborts: self.aborts,
            failure: self.failure,
        }
    }
}

impl TransactionProgress {
    /// Tells whether the numbers fit together.
    pub fn well_formed(&self) -> (r: bool)
        ensures
            r == progress_wf(self@),
    {
        let terminal = match self.status {
            TransactionStatus::Committed => true,
            TransactionStatus::RolledBack => true,
            _ => false,
        };
        let idle = match self.pass {
            Pass::Idle => true,
            _ => false,
        };
        let started = match self.status {
            TransactionStatus::Started => true,
            _ => false,
        };
        let rolled_back = match self.status {
            TransactionStatus::RolledBack => true,
            _ => false,
        };
        let prepared = match self.status {
            TransactionStatus::Prepared => true,
            _ => false,
        };
        let clean = self.failure.is_none();
        let pass_fits = match self.pass {
            Pass::Idle => true,
            Pass::Preparing => started && self.prepares < self.operations && self.applied == 0
                && self.aborts == 0 && clean,
            Pass::Applying => prepared && self.prepares == self.operations && self.applied
                < self.operations && self.aborts == 0 && clean,
            Pass::Undoing => self.aborts < self.prepares,
        };
        self.prepares <= self.operations && self.applied <= self.operations && self.aborts
            <= self.prepares && (self.applied == 0 || self.prepares == self.operations) && (
        !terminal || idle) && (!(started && idle) || (self.prepares == 0 && self.applied == 0
            && self.aborts == 0 && clean)) && (!rolled_back || self.aborts == self.prepares)
            && pass_fits
    }

    /// The call that the driver must make next.
    pub fn next_step(&self) -> (r: Step)
        requires
            progress_wf(self@),
        ensures
            r == next_step_spec(self@),
    {
        match self.pass {
            Pass::Idle => Step::Done,
            Pass::Preparing => Step::Prepare(self.prepares),
            Pass::Applying => Step::Apply(self.applied),
            Pass::Undoing => Step::Abort(self.prepares - self.aborts - 1),
        }
    }

    /// The progress after a move, or the reason why the move is refused.
    pub fn after(&self, m: &Move) -> (r: Result<TransactionProgress, TransactionError>)
        requires
            progress_wf(self@),
        ensures
            progress_outcome(r) == move_spec(self@, *m),
    {
        match m {
            Move::Commit => self.after_commit(),
            Move::Rollback => self.after_rollback(),
            Move::Answer(succeeded) => self.after_answer(*succeeded),
        }
    }

    fn after_commit(&self) -> (r: Result<TransactionProgress, TransactionError>)
        ensures
            progress_outcome(r) == begin_commit(self@),
    {
        match (self.status, self.pass) {
            (TransactionStatus::Started, Pass::Idle) => {
                if self.operations == 0 {
                    Ok(TransactionProgress { status: TransactionStatus::Committed, ..*self })
                } else {
                    Ok(TransactionProgress { pass: Pass::Preparing, ..*self })
                }
            },
            _ => Err(TransactionError::InvalidTransactionState),
        }
    }

    fn after_rollback(&self) -> (r: Result<TransactionProgress, TransactionError>)
        ensures
            progress_outcome(r) == begin_rollback(self@),
    {
        match self.status {
            TransactionStatus::Committed => Err(TransactionError::InvalidTransactionState),
            TransactionStatus::RolledBack => Err(TransactionError::InvalidTransactionState),
            _ => match self.pass {
                Pass::Undoing => Ok(*self),
                _ => if self.aborts == self.prepares {
                    Ok(
                        TransactionProgress {
                            status: TransactionStatus::RolledBack,
                            pass: Pass::Idle,
                            ..*self
                        },
                    )
                } else {
                    Ok(TransactionProgress { pass: Pass::Undoing, ..*self })
                },
            },
        }
    }

    fn after_answer(&self, succeeded: bool) -> (r: Result<TransactionProgress, TransactionError>)
        requires
            progress_wf(self@),
        ensures
            progress_outcome(r) == record_spec(self@, succeeded),
    {
        match self.pass {
            Pass::Idle => Err(TransactionError::InvalidTransactionState),
            Pass::Preparing => {
                if succeeded {
                    if self.prepares + 1 == self.operations {
                        Ok(
                            TransactionProgress {
                                status: TransactionStatus::Prepared,
                                pass: Pass::Applying,
                                prepares: self.prepares + 1,
                                ..*self
                            },
                        )
                    } else {
                        Ok(TransactionProgress { prepares: self.prepares + 1, ..*self })
                    }
                } else if self.prepares == 0 {
                    Ok(
                        TransactionProgress {
                            status: TransactionStatus::RolledBack,
                            pass: Pass::Idle,
                            failure: Some(TransactionError::PrepareFailed),
                            ..*self
                        },
                    )
                } else {
                    Ok(
                        TransactionProgress {
                            status: TransactionStatus::Failed,
                            pass: Pass::Undoing,
                            failure: Some(TransactionError::PrepareFailed),
                            ..*self
                        },
                    )
                }
            },
            Pass::Applying => {
                if succeeded {
                    if self.applied + 1 == self.operations {
                        Ok(
                            TransactionProgress {
                                status: TransactionStatus::Committed,
                                pass: Pass::Idle,
                                applied: self.applied + 1,
                                ..*self
                            },
                        )
                    } else {
                        Ok(TransactionProgress { applied: self.applied + 1, ..*self })
                    }
                } else {
                    Ok(
                        TransactionProgress {
                            status: TransactionStatus::Failed,
                            pass: Pass::Idle,
                            failure: Some(TransactionError::StoreUnavailable),
                            ..*self
                        },
                    )
                }
            },
            Pass::Undoing => {
                let failure = match self.failure {
                    Some(e) => Some(e),
                    None => if succeeded {
                        None
                    } else {
                        Some(TransactionError::StoreUnavailable)
                    },
                };
                if self.aborts + 1 == self.prepares {
                    Ok(
                        TransactionProgress {
                            status: TransactionStatus::RolledBack,
                            pass: Pass::Idle,
                            aborts: self.aborts + 1,
                            failure,
                            ..*self
                        },
                    )
                } else {
                    Ok(TransactionProgress { aborts: self.aborts + 1, failure, ..*self })
                }
            },
        }
    }
}

} // verus!
