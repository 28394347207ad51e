//! What the state machine of a transaction guarantees over whole runs: a
//! driver that makes call after call and reports each answer.

use vstd::prelude::*;
use crate::error::TransactionError;
use crate::transaction::{
    Pass, Progress, TransactionStatus, begin_commit, begin_rollback, is_terminal, progress_wf,
    record_spec,
};

verus! {

/// The progress after the driver has made call after call and reported the
/// answers in order, for as long as a pass is under way and answers are
/// left.
pub open spec fn drive(p: Progress, answers: Seq<bool>) -> Progress
    decreases answers.len(),
{
    if answers.len() == 0 || p.pass == Pass::Idle {
        p
    } else {
        match record_spec(p, answers[0]) {
            Ok(q) => drive(q, answers.drop_first()),
            Err(_) => p,
        }
    }
}

/// Whether a transaction in the status `from` may later be in the status
/// `to`: statuses move forward only, and a final status stays.
pub open spec fn may_follow(from: TransactionStatus, to: TransactionStatus) -> bool {
    from == to || match from {
        TransactionStatus::Started => true,
        TransactionStatus::Prepared => to == TransactionStatus::Committed || to
            == TransactionStatus::Failed || to == TransactionStatus::RolledBack,
        TransactionStatus::Failed => to == TransactionStatus::RolledBack,
        TransactionStatus::Committed => false,
        TransactionStatus::RolledBack => false,
    }
}

/// No step of the coordinator moves a status backwards, and a commit is
/// never begun on a transaction that is past `Started`.
pub proof fn lemma_status_moves_forward(p: Progress, succeeded: bool)
    requires
        progress_wf(p),
    ensures
        begin_commit(p) matches Ok(q) ==> may_follow(p.status, q.status),
        begin_rollback(p) matches Ok(q) ==> may_follow(p.status, q.status),
        record_spec(p, succeeded) matches Ok(q) ==> may_follow(p.status, q.status),
        p.status != TransactionStatus::Started ==> begin_commit(p) is Err,
        is_terminal(p.status) ==> begin_rollback(p) is Err && record_spec(p, succeeded) is Err,
{
}

/// Over a whole run the status moves forward only and the numbers keep
/// fitting together.
pub proof fn lemma_drive_moves_forward(p: Progress, answers: Seq<bool>)
    requires
        progress_wf(p),
    ensures
        progress_wf(drive(p, answers)),
        may_follow(p.status, drive(p, answers).status),
        drive(p, answers).operations == p.operations,
    decreases answers.len(),
{
    if answers.len() > 0 && p.pass != Pass::Idle {
        let q = record_spec(p, answers[0])->Ok_0;
        lemma_drive_moves_forward(q, answers.drop_first());
    }
}

/// An applying pass whose remaining calls all succeed ends in
/// `Committed`.
proof fn lemma_applying_succeeds(p: Progress, answers: Seq<bool>)
    requires
        progress_wf(p),
        p.pass == Pass::Applying,
        answers.len() >= p.operations - p.applied,
        forall|i: int| 0 <= i < p.operations - p.applied ==> answers[i],
    ensures
        drive(p, answers).status == TransactionStatus::Committed,
        drive(p, answers).pass == Pass::Idle,
        drive(p, answers).failure is None,
        drive(p, answers).prepares == p.operations,
        drive(p, answers).applied == p.operations,
        drive(p, answers).aborts == 0,
    decreases p.operations - p.applied,
{
    let q = record_spec(p, answers[0])->Ok_0;
    if q.pass == Pass::Applying {
        let rest = answers.drop_first();
        assert forall|i: int| 0 <= i < q.operations - q.applied implies rest[i] by {
            assert(rest[i] == answers[i + 1]);
        }
        lemma_applying_succeeds(q, rest);
    } else {
        assert(drive(q, answers.drop_first()) == q);
    }
}

/// A staging pass whose remaining calls all succeed, followed by an
/// applying pass whose calls all succeed, ends in `Committed`.
proof fn lemma_preparing_succeeds(p: Progress, answers: Seq<bool>)
    requires
        progress_wf(p),
        p.pass == Pass::Preparing,
        answers.len() >= (p.operations - p.prepares) + p.operations,
        forall|i: int| 0 <= i < (p.operations - p.prepares) + p.operations ==> answers[i],
    ensures
        drive(p, answers).status == TransactionStatus::Committed,
        drive(p, answers).pass == Pass::Idle,
        drive(p, answers).failure is None,
        drive(p, answers).prepares == p.operations,
        drive(p, answers).applied == p.operations,
        drive(p, answers).aborts == 0,
    decreases p.operations - p.prepares,
{
    let q = record_spec(p, answers[0])->Ok_0;
    let rest = answers.drop_first();
    if q.pass == Pass::Preparing {
        assert forall|i: int| 0 <= i < (q.operations - q.prepares) + q.operations implies rest[i] by {
            assert(rest[i] == answers[i + 1]);
        }
        lemma_preparing_succeeds(q, rest);
    } else {
        assert forall|i: int| 0 <= i < q.operations - q.applied implies rest[i] by {
            assert(rest[i] == answers[i + 1]);
        }
        lemma_applying_succeeds(q, rest);
    }
}

/// A commit whose calls all succeed ends in `Committed`: every operation
/// was staged and applied, none was undone, and there is no failure to
/// report.
pub proof fn lemma_commit_succeeds(p: Progress, answers: Seq<bool>)
    requires
        progress_wf(p),
        p.status == TransactionStatus::Started,
        p.pass == Pass::Idle,
        answers.len() >= 2 * p.operations,
        forall|i: int| 0 <= i < 2 * p.operations ==> answers[i],
    ensures
        begin_commit(p) is Ok,
        ({
            let end = drive(begin_commit(p)->Ok_0, answers);
            &&& end.status == TransactionStatus::Committed
            &&& end.pass == Pass::Idle
            &&& end.failure is None
            &&& end.prepares == p.operations
            &&& end.applied == p.operations
            &&& end.aborts == 0
        }),
{
    let q = begin_commit(p)->Ok_0;
    if p.operations > 0 {
        lemma_preparing_succeeds(q, answers);
    }
}

/// An undoing pass that is given an answer for each remaining call ends
/// in `RolledBack`, whatever the answers: every staged operation has then
/// received its undo call, and a failure noted before stays the one to
/// report.
proof fn lemma_undoing_ends(p: Progress, answers: Seq<bool>)
    requires
        progress_wf(p),
        p.pass == Pass::Undoing,
        answers.len() >= p.prepares - p.aborts,
    ensures
        drive(p, answers).status == TransactionStatus::RolledBack,
        drive(p, answers).pass == Pass::Idle,
        drive(p, answers).prepares == p.prepares,
        drive(p, answers).aborts == p.prepares,
        drive(p, answers).applied == p.applied,
        p.failure is Some ==> drive(p, answers).failure == p.failure,
    decreases p.prepares - p.aborts,
{
    let q = record_spec(p, answers[0])->Ok_0;
    if q.pass == Pass::Undoing {
        lemma_undoing_ends(q, answers.drop_first());
    } else {
        assert(drive(q, answers.drop_first()) == q);
    }
}

/// A staging pass in which `good` more calls succeed and the next one
/// fails ends in `RolledBack` once every staged operation has received
/// its undo call.
proof fn lemma_preparing_fails(p: Progress, answers: Seq<bool>, good: nat)
    requires
        progress_wf(p),
        p.pass == Pass::Preparing,
        p.prepares + good < p.operations,
        answers.len() >= good + 1 + (p.prepares + good),
        forall|i: int| 0 <= i < good ==> answers[i],
        !answers[good as int],
    ensures
        drive(p, answers).status == TransactionStatus::RolledBack,
        drive(p, answers).pass == Pass::Idle,
        drive(p, answers).prepares == p.prepares + good,
        drive(p, answers).aborts == p.prepares + good,
        drive(p, answers).applied == 0,
        drive(p, answers).failure == Some(TransactionError::PrepareFailed),
    decreases good,
{
    let q = record_spec(p, answers[0])->Ok_0;
    let rest = answers.drop_first();
    if good == 0 {
        if q.pass == Pass::Undoing {
            lemma_undoing_ends(q, rest);
        } else {
            assert(drive(q, rest) == q);
        }
    } else {
        assert(answers[0]);
        assert forall|i: int| 0 <= i < good - 1 implies rest[i] by {
            assert(rest[i] == answers[i + 1]);
        }
        assert(rest[good - 1] == answers[good as int]);
        lemma_preparing_fails(q, rest, (good - 1) as nat);
    }
}

/// A commit in which the staging of the operation at `failed` is refused,
/// after every earlier staging succeeded, ends in `RolledBack` once the
/// driver has answered the undo calls, whatever those answers. Every
/// operation that was staged has then received its undo call, so the two
/// counts are equal; nothing was applied; and the failure to report is
/// the refused staging.
pub proof fn lemma_prepare_failure_rolls_back(p: Progress, answers: Seq<bool>, failed: nat)
    requires
        progress_wf(p),
        p.status == TransactionStatus::Started,
        p.pass == Pass::Idle,
        failed < p.operations,
        answers.len() >= 2 * failed + 1,
        forall|i: int| 0 <= i < failed ==> answers[i],
        !answers[failed as int],
    ensures
        begin_commit(p) is Ok,
        ({
            let end = drive(begin_commit(p)->Ok_0, answers);
            &&& end.status == TransactionStatus::RolledBack
            &&& end.pass == Pass::Idle
            &&& end.prepares == failed
            &&& end.aborts == failed
            &&& end.applied == 0
            &&& end.failure == Some(TransactionError::PrepareFailed)
        }),
{
    lemma_preparing_fails(begin_commit(p)->Ok_0, answers, failed);
}

/// A rollback that is given an answer for each undo call ends in
/// `RolledBack`, whatever the answers and whatever the status it began
/// in: every staged operation has then received its undo call.
pub proof fn lemma_rollback_ends(p: Progress, answers: Seq<bool>)
    requires
        progress_wf(p),
        !is_terminal(p.status),
        answers.len() >= p.prepares - p.aborts,
    ensures
        begin_rollback(p) is Ok,
        ({
            let end = drive(begin_rollback(p)->Ok_0, answers);
            &&& end.status == TransactionStatus::RolledBack
            &&& end.pass == Pass::Idle
            &&& end.aborts == end.prepares
        }),
{
    let q = begin_rollback(p)->Ok_0;
    if q.pass == Pass::Undoing {
        lemma_undoing_ends(q, answers);
    }
}

} // verus!
