//! The transaction coordinator: the log of the transactions it knows and
//! the calls by which a driver moves them on.
//!
//! The coordinator performs no I/O. It tells its driver which call to make
//! next, and the driver reports how the call went.

use vstd::prelude::*;
use crate::change::OperationType;
use crate::error::TransactionError;
use crate::text::same_text;
use crate::transaction::{
    Move, OperationView, Pass, Progress, RecordView, Step, TransactionOperation,
    TransactionProgress, TransactionState, TransactionStatus, concluded_spec, enlistable,
    enlisted, fresh_record, has_name, is_terminal, lemma_move_stays_wf, move_spec, names_view,
    next_step_spec, operations_view, outcome_spec, record_wf,
};

verus! {

/// The index of the record with the identifier, if there is one.
pub open spec fn index_of(records: Seq<RecordView>, id: Seq<char>) -> Option<int>
    decreases records.len(),
{
    if records.len() == 0 {
        None
    } else {
        match index_of(records.drop_last(), id) {
            Some(i) => Some(i),
            None => if records.last().id == id {
                Some(records.len() - 1)
            } else {
                None
            },
        }
    }
}

/// Whether a log is well formed: every record is, and no two records bear
/// the same identifier.
pub open spec fn log_wf(records: Seq<RecordView>) -> bool {
    &&& forall|i: int| 0 <= i < records.len() ==> record_wf(#[trigger] records[i])
    &&& forall|i: int, j: int|
        0 <= i < j < records.len() ==> (#[trigger] records[i]).id != (#[trigger] records[j]).id
}

/// The log with a record put in under its identifier: at the end of the
/// log, or in the place of the record that bore the identifier before.
pub open spec fn put(records: Seq<RecordView>, r: RecordView) -> Seq<RecordView> {
    match index_of(records, r.id) {
        Some(i) => records.update(i, r),
        None => records.push(r),
    }
}

/// The log after a transaction was begun under the identifier `id` at the
/// time `now`: it holds a fresh record under the identifier, and every
/// record under another identifier is as it was.
pub open spec fn begun(records: Seq<RecordView>, id: Seq<char>, now: nat) -> Seq<RecordView> {
    put(records, fresh_record(id, now))
}

/// Whether a character is a digit or one of the letters `a` to `f`.
pub open spec fn is_lower_hex(c: char) -> bool {
    ('0' <= c && c <= '9') || ('a' <= c && c <= 'f')
}

/// Whether a text has the hyphenated form of a random identifier: 36
/// characters, hyphens after the 8th, 12th, 16th and 20th digit, the
/// version digit `4`, and lowercase hexadecimal digits everywhere else.
pub open spec fn is_hyphenated_id(s: Seq<char>) -> bool {
    &&& s.len() == 36
    &&& s[14] == '4'
    &&& forall|i: int|
        0 <= i < 36 ==> if i == 8 || i == 13 || i == 18 || i == 23 {
            #[trigger] s[i] == '-'
        } else {
            is_lower_hex(s[i])
        }
}

/// A fresh random identifier: `uuid::Uuid::new_v4` written by its
/// `Display`. Whatever the random bits, the text has the hyphenated
/// lowercase form with the version digit `4`. Nothing is claimed of two
/// identifiers being different. The call fails only where the system has
/// no source of random bytes.
#[verifier::external_body]
fn fresh_identifier() -> (id: String)
    ensures
        is_hyphenated_id(id@),
{
    uuid::Uuid::new_v4().to_string()
}

/// `index_of` names an index inside the log whose record bears the
/// identifier, and no earlier record does; it names none only where no
/// record bears it.
pub proof fn lemma_index_of(records: Seq<RecordView>, id: Seq<char>)
    ensures
        match index_of(records, id) {
            Some(i) => 0 <= i < records.len() && records[i].id == id && forall|j: int|
                0 <= j < i ==> records[j].id != id,
            None => forall|j: int| 0 <= j < records.len() ==> records[j].id != id,
        },
    decreases records.len(),
{
    if records.len() > 0 {
        lemma_index_of(records.drop_last(), id);
        assert forall|j: int| 0 <= j < records.len() - 1 implies records.drop_last()[j]
            == records[j] by {}
    }
}

/// The views of a sequence of records, in order.
pub open spec fn records_view(items: Seq<TransactionState>) -> Seq<RecordView> {
    Seq::new(items.len(), |i: int| items[i]@)
}

/// A record with its progress replaced.
pub open spec fn with_progress(r: RecordView, p: Progress) -> RecordView {
    RecordView { progress: p, ..r }
}

/// The log after a move of the transaction `id`, and what the caller is
/// told: the next call to make, or why the move is refused. A refused
/// move, and a move of an unknown transaction, leaves the log as it was.
pub open spec fn moved(records: Seq<RecordView>, id: Seq<char>, m: Move) -> (
    Seq<RecordView>,
    Result<Step, TransactionError>,
) {
    match index_of(records, id) {
        Some(i) => match move_spec(records[i].progress, m) {
            Ok(p) => (records.update(i, with_progress(records[i], p)), Ok(next_step_spec(p))),
            Err(e) => (records, Err(e)),
        },
        None => (records, Err(TransactionError::InvalidTransactionState)),
    }
}

/// The log after an operation was offered to the transaction `id`, and
/// whether it was taken. Only a started transaction whose commit has not
/// begun takes operations.
pub open spec fn offered(records: Seq<RecordView>, id: Seq<char>, op: OperationView) -> (
    Seq<RecordView>,
    Result<(), TransactionError>,
) {
    match index_of(records, id) {
        Some(i) => if enlistable(records[i].progress) {
            (records.update(i, enlisted(records[i], op)), Ok(()))
        } else {
            (records, Err(TransactionError::InvalidTransactionState))
        },
        None => (records, Err(TransactionError::InvalidTransactionState)),
    }
}

/// The log after the record of the transaction `id` was asked for, and
/// the record where it was handed out. Only the record of a transaction
/// that is committed or rolled back leaves the log.
pub open spec fn archived(records: Seq<RecordView>, id: Seq<char>) -> (
    Seq<RecordView>,
    Result<RecordView, TransactionError>,
) {
    match index_of(records, id) {
        Some(i) => if is_terminal(records[i].progress.status) {
            (records.remove(i), Ok(records[i]))
        } else {
            (records, Err(TransactionError::InvalidTransactionState))
        },
        None => (records, Err(TransactionError::InvalidTransactionState)),
    }
}

/// The outcome of asking for a record, as mathematical values.
pub open spec fn record_outcome_view(r: Result<TransactionState, TransactionError>) -> Result<
    RecordView,
    TransactionError,
> {
    match r {
        Ok(record) => Ok(record@),
        Err(e) => Err(e),
    }
}

/// A well-formed log stays well formed when a record gives way to one
/// that is well formed and bears the same identifier.
pub proof fn lemma_update_keeps_wf(records: Seq<RecordView>, i: int, r: RecordView)
    requires
        log_wf(records),
        0 <= i < records.len(),
        record_wf(r),
        r.id == records[i].id,
    ensures
        log_wf(records.update(i, r)),
{
    let after = records.update(i, r);
    assert forall|a: int, b: int| 0 <= a < b < after.len() implies (#[trigger] after[a]).id != (
    #[trigger] after[b]).id by {
        assert(after[a].id == records[a].id);
        assert(after[b].id == records[b].id);
    }
}

/// A well-formed log stays well formed when a record is taken out.
pub proof fn lemma_remove_keeps_wf(records: Seq<RecordView>, i: int)
    requires
        log_wf(records),
        0 <= i < records.len(),
    ensures
        log_wf(records.remove(i)),
{
    let after = records.remove(i);
    assert forall|a: int| 0 <= a < after.len() implies record_wf(#[trigger] after[a]) by {
        if a < i {
            assert(after[a] == records[a]);
        } else {
            assert(after[a] == records[a + 1]);
        }
    }
    assert forall|a: int, b: int| 0 <= a < b < after.len() implies (#[trigger] after[a]).id != (
    #[trigger] after[b]).id by {
        let a0 = if a < i {
            a
        } else {
            a + 1
        };
        let b0 = if b < i {
            b
        } else {
            b + 1
        };
        assert(after[a] == records[a0]);
        assert(after[b] == records[b0]);
    }
}

/// A well-formed log stays well formed when a transaction is begun.
pub proof fn lemma_begun_keeps_wf(records: Seq<RecordView>, id: Seq<char>, now: nat)
    requires
        log_wf(records),
    ensures
        log_wf(begun(records, id, now)),
{
    lemma_index_of(records, id);
    let r = fresh_record(id, now);
    match index_of(records, id) {
        Some(i) => {
            lemma_update_keeps_wf(records, i, r);
        },
        None => {
            let after = records.push(r);
            assert forall|a: int, b: int| 0 <= a < b < after.len() implies (#[trigger] after[a]).id
                != (#[trigger] after[b]).id by {
                assert(after[a] == records[a]);
                if b < records.len() {
                    assert(after[b] == records[b]);
                }
            }
        },
    }
}

/// Beginning a transaction always yields a record in the status
/// `Started`, without operations and without participants, under the
/// identifier it was begun under; and it leaves every record under
/// another identifier where and as it was.
pub proof fn lemma_begin_yields_started(records: Seq<RecordView>, id: Seq<char>, now: nat)
    requires
        log_wf(records),
    ensures
        index_of(begun(records, id, now), id) is Some,
        ({
            let after = begun(records, id, now);
            let record = after[index_of(after, id)->Some_0];
            &&& 0 <= index_of(after, id)->Some_0 < after.len()
            &&& record == fresh_record(id, now)
            &&& record.id == id
            &&& record.progress.status == TransactionStatus::Started
            &&& record.progress.pass == Pass::Idle
            &&& record.operations.len() == 0
            &&& record.participants.len() == 0
            &&& record.start_time == now
        }),
        forall|i: int|
            0 <= i < records.len() && (#[trigger] records[i]).id != id ==> begun(
                records,
                id,
                now,
            )[i] == records[i],
{
    lemma_begun_keeps_wf(records, id, now);
    lemma_index_of(records, id);
    let after = begun(records, id, now);
    lemma_index_of(after, id);
    let at = match index_of(records, id) {
        Some(i) => i,
        None => records.len() as int,
    };
    assert(after[at] == fresh_record(id, now));
    match index_of(after, id) {
        Some(k) => {
            if k != at {
                if k < at {
                    assert(after[k].id != after[at].id);
                } else {
                    assert(after[at].id != after[k].id);
                }
            }
        },
        None => {
            assert(after[at].id == id);
        },
    }
}

/// Every operation of the coordinator keeps a well-formed log well
/// formed.
pub proof fn lemma_log_stays_wf(records: Seq<RecordView>, id: Seq<char>, m: Move, op: OperationView)
    requires
        log_wf(records),
    ensures
        log_wf(moved(records, id, m).0),
        log_wf(offered(records, id, op).0),
        log_wf(archived(records, id).0),
{
    lemma_index_of(records, id);
    match index_of(records, id) {
        Some(i) => {
            assert(record_wf(records[i]));
            lemma_move_stays_wf(records[i].progress, m);
            match move_spec(records[i].progress, m) {
                Ok(p) => {
                    lemma_update_keeps_wf(records, i, with_progress(records[i], p));
                },
                Err(_) => {},
            }
            if enlistable(records[i].progress) {
                lemma_update_keeps_wf(records, i, enlisted(records[i], op));
            }
            if is_terminal(records[i].progress.status) {
                lemma_remove_keeps_wf(records, i);
            }
        },
        None => {},
    }
}

/// Tells whether a name occurs among the names.
fn contains_name(names: &Vec<String>, name: &str) -> (r: bool)
    ensures
        r == has_name(names_view(names@), name@),
{
    let mut i: usize = 0;
    while i < names.len()
        invariant
            i <= names.len(),
            forall|j: int| 0 <= j < i ==> names@[j]@ != name@,
        decreases names.len() - i,
    {
        if same_text(names[i].as_str(), name) {
            proof {
                assert(names_view(names@)[i as int] == name@);
            }
            return true;
        }
        i = i + 1;
    }
    false
}

/// Finds the record of a transaction in a log.
fn find(log: &Vec<TransactionState>, id: &str) -> (r: Option<usize>)
    ensures
        match r {
            Some(i) => i < log@.len() && index_of(records_view(log@), id@) == Some(i as int),
            None => index_of(records_view(log@), id@) is None,
        },
{
    let ghost records = records_view(log@);
    let mut i: usize = 0;
    while i < log.len()
        invariant
            i <= log.len(),
            records == records_view(log@),
            index_of(records.take(i as int), id@) is None,
        decreases log.len() - i,
    {
        proof {
            assert(records.take(i + 1).drop_last() == records.take(i as int));
        }
        if same_text(log[i].id.as_str(), id) {
            proof {
                lemma_index_of(records, id@);
                lemma_index_of(records.take(i as int), id@);
                assert forall|j: int| 0 <= j < i implies records[j].id != id@ by {
                    assert(records.take(i as int)[j] == records[j]);
                }
                assert(records[i as int].id == id@);
            }
            return Some(i);
        }
        i = i + 1;
    }
    proof {
        assert(records.take(records.len() as int) == records);
    }
    None
}

/// Writes a progress into the record at `i`.
fn store(log: &mut Vec<TransactionState>, i: usize, p: TransactionProgress)
    requires
        i < old(log)@.len(),
        p@.operations == records_view(old(log)@)[i as int].progress.operations,
    ensures
        records_view(final(log)@) == records_view(old(log)@).update(
            i as int,
            with_progress(records_view(old(log)@)[i as int], p@),
        ),
{
    log[i].status = p.status;
    log[i].pass = p.pass;
    log[i].prepares = p.prepares;
    log[i].applied = p.applied;
    log[i].aborts = p.aborts;
    log[i].failure = p.failure;
    proof {
        assert(records_view(log@) =~= records_view(old(log)@).update(
            i as int,
            with_progress(records_view(old(log)@)[i as int], p@),
        ));
    }
}

/// Makes a move of a transaction in a log.
fn move_in(log: &mut Vec<TransactionState>, id: &str, m: &Move) -> (r: Result<
    Step,
    TransactionError,
>)
    requires
        log_wf(records_view(old(log)@)),
    ensures
        (records_view(final(log)@), r) == moved(records_view(old(log)@), id@, *m),
{
    let i = match find(log, id) {
        Some(i) => i,
        None => {
            return Err(TransactionError::InvalidTransactionState);
        },
    };
    let before = log[i].progress();
    proof {
        assert(record_wf(records_view(log@)[i as int]));
        lemma_move_stays_wf(before@, *m);
    }
    match before.after(m) {
        Ok(p) => {
            store(log, i, p);
            Ok(p.next_step())
        },
        Err(e) => Err(e),
    }
}

/// Offers an operation to a transaction in a log.
fn enlist_in(log: &mut Vec<TransactionState>, id: &str, operation: TransactionOperation) -> (r:
    Result<(), TransactionError>)
    ensures
        (records_view(final(log)@), r) == offered(records_view(old(log)@), id@, operation@),
{
    let i = match find(log, id) {
        Some(i) => i,
        None => {
            return Err(TransactionError::InvalidTransactionState);
        },
    };
    let open = match (log[i].status, log[i].pass) {
        (TransactionStatus::Started, Pass::Idle) => true,
        _ => false,
    };
    if !open {
        return Err(TransactionError::InvalidTransactionState);
    }
    let known = contains_name(&log[i].participants, operation.database.as_str());
    if !known {
        let name = operation.database.clone();
        proof {
            assert(names_view(log[i as int].participants@.push(name)) =~= names_view(
                log[i as int].participants@,
            ).push(name@));
        }
        log[i].participants.push(name);
    }
    proof {
        assert(operations_view(log[i as int].operations@.push(operation)) =~= operations_view(
            log[i as int].operations@,
        ).push(operation@));
    }
    log[i].operations.push(operation);
    proof {
        let before = records_view(old(log)@);
        assert(records_view(log@)[i as int] == enlisted(before[i as int], operation@));
        assert(records_view(log@) =~= before.update(
            i as int,
            enlisted(before[i as int], operation@),
        ));
    }
    Ok(())
}

/// Puts the record of a new transaction into a log.
fn begin_in(log: &mut Vec<TransactionState>, id: String, now: u64)
    ensures
        records_view(final(log)@) == begun(records_view(old(log)@), id@, now as nat),
{
    let found = find(log, id.as_str());
    let record = TransactionState {
        id,
        status: TransactionStatus::Started,
        operations: Vec::new(),
        start_time: now,
        participants: Vec::new(),
        pass: Pass::Idle,
        prepares: 0,
        applied: 0,
        aborts: 0,
        failure: None,
    };
    proof {
        assert(record@.operations =~= Seq::<OperationView>::empty());
        assert(record@.participants =~= Seq::<Seq<char>>::empty());
        assert(record@ == fresh_record(id@, now as nat));
    }
    match found {
        Some(i) => {
            log[i] = record;
            proof {
                assert(records_view(log@) =~= records_view(old(log)@).update(
                    i as int,
                    fresh_record(id@, now as nat),
                ));
            }
        },
        None => {
            log.push(record);
            proof {
                assert(records_view(log@) =~= records_view(old(log)@).push(
                    fresh_record(id@, now as nat),
                ));
            }
        },
    }
}

/// Takes the record of a finished transaction out of a log.
fn archive_in(log: &mut Vec<TransactionState>, id: &str) -> (r: Result<
    TransactionState,
    TransactionError,
>)
    ensures
        (records_view(final(log)@), record_outcome_view(r)) == archived(
            records_view(old(log)@),
            id@,
        ),
{
    let i = match find(log, id) {
        Some(i) => i,
        None => {
            return Err(TransactionError::InvalidTransactionState);
        },
    };
    let terminal = match log[i].status {
        TransactionStatus::Committed => true,
        TransactionStatus::RolledBack => true,
        _ => false,
    };
    if !terminal {
        return Err(TransactionError::InvalidTransactionState);
    }
    let record = log.remove(i);
    proof {
        assert(records_view(log@) =~= records_view(old(log)@).remove(i as int));
    }
    Ok(record)
}

/// The coordinator: the log of the transactions it knows, each under its
/// identifier. No two records of the log bear the same identifier, and
/// the numbers of every record fit together.
#[derive(Debug)]
pub struct TransactionManager {
    transaction_log: Vec<TransactionState>,
}

impl View for TransactionManager {
    type V = Seq<RecordView>;

    closed spec fn view(&self) -> Seq<RecordView> {
        records_view(self.transaction_log@)
    }
}

impl TransactionManager {
    #[verifier::type_invariant]
    closed spec fn well_formed(self) -> bool {
        log_wf(records_view(self.transaction_log@))
    }

    /// Whether the log is well formed. Every coordinator is: the type
    /// admits no other.
    pub open spec fn wf(&self) -> bool {
        log_wf(self@)
    }

    /// A coordinator that knows no transaction.
    pub fn new() -> (r: TransactionManager)
        ensures
            r@ == Seq::<RecordView>::empty(),
            r.wf(),
    {
        let r = TransactionManager { transaction_log: Vec::new() };
        proof {
            assert(r@ =~= Seq::<RecordView>::empty());
        }
        r
    }

    /// Hands the log out and leaves an empty one in its place.
    fn take_log(&mut self) -> (log: Vec<TransactionState>)
        ensures
            records_view(log@) == old(self)@,
            log_wf(old(self)@),
    {
        proof {
            use_type_invariant(&*self);
        }
        let mut log: Vec<TransactionState> = Vec::new();
        proof {
            assert(records_view(log@) =~= Seq::<RecordView>::empty());
        }
        core::mem::swap(&mut self.transaction_log, &mut log);
        log
    }

    /// The number of transactions in the log.
    pub fn len(&self) -> (n: usize)
        ensures
            n == self@.len(),
    {
        self.transaction_log.len()
    }

    /// The record of a transaction, if the log holds one.
    pub fn get(&self, id: &str) -> (r: Option<&TransactionState>)
        ensures
            self.wf(),
            match r {
                Some(record) => index_of(self@, id@) matches Some(i) && self@[i] == record@,
                None => index_of(self@, id@) is None,
            },
    {
        proof {
            use_type_invariant(self);
        }
        match find(&self.transaction_log, id) {
            Some(i) => Some(&self.transaction_log[i]),
            None => None,
        }
    }

    /// The status of a transaction, if the log holds it.
    pub fn status(&self, id: &str) -> (r: Option<TransactionStatus>)
        ensures
            match r {
                Some(status) => index_of(self@, id@) matches Some(i) && self@[i].progress.status
                    == status,
                None => index_of(self@, id@) is None,
            },
    {
        match self.get(id) {
            Some(record) => Some(record.status),
            None => None,
        }
    }

    /// The call that the driver of a transaction must make next.
    pub fn next_step(&self, id: &str) -> (r: Result<Step, TransactionError>)
        ensures
            match index_of(self@, id@) {
                Some(i) => r == Ok::<Step, TransactionError>(next_step_spec(self@[i].progress)),
                None => r == Err::<Step, TransactionError>(
                    TransactionError::InvalidTransactionState,
                ),
            },
    {
        match self.get(id) {
            Some(record) => {
                proof {
                    lemma_index_of(self@, id@);
                }
                Ok(record.progress().next_step())
            },
            None => Err(TransactionError::InvalidTransactionState),
        }
    }

    /// What a transaction has come to: its status, or the failure that its
    /// commit or rollback met first.
    pub fn outcome(&self, id: &str) -> (r: Result<TransactionStatus, TransactionError>)
        ensures
            match index_of(self@, id@) {
                Some(i) => r == outcome_spec(self@[i].progress),
                None => r == Err::<TransactionStatus, TransactionError>(
                    TransactionError::InvalidTransactionState,
                ),
            },
    {
        match self.get(id) {
            Some(record) => match record.failure {
                Some(e) => Err(e),
                None => Ok(record.status),
            },
            None => Err(TransactionError::InvalidTransactionState),
        }
    }

    /// Tells the caller of a commit or a rollback how it ended: well if the
    /// transaction is in the expected status and met no failure, otherwise
    /// with the failure it met first.
    pub fn concluded(&self, id: &str, expected: TransactionStatus) -> (r: Result<
        (),
        TransactionError,
    >)
        ensures
            match index_of(self@, id@) {
                Some(i) => r == concluded_spec(self@[i].progress, expected),
                None => r == Err::<(), TransactionError>(TransactionError::InvalidTransactionState),
            },
    {
        match self.outcome(id) {
            Ok(status) => if status == expected {
                Ok(())
            } else {
                Err(TransactionError::InvalidTransactionState)
            },
            Err(e) => Err(e),
        }
    }

    /// Begins a transaction under a given identifier at the time `now`.
    ///
    /// The new record is in the status `Started` and holds no operation. As
    /// in a map, it takes the place of a record that bore the identifier
    /// before; every other record stays as it was.
    pub fn begin_with(&mut self, id: String, now: u64)
        ensures
            final(self).wf(),
            final(self)@ == begun(old(self)@, id@, now as nat),
    {
        let mut log = self.take_log();
        begin_in(&mut log, id, now);
        proof {
            lemma_begun_keeps_wf(old(self)@, id@, now as nat);
        }
        self.transaction_log = log;
    }

    /// Begins a transaction at the time `now` under a fresh random
    /// identifier and hands the identifier out.
    ///
    /// The call always succeeds. Whatever identifier the random source
    /// gives, the transaction is begun as
    /// [`TransactionManager::begin_with`] begins it, so that the log then
    /// holds a `Started` record without operations under the identifier.
    pub fn begin_transaction(&mut self, now: u64) -> (r: Result<String, TransactionError>)
        ensures
            final(self).wf(),
            r is Ok,
            is_hyphenated_id(r->Ok_0@),
            final(self)@ == begun(old(self)@, r->Ok_0@, now as nat),
            index_of(final(self)@, r->Ok_0@) is Some,
            final(self)@[index_of(final(self)@, r->Ok_0@)->Some_0] == fresh_record(
                r->Ok_0@,
                now as nat,
            ),
    {
        let id = fresh_identifier();
        proof {
            use_type_invariant(&*self);
            lemma_begin_yields_started(self@, id@, now as nat);
        }
        self.begin_with(id.clone(), now);
        Ok(id)
    }

    /// Enlists an operation in a transaction.
    ///
    /// Only a started transaction whose commit has not begun takes
    /// operations; any other, and an unknown one, is refused and the log
    /// stays as it was.
    pub fn enlist(&mut self, id: &str, operation: TransactionOperation) -> (r: Result<
        (),
        TransactionError,
    >)
        ensures
            final(self).wf(),
            (final(self)@, r) == offered(old(self)@, id@, operation@),
    {
        let mut log = self.take_log();
        let r = enlist_in(&mut log, id, operation);
        proof {
            lemma_log_stays_wf(old(self)@, id@, Move::Commit, operation@);
        }
        self.transaction_log = log;
        r
    }

    /// Makes a move of a transaction and names the next call to make.
    fn make_move(&mut self, id: &str, m: Move) -> (r: Result<Step, TransactionError>)
        ensures
            final(self).wf(),
            (final(self)@, r) == moved(old(self)@, id@, m),
    {
        let mut log = self.take_log();
        let r = move_in(&mut log, id, &m);
        proof {
            lemma_log_stays_wf(
                old(self)@,
                id@,
                m,
                OperationView {
                    database: Seq::empty(),
                    collection: Seq::empty(),
                    operation_type: OperationType::Insert,
                    document: Seq::empty(),
                },
            );
        }
        self.transaction_log = log;
        r
    }

    /// Begins the commit of a transaction and names the first call to
    /// make.
    ///
    /// Only a started transaction whose commit has not begun can be
    /// committed; any other, and an unknown one, is refused and the log
    /// stays as it was. A transaction without operations is committed at
    /// once.
    pub fn commit_transaction(&mut self, id: &str) -> (r: Result<Step, TransactionError>)
        ensures
            final(self).wf(),
            (final(self)@, r) == moved(old(self)@, id@, Move::Commit),
    {
        self.make_move(id, Move::Commit)
    }

    /// Begins the rollback of a transaction and names the first call to
    /// make.
    ///
    /// A transaction that is committed or rolled back, and an unknown one,
    /// is refused and the log stays as it was. With nothing staged the
    /// transaction is rolled back at once.
    pub fn rollback_transaction(&mut self, id: &str) -> (r: Result<Step, TransactionError>)
        ensures
            final(self).wf(),
            (final(self)@, r) == moved(old(self)@, id@, Move::Rollback),
    {
        self.make_move(id, Move::Rollback)
    }

    /// Records how the outstanding call of a transaction went and names
    /// the next call to make.
    ///
    /// A transaction with no call outstanding, and an unknown one, is
    /// refused and the log stays as it was.
    pub fn record_outcome(&mut self, id: &str, succeeded: bool) -> (r: Result<
        Step,
        TransactionError,
    >)
        ensures
            final(self).wf(),
            (final(self)@, r) == moved(old(self)@, id@, Move::Answer(succeeded)),
    {
        self.make_move(id, Move::Answer(succeeded))
    }

    /// Takes the record of a finished transaction out of the log.
    ///
    /// A transaction that is neither committed nor rolled back, and an
    /// unknown one, is refused and the log stays as it was.
    pub fn archive(&mut self, id: &str) -> (r: Result<TransactionState, TransactionError>)
        ensures
            final(self).wf(),
            (final(self)@, record_outcome_view(r)) == archived(old(self)@, id@),
    {
        let mut log = self.take_log();
        let r = archive_in(&mut log, id);
        proof {
            lemma_log_stays_wf(
                old(self)@,
                id@,
                Move::Commit,
                OperationView {
                    database: Seq::empty(),
                    collection: Seq::empty(),
                    operation_type: OperationType::Insert,
                    document: Seq::empty(),
                },
            );
        }
        self.transaction_log = log;
        r
    }
}

} // verus!
