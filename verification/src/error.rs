//! The errors that the gateway core reports. Each is an ordinary value
//! handed back to the caller; none ends the process.

use vstd::prelude::*;
use vstd::string::*;

verus! {

/// Why a filter, a pipeline or a set of query options could not be
/// translated. A variant that carries a text names the offending field or
/// operator as the caller wrote it.
#[derive(Debug)]
pub enum TranslationError {
    /// A key in operator position that is not a known operator.
    UnsupportedOperator(String),
    /// An operator whose operand has the wrong shape.
    InvalidOperatorValue(String),
    /// A literal that has no form in the target language.
    UnsupportedLiteralType(String),
    /// A sort direction other than `1` or `-1`.
    InvalidSortDirection(String),
    /// A second limit for one plan.
    DuplicateLimitClause,
    /// A projection that both includes and excludes fields.
    MixedProjectionMode,
}

/// The mathematical form of a [`TranslationError`].
pub enum TranslationErrorView {
    UnsupportedOperator(Seq<char>),
    InvalidOperatorValue(Seq<char>),
    UnsupportedLiteralType(Seq<char>),
    InvalidSortDirection(Seq<char>),
    DuplicateLimitClause,
    MixedProjectionMode,
}

impl View for TranslationError {
    type V = TranslationErrorView;

    open spec fn view(&self) -> TranslationErrorView {
        match self {
            TranslationError::UnsupportedOperator(name) => TranslationErrorView::UnsupportedOperator(name@),
            TranslationError::InvalidOperatorValue(name) => TranslationErrorView::InvalidOperatorValue(name@),
            TranslationError::UnsupportedLiteralType(name) => TranslationErrorView::UnsupportedLiteralType(name@),
            TranslationError::InvalidSortDirection(name) => TranslationErrorView::InvalidSortDirection(name@),
            TranslationError::DuplicateLimitClause => TranslationErrorView::DuplicateLimitClause,
            TranslationError::MixedProjectionMode => TranslationErrorView::MixedProjectionMode,
        }
    }
}

/// What a translation error says to the caller: the kind of the failure
/// and, where there is one, the field or operator it is about.
pub open spec fn message_spec(e: TranslationErrorView) -> Seq<char> {
    match e {
        TranslationErrorView::UnsupportedOperator(name) => "unsupported operator: "@ + name,
        TranslationErrorView::InvalidOperatorValue(name) => "invalid operator value: "@ + name,
        TranslationErrorView::UnsupportedLiteralType(name) => "unsupported literal type: "@ + name,
        TranslationErrorView::InvalidSortDirection(name) => "invalid sort direction: "@ + name,
        TranslationErrorView::DuplicateLimitClause => "duplicate limit clause"@,
        TranslationErrorView::MixedProjectionMode => "mixed projection mode"@,
    }
}

impl TranslationError {
    /// The error as a text for the caller.
    pub fn message(&self) -> (r: String)
        ensures
            r@ == message_spec(self@),
    {
        match self {
            TranslationError::UnsupportedOperator(name) => {
                let mut out = String::from_str("unsupported operator: ");
                out.append(name.as_str());
                out
            },
            TranslationError::InvalidOperatorValue(name) => {
                let mut out = String::from_str("invalid operator value: ");
                out.append(name.as_str());
                out
            },
            TranslationError::UnsupportedLiteralType(name) => {
                let mut out = String::from_str("unsupported literal type: ");
                out.append(name.as_str());
                out
            },
            TranslationError::InvalidSortDirection(name) => {
                let mut out = String::from_str("invalid sort direction: ");
                out.append(name.as_str());
                out
            },
            TranslationError::DuplicateLimitClause => String::from_str("duplicate limit clause"),
            TranslationError::MixedProjectionMode => String::from_str("mixed projection mode"),
        }
    }
}

/// The outcome of a translation that yields text, as mathematical values.
pub open spec fn text_outcome(r: Result<String, TranslationError>) -> Result<Seq<char>, TranslationErrorView> {
    match r {
        Ok(s) => Ok(s@),
        Err(e) => Err(e@),
    }
}

/// Why the coordinator refused or failed a transaction.
#[derive(Clone, Copy, Debug, PartialEq, Eq, Structural)]
pub enum TransactionError {
    /// The transaction is unknown or not in a state that allows the call.
    InvalidTransactionState,
    /// A store refused to stage an operation; what had been staged was
    /// undone.
    PrepareFailed,
    /// A store failed while applying or undoing an operation; the stores
    /// may disagree.
    StoreUnavailable,
}

/// What a transaction error says to the caller.
pub open spec fn transaction_message_spec(e: TransactionError) -> Seq<char> {
    match e {
        TransactionError::InvalidTransactionState => "invalid transaction state"@,
        TransactionError::PrepareFailed => "prepare failed"@,
        TransactionError::StoreUnavailable => "store unavailable"@,
    }
}

impl TransactionError {
    /// The error as a text for the caller.
    pub fn message(&self) -> (r: String)
        ensures
            r@ == transaction_message_spec(*self),
    {
        match self {
            TransactionError::InvalidTransactionState => String::from_str(
                "invalid transaction state",
            ),
            TransactionError::PrepareFailed => String::from_str("prepare failed"),
            TransactionError::StoreUnavailable => String::from_str("store unavailable"),
        }
    }
}

/// Why the synchroniser gave a batch up.
#[derive(Clone, Copy, Debug, PartialEq, Eq, Structural)]
pub enum SyncError {
    /// Every permitted attempt to replay the batch failed.
    BatchReplayFailed { attempts: u32 },
}

} // verus!
