//! Change events: what a change feed reports, as the synchroniser sees it.

use vstd::prelude::*;
use vstd::string::*;
use crate::document::{Document, DocumentView, Value, ValueView, lookup};

use crate::text::same_text;
verus! {

/// The kind of a mutation.
#[derive(Clone, Copy, Debug, PartialEq, Eq, Structural)]
pub enum OperationType {
    Insert,
    Update,
    Delete,
}

/// One mutation of a watched collection.
#[derive(Debug)]
pub struct ChangeEvent {
    /// The collection that changed.
    pub collection: String,
    pub operation_type: OperationType,
    /// The identifier of the document that changed.
    pub document_id: String,
    /// When the change happened, in milliseconds.
    pub timestamp: i64,
    /// The whole document for an insert, the best known document for an
    /// update, the key alone for a delete.
    pub data: Document,
}

/// The mathematical form of a [`ChangeEvent`].
pub struct ChangeEventView {
    pub collection: Seq<char>,
    pub operation_type: OperationType,
    pub document_id: Seq<char>,
    pub timestamp: int,
    pub data: DocumentView,
}

impl View for ChangeEvent {
    type V = ChangeEventView;

    open spec fn view(&self) -> ChangeEventView {
        ChangeEventView {
            collection: self.collection@,
            operation_type: self.operation_type,
            document_id: self.document_id@,
            timestamp: self.timestamp as int,
            data: self.data@,
        }
    }
}

/// One notification of a change feed as the store delivers it: every part
/// but the name of the operation may be missing.
#[derive(Debug)]
pub struct RawChange {
    /// The name of the operation as the feed writes it.
    pub operation_type: String,
    /// The collection of the namespace, where the feed gave one.
    pub collection: Option<String>,
    /// The key of the document that changed.
    pub document_key: Option<Document>,
    /// The time of the change on the store's clock, in milliseconds.
    pub cluster_time: Option<i64>,
    /// The document after the change.
    pub full_document: Option<Document>,
    /// The fields that an update set.
    pub updated_fields: Option<Document>,
}

/// The mathematical form of a [`RawChange`].
pub struct RawChangeView {
    pub operation_type: Seq<char>,
    pub collection: Option<Seq<char>>,
    pub document_key: Option<DocumentView>,
    pub cluster_time: Option<int>,
    pub full_document: Option<DocumentView>,
    pub updated_fields: Option<DocumentView>,
}

/// An optional document as an optional sequence of fields.
pub open spec fn document_option(o: Option<Document>) -> Option<DocumentView> {
    match o {
        Some(d) => Some(d@),
        None => None,
    }
}

impl View for RawChange {
    type V = RawChangeView;

    open spec fn view(&self) -> RawChangeView {
        RawChangeView {
            operation_type: self.operation_type@,
            collection: match self.collection {
                Some(c) => Some(c@),
                None => None,
            },
            document_key: document_option(self.document_key),
            cluster_time: match self.cluster_time {
                Some(t) => Some(t as int),
                None => None,
            },
            full_document: document_option(self.full_document),
            updated_fields: document_option(self.updated_fields),
        }
    }
}

/// The kind of mutation that a feed's operation name stands for. A name
/// that is none of the three known ones counts as an insert.
pub open spec fn operation_from_name(name: Seq<char>) -> OperationType {
    if name == "update"@ {
        OperationType::Update
    } else if name == "delete"@ {
        OperationType::Delete
    } else {
        OperationType::Insert
    }
}

/// The identifier that a document key holds: the store-assigned identifier
/// under `_id`, or `unknown` where there is none.
pub open spec fn identifier_of(key: Option<DocumentView>) -> Seq<char> {
    match key {
        Some(d) => match lookup(d, "_id"@) {
            Some(ValueView::ObjectId(hex)) => hex,
            _ => "unknown"@,
        },
        None => "unknown"@,
    }
}

/// A document, or one without fields where there is none.
pub open spec fn document_or_empty(o: Option<DocumentView>) -> DocumentView {
    match o {
        Some(d) => d,
        None => Seq::empty(),
    }
}

/// The payload of the event that a notification stands for.
pub open spec fn payload_of(operation: OperationType, raw: RawChangeView) -> DocumentView {
    match operation {
        OperationType::Insert => document_or_empty(raw.full_document),
        OperationType::Update => match raw.full_document {
            Some(d) => d,
            None => document_or_empty(raw.updated_fields),
        },
        OperationType::Delete => document_or_empty(raw.document_key),
    }
}

/// The event that a notification stands for, read at the time `now`.
pub open spec fn change_event_spec(raw: RawChangeView, now: int) -> ChangeEventView {
    let operation = operation_from_name(raw.operation_type);
    ChangeEventView {
        collection: match raw.collection {
            Some(c) => c,
            None => "unknown"@,
        },
        operation_type: operation,
        document_id: identifier_of(raw.document_key),
        timestamp: match raw.cluster_time {
            Some(t) => t,
            None => now,
        },
        data: payload_of(operation, raw),
    }
}

/// The event that stands for a notification that could not be read.
pub open spec fn unreadable_event_spec(now: int) -> ChangeEventView {
    ChangeEventView {
        collection: "error"@,
        operation_type: OperationType::Insert,
        document_id: "error"@,
        timestamp: now,
        data: Seq::empty(),
    }
}

/// The event that an item of the feed stands for.
pub open spec fn feed_event_spec(item: Option<RawChangeView>, now: int) -> ChangeEventView {
    match item {
        Some(raw) => change_event_spec(raw, now),
        None => unreadable_event_spec(now),
    }
}

/// An optional notification as mathematical values.
pub open spec fn raw_option(item: Option<RawChange>) -> Option<RawChangeView> {
    match item {
        Some(raw) => Some(raw@),
        None => None,
    }
}

/// Recognises the kind of mutation that a feed's operation name stands for.
pub fn operation_named(name: &str) -> (r: OperationType)
    ensures
        r == operation_from_name(name@),
{
    if same_text(name, "update") {
        OperationType::Update
    } else if same_text(name, "delete") {
        OperationType::Delete
    } else {
        OperationType::Insert
    }
}

/// Reads the identifier that a document key holds.
pub fn document_identifier(key: &Option<Document>) -> (r: String)
    ensures
        r@ == identifier_of(document_option(*key)),
{
    match key {
        Some(d) => match d.get("_id") {
            Some(Value::ObjectId(hex)) => hex.clone(),
            _ => String::from_str("unknown"),
        },
        None => String::from_str("unknown"),
    }
}

/// Hands out a document, or one without fields where there is none.
pub fn unwrap_document(o: Option<Document>) -> (r: Document)
    ensures
        r@ == document_or_empty(document_option(o)),
{
    match o {
        Some(d) => d,
        None => Document::new(),
    }
}

/// Turns one notification of a change feed into a change event.
///
/// `now` is the caller's clock in milliseconds; it dates an event whose
/// notification bears no time of its own.
pub fn read_change(raw: RawChange, now: i64) -> (r: ChangeEvent)
    ensures
        r@ == change_event_spec(raw@, now as int),
{
    let operation_type = operation_named(raw.operation_type.as_str());
    let collection = match raw.collection {
        Some(c) => c,
        None => String::from_str("unknown"),
    };
    let document_id = document_identifier(&raw.document_key);
    let timestamp = match raw.cluster_time {
        Some(t) => t,
        None => now,
    };
    let data = match operation_type {
        OperationType::Insert => unwrap_document(raw.full_document),
        OperationType::Update => match raw.full_document {
            Some(d) => d,
            None => unwrap_document(raw.updated_fields),
        },
        OperationType::Delete => unwrap_document(raw.document_key),
    };
    ChangeEvent { collection, operation_type, document_id, timestamp, data }
}

/// Turns one item of a change feed into a change event. An item that could
/// not be read becomes a marker event whose collection and identifier are
/// `error`.
pub fn feed_event(item: Option<RawChange>, now: i64) -> (r: ChangeEvent)
    ensures
        r@ == feed_event_spec(raw_option(item), now as int),
{
    match item {
        Some(raw) => read_change(raw, now),
        None => ChangeEvent {
            collection: String::from_str("error"),
            operation_type: OperationType::Insert,
            document_id: String::from_str("error"),
            timestamp: now,
            data: Document::new(),
        },
    }
}

} // verus!
