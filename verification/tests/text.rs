use query_gateway::document::{Document, Value};
use query_gateway::error::{TransactionError, TranslationError};
use query_gateway::plan::{conjoin_texts, optional_number_text};
use query_gateway::text::{
    begins_with, decimal_number, integer_text, join_bracketed, join_texts, quote_text,
    same_text,
};

fn strings(items: &[&str]) -> Vec<String> {
    items.iter().map(|s| s.to_string()).collect()
}

#[test]
fn integers_in_decimal() {
    assert_eq!(integer_text(0), "0");
    assert_eq!(integer_text(7), "7");
    assert_eq!(integer_text(10), "10");
    assert_eq!(integer_text(-1), "-1");
    assert_eq!(integer_text(1_234_567_890), "1234567890");
    assert_eq!(integer_text(i64::MAX), i64::MAX.to_string());
    assert_eq!(integer_text(i64::MIN), i64::MIN.to_string());
    for n in [-1000i64, -99, -10, 9, 99, 100, 101, 65_535] {
        assert_eq!(integer_text(n), n.to_string());
    }
}

#[test]
fn quoting_escapes_quotes_and_backslashes() {
    assert_eq!(quote_text("John"), "'John'");
    assert_eq!(quote_text(""), "''");
    assert_eq!(quote_text("O'Brien"), "'O\\'Brien'");
    assert_eq!(quote_text("'"), "'\\''");
    assert_eq!(quote_text("\\"), "'\\\\'");
    assert_eq!(quote_text("a\\'b"), "'a\\\\\\'b'");
    assert_eq!(quote_text("naïve – ☃"), "'naïve – ☃'");
}

#[test]
fn joining() {
    assert_eq!(join_texts(&strings(&[]), ", "), "");
    assert_eq!(join_texts(&strings(&["a"]), ", "), "a");
    assert_eq!(join_texts(&strings(&["a", "b", "c"]), ", "), "a, b, c");
    assert_eq!(join_texts(&strings(&["a", "", "c"]), "-"), "a--c");
    assert_eq!(join_bracketed(&strings(&[]), " AND "), "");
    assert_eq!(join_bracketed(&strings(&["x"]), " AND "), "(x)");
    assert_eq!(join_bracketed(&strings(&["x", "y"]), " OR "), "(x) OR (y)");
}

#[test]
fn predicates_taken_together() {
    assert_eq!(conjoin_texts(&strings(&[])), "TRUE");
    assert_eq!(conjoin_texts(&strings(&["c.a = 1"])), "c.a = 1");
    assert_eq!(conjoin_texts(&strings(&["c.a = 1", "c.b = 2"])), "(c.a = 1) AND (c.b = 2)");
    assert_eq!(optional_number_text(None), "");
    assert_eq!(optional_number_text(Some(-3)), "-3");
}

#[test]
fn comparing_texts() {
    assert!(same_text("", ""));
    assert!(same_text("$and", "$and"));
    assert!(!same_text("$and", "$an"));
    assert!(!same_text("$and", "$anD"));
    assert!(!same_text("é", "e"));
    assert!(same_text("日本語", "日本語"));
    assert!(begins_with("$gt", '$'));
    assert!(!begins_with("gt$", '$'));
    assert!(!begins_with("", '$'));
}

#[test]
fn plain_decimal_numbers() {
    assert!(decimal_number("7"));
    assert!(decimal_number("-7"));
    assert!(decimal_number("7.25"));
    assert!(decimal_number("-0.5"));
    assert!(!decimal_number(""));
    assert!(!decimal_number("-"));
    assert!(!decimal_number("7."));
    assert!(!decimal_number(".7"));
    assert!(!decimal_number("7..2"));
    assert!(!decimal_number("7.2.1"));
    assert!(!decimal_number("7-"));
    assert!(!decimal_number("+7"));
    assert!(!decimal_number("seven"));
    assert!(!decimal_number("７"));
}

#[test]
fn copies_are_deep() {
    let inner = Document::new().with("k", Value::Array(vec![Value::Int(1), Value::Null]));
    let d = Document::new()
        .with("a", Value::Document(inner))
        .with("b", Value::Double("1.5".to_string()))
        .with("c", Value::Other("{\"$date\":0}".to_string()));
    let copy = d.duplicate();
    assert_eq!(format!("{:?}", copy), format!("{:?}", d));
    assert_eq!(copy.len(), 3);
}

#[test]
fn errors_say_what_they_are_about() {
    assert_eq!(
        TranslationError::UnsupportedOperator("$near".to_string()).message(),
        "unsupported operator: $near"
    );
    assert_eq!(
        TranslationError::InvalidOperatorValue("$in".to_string()).message(),
        "invalid operator value: $in"
    );
    assert_eq!(
        TranslationError::UnsupportedLiteralType("tags".to_string()).message(),
        "unsupported literal type: tags"
    );
    assert_eq!(
        TranslationError::InvalidSortDirection("age".to_string()).message(),
        "invalid sort direction: age"
    );
    assert_eq!(TranslationError::DuplicateLimitClause.message(), "duplicate limit clause");
    assert_eq!(TranslationError::MixedProjectionMode.message(), "mixed projection mode");
    assert_eq!(
        TransactionError::InvalidTransactionState.message(),
        "invalid transaction state"
    );
    assert_eq!(TransactionError::PrepareFailed.message(), "prepare failed");
    assert_eq!(TransactionError::StoreUnavailable.message(), "store unavailable");
}
