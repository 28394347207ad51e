use query_gateway::document::{Document, Value};
use query_gateway::error::TranslationError;
use query_gateway::filter::{
    literal_to_sql, translate, translate_comparison, translate_membership, Connective,
    FilterExpression, Operator,
};
use query_gateway::query::{
    operator_named, translate_comparison_operators, translate_expression, translate_query,
};

fn text(s: &str) -> Value {
    Value::Text(s.to_string())
}

fn doc(fields: Vec<(&str, Value)>) -> Document {
    let mut d = Document::new();
    for (name, value) in fields {
        d = d.with(name, value);
    }
    d
}

fn sub(fields: Vec<(&str, Value)>) -> Value {
    Value::Document(doc(fields))
}

fn comparison(field: &str, operator: Operator, value: Value) -> FilterExpression {
    FilterExpression::Comparison { field: field.to_string(), operator, value }
}

#[test]
fn comparison_with_each_operator() {
    let cases = [
        (Operator::Eq, "c.age = 21"),
        (Operator::Ne, "c.age != 21"),
        (Operator::Gt, "c.age > 21"),
        (Operator::Gte, "c.age >= 21"),
        (Operator::Lt, "c.age < 21"),
        (Operator::Lte, "c.age <= 21"),
    ];
    for (operator, expected) in cases {
        assert_eq!(translate(&comparison("age", operator, Value::Int(21))).unwrap(), expected);
    }
}

#[test]
fn comparison_holds_field_and_symbol_once() {
    let names = ["$eq", "$ne", "$gt", "$gte", "$lt", "$lte"];
    let symbols = ["=", "!=", ">", ">=", "<", "<="];
    for (name, symbol) in names.iter().zip(symbols.iter()) {
        let filter = doc(vec![("height", sub(vec![(name, Value::Int(180))]))]);
        let out = translate_query(&filter).unwrap();
        assert_eq!(out, format!("c.height {} 180", symbol));
        assert_eq!(out.matches("height").count(), 1);
        assert_eq!(out.matches(&format!(" {} ", symbol)).count(), 1);
    }
}

#[test]
fn translation_is_repeatable() {
    let filter = doc(vec![
        ("age", sub(vec![("$gte", Value::Int(18)), ("$lt", Value::Int(65))])),
        ("name", sub(vec![("$regex", text("^Jo"))])),
    ]);
    let first = translate_query(&filter).unwrap();
    let second = translate_query(&filter.duplicate()).unwrap();
    assert_eq!(first, second);
    assert_eq!(first, "c.age >= 18 AND c.age < 65 AND CONTAINS(c.name, '^Jo')");
}

#[test]
fn operator_and_implicit_equality_are_conjoined() {
    let filter = doc(vec![("age", sub(vec![("$gt", Value::Int(21))])), ("name", text("John"))]);
    assert_eq!(translate_query(&filter).unwrap(), "c.age > 21 AND c.name = 'John'");
}

#[test]
fn empty_filter_is_true() {
    assert_eq!(translate_query(&Document::new()).unwrap(), "TRUE");
}

#[test]
fn empty_and_is_true_and_empty_or_is_false() {
    let all = FilterExpression::Logical { connective: Connective::And, children: vec![] };
    let any = FilterExpression::Logical { connective: Connective::Or, children: vec![] };
    assert_eq!(translate(&all).unwrap(), "TRUE");
    assert_eq!(translate(&any).unwrap(), "FALSE");
    let filter = doc(vec![("$and", Value::Array(vec![]))]);
    assert_eq!(translate_query(&filter).unwrap(), "TRUE");
    let filter = doc(vec![("$or", Value::Array(vec![]))]);
    assert_eq!(translate_query(&filter).unwrap(), "FALSE");
}

#[test]
fn membership_in_nothing_is_false() {
    let e = FilterExpression::Membership { field: "status".to_string(), values: vec![] };
    assert_eq!(translate(&e).unwrap(), "FALSE");
    assert_eq!(translate_membership("status", &vec![]).unwrap(), "FALSE");
    let filter = doc(vec![("status", sub(vec![("$in", Value::Array(vec![]))]))]);
    assert_eq!(translate_query(&filter).unwrap(), "FALSE");
    let by_hand = comparison("status", Operator::In, Value::Array(vec![]));
    assert_eq!(translate(&by_hand).unwrap(), "FALSE");
}

#[test]
fn membership_lists_the_literals() {
    let filter = doc(vec![(
        "status",
        sub(vec![("$in", Value::Array(vec![text("active"), text("pending"), Value::Int(3)]))]),
    )]);
    assert_eq!(translate_query(&filter).unwrap(), "c.status IN ('active', 'pending', 3)");
}

#[test]
fn logical_nodes_bracket_their_children() {
    let filter = doc(vec![(
        "$or",
        Value::Array(vec![
            sub(vec![("city", text("New York"))]),
            sub(vec![("age", sub(vec![("$lt", Value::Int(30))])), ("vip", Value::Bool(true))]),
        ]),
    )]);
    assert_eq!(
        translate_query(&filter).unwrap(),
        "((c.city = 'New York') OR (c.age < 30 AND c.vip = true))"
    );
    let by_hand = FilterExpression::Logical {
        connective: Connective::Or,
        children: vec![
            comparison("a", Operator::Eq, Value::Int(1)),
            FilterExpression::Logical {
                connective: Connective::And,
                children: vec![
                    comparison("b", Operator::Gt, Value::Int(2)),
                    comparison("c", Operator::Lt, Value::Int(3)),
                ],
            },
        ],
    };
    assert_eq!(translate(&by_hand).unwrap(), "(c.a = 1) OR ((c.b > 2) AND (c.c < 3))");
}

#[test]
fn an_or_group_beside_a_field_stands_in_brackets() {
    let filter = doc(vec![
        (
            "$or",
            Value::Array(vec![sub(vec![("a", Value::Int(1))]), sub(vec![("b", Value::Int(2))])]),
        ),
        ("c", Value::Int(3)),
    ]);
    assert_eq!(translate_query(&filter).unwrap(), "((c.a = 1) OR (c.b = 2)) AND c.c = 3");
    let tree = translate_expression(&filter).unwrap();
    assert_eq!(translate(&tree).unwrap(), "((c.a = 1) OR (c.b = 2)) AND c.c = 3");
}

#[test]
fn an_and_group_beside_a_field_joins_the_conjunction() {
    let filter = doc(vec![
        (
            "$and",
            Value::Array(vec![sub(vec![("a", Value::Int(1))]), sub(vec![("b", Value::Int(2))])]),
        ),
        ("c", Value::Int(3)),
    ]);
    assert_eq!(translate_query(&filter).unwrap(), "(c.a = 1) AND (c.b = 2) AND c.c = 3");
}

#[test]
fn several_operators_on_one_field() {
    let operators = doc(vec![("$gte", Value::Int(18)), ("$lt", Value::Int(65))]);
    let tree = translate_comparison_operators("age", &operators).unwrap();
    assert_eq!(translate(&tree).unwrap(), "c.age >= 18 AND c.age < 65");
    let none = translate_comparison_operators("age", &Document::new()).unwrap();
    assert_eq!(translate(&none).unwrap(), "TRUE");
}

#[test]
fn conjunction_by_hand() {
    let all = FilterExpression::Conjunction(vec![
        comparison("a", Operator::Eq, Value::Int(1)),
        FilterExpression::Logical {
            connective: Connective::Or,
            children: vec![
                comparison("b", Operator::Eq, Value::Int(2)),
                comparison("c", Operator::Eq, Value::Int(3)),
            ],
        },
        FilterExpression::Logical { connective: Connective::Or, children: vec![] },
        FilterExpression::Conjunction(vec![]),
    ]);
    assert_eq!(
        translate(&all).unwrap(),
        "c.a = 1 AND ((c.b = 2) OR (c.c = 3)) AND FALSE AND TRUE"
    );
    assert_eq!(translate(&FilterExpression::Conjunction(vec![])).unwrap(), "TRUE");
}

#[test]
fn the_first_failure_in_document_order_decides() {
    let filter = doc(vec![(
        "$and",
        Value::Array(vec![
            sub(vec![("a", Value::Null)]),
            sub(vec![("b", sub(vec![("$foo", Value::Int(1))]))]),
        ]),
    )]);
    match translate_query(&filter) {
        Err(TranslationError::UnsupportedLiteralType(name)) => assert_eq!(name, "a"),
        other => panic!("unexpected outcome: {:?}", other),
    }
    match translate_expression(&filter) {
        Err(TranslationError::UnsupportedLiteralType(name)) => assert_eq!(name, "a"),
        other => panic!("unexpected outcome: {:?}", other),
    }
    let filter = doc(vec![
        ("a", sub(vec![("$gt", Value::Array(vec![]))])),
        ("$nor", Value::Int(1)),
    ]);
    match translate_expression(&filter) {
        Err(TranslationError::UnsupportedLiteralType(name)) => assert_eq!(name, "a"),
        other => panic!("unexpected outcome: {:?}", other),
    }
    let filter = doc(vec![
        ("a", sub(vec![("$nope", Value::Null)])),
        ("b", Value::Null),
    ]);
    match translate_query(&filter) {
        Err(TranslationError::UnsupportedOperator(name)) => assert_eq!(name, "$nope"),
        other => panic!("unexpected outcome: {:?}", other),
    }
}

#[test]
fn regex_becomes_contains() {
    let e = comparison("name", Operator::Regex, text("ohn"));
    assert_eq!(translate(&e).unwrap(), "CONTAINS(c.name, 'ohn')");
}

#[test]
fn regex_needs_a_text() {
    let filter = doc(vec![("name", sub(vec![("$regex", Value::Int(5))]))]);
    match translate_query(&filter) {
        Err(TranslationError::InvalidOperatorValue(name)) => assert_eq!(name, "name"),
        other => panic!("unexpected outcome: {:?}", other),
    }
}

#[test]
fn in_needs_an_array() {
    let filter = doc(vec![("status", sub(vec![("$in", text("active"))]))]);
    match translate_expression(&filter) {
        Err(TranslationError::InvalidOperatorValue(name)) => assert_eq!(name, "status"),
        other => panic!("unexpected outcome: {:?}", other),
    }
    match translate_comparison("status", Operator::In, &text("active")) {
        Err(TranslationError::InvalidOperatorValue(name)) => assert_eq!(name, "status"),
        other => panic!("unexpected outcome: {:?}", other),
    }
}

#[test]
fn unknown_operator_is_named() {
    let filter = doc(vec![("age", sub(vec![("$near", Value::Int(1))]))]);
    match translate_expression(&filter) {
        Err(TranslationError::UnsupportedOperator(name)) => assert_eq!(name, "$near"),
        other => panic!("unexpected outcome: {:?}", other),
    }
    let filter = doc(vec![("$nor", Value::Array(vec![]))]);
    match translate_query(&filter) {
        Err(TranslationError::UnsupportedOperator(name)) => assert_eq!(name, "$nor"),
        other => panic!("unexpected outcome: {:?}", other),
    }
    match translate_comparison_operators("address", &doc(vec![("city", text("Rome"))])) {
        Err(TranslationError::UnsupportedOperator(name)) => assert_eq!(name, "city"),
        other => panic!("unexpected outcome: {:?}", other),
    }
}

#[test]
fn combinator_needs_an_array_of_documents() {
    let filter = doc(vec![("$and", Value::Int(1))]);
    match translate_query(&filter) {
        Err(TranslationError::InvalidOperatorValue(name)) => assert_eq!(name, "$and"),
        other => panic!("unexpected outcome: {:?}", other),
    }
    let filter = doc(vec![("$or", Value::Array(vec![Value::Int(1)]))]);
    match translate_query(&filter) {
        Err(TranslationError::InvalidOperatorValue(name)) => assert_eq!(name, "$or"),
        other => panic!("unexpected outcome: {:?}", other),
    }
}

#[test]
fn literals_have_their_forms() {
    assert_eq!(literal_to_sql("f", &text("it's")).unwrap(), "'it\\'s'");
    assert_eq!(literal_to_sql("f", &text("a\\b")).unwrap(), "'a\\\\b'");
    assert_eq!(literal_to_sql("f", &text("")).unwrap(), "''");
    assert_eq!(literal_to_sql("f", &Value::Int(0)).unwrap(), "0");
    assert_eq!(literal_to_sql("f", &Value::Int(-42)).unwrap(), "-42");
    assert_eq!(literal_to_sql("f", &Value::Int(i64::MAX)).unwrap(), "9223372036854775807");
    assert_eq!(literal_to_sql("f", &Value::Int(i64::MIN)).unwrap(), "-9223372036854775808");
    assert_eq!(literal_to_sql("f", &Value::Double("2.5".to_string())).unwrap(), "2.5");
    assert_eq!(literal_to_sql("f", &Value::Double("-0.125".to_string())).unwrap(), "-0.125");
    assert_eq!(literal_to_sql("f", &Value::Double("17".to_string())).unwrap(), "17");
    assert_eq!(literal_to_sql("f", &Value::Bool(true)).unwrap(), "true");
    assert_eq!(literal_to_sql("f", &Value::Bool(false)).unwrap(), "false");
}

#[test]
fn other_values_have_no_literal_form() {
    let values = vec![
        Value::Null,
        Value::Array(vec![Value::Int(1)]),
        sub(vec![("a", Value::Int(1))]),
        Value::ObjectId("0123456789abcdef01234567".to_string()),
    ];
    for value in values {
        match literal_to_sql("owner", &value) {
            Err(TranslationError::UnsupportedLiteralType(name)) => assert_eq!(name, "owner"),
            other => panic!("unexpected outcome: {:?}", other),
        }
    }
    let filter = doc(vec![("tags", Value::Array(vec![text("a")]))]);
    match translate_query(&filter) {
        Err(TranslationError::UnsupportedLiteralType(name)) => assert_eq!(name, "tags"),
        other => panic!("unexpected outcome: {:?}", other),
    }
    let filter = doc(vec![("gone", Value::Null)]);
    assert!(matches!(translate_query(&filter), Err(TranslationError::UnsupportedLiteralType(_))));
}

#[test]
fn a_double_must_be_a_plain_decimal_number() {
    for bad in ["NaN", "inf", "-inf", "", "-", ".", "1.", ".5", "1.2.3", "1e5", "1 OR 1=1", "--1", "1-"] {
        match literal_to_sql("price", &Value::Double(bad.to_string())) {
            Err(TranslationError::UnsupportedLiteralType(name)) => assert_eq!(name, "price"),
            other => panic!("unexpected outcome for {:?}: {:?}", bad, other),
        }
    }
    for good in ["0", "-0", "0.0", "3.14", "-2.5", "1000000000000000000000"] {
        assert_eq!(literal_to_sql("price", &Value::Double(good.to_string())).unwrap(), good);
    }
}

#[test]
fn first_failure_in_order_decides() {
    let filter = doc(vec![
        ("a", sub(vec![("$bad", Value::Int(1))])),
        ("$worse", Value::Int(2)),
    ]);
    match translate_query(&filter) {
        Err(TranslationError::UnsupportedOperator(name)) => assert_eq!(name, "$bad"),
        other => panic!("unexpected outcome: {:?}", other),
    }
}

#[test]
fn operator_names_are_recognised() {
    assert_eq!(operator_named("$eq"), Some(Operator::Eq));
    assert_eq!(operator_named("$ne"), Some(Operator::Ne));
    assert_eq!(operator_named("$gt"), Some(Operator::Gt));
    assert_eq!(operator_named("$gte"), Some(Operator::Gte));
    assert_eq!(operator_named("$lt"), Some(Operator::Lt));
    assert_eq!(operator_named("$lte"), Some(Operator::Lte));
    assert_eq!(operator_named("$in"), Some(Operator::In));
    assert_eq!(operator_named("$regex"), Some(Operator::Regex));
    assert_eq!(operator_named("eq"), None);
    assert_eq!(operator_named("$EQ"), None);
}

#[test]
fn document_lookup_finds_the_first_field() {
    let d = doc(vec![("a", Value::Int(1)), ("b", Value::Int(2)), ("a", Value::Int(3))]);
    assert_eq!(d.len(), 3);
    assert!(matches!(d.get("a"), Some(Value::Int(1))));
    assert!(matches!(d.get("b"), Some(Value::Int(2))));
    assert!(d.get("c").is_none());
}
