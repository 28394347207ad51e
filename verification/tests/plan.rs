use query_gateway::aggregate::{
    read_stage, translate_aggregate_pipeline, translate_group,
};
use query_gateway::builder::{
    build_projection, build_sort_clause, build_sql_query, QueryOptions,
};
use query_gateway::document::{Document, Value};
use query_gateway::error::TranslationError;
use query_gateway::filter::{FilterExpression, Operator};
use query_gateway::pipeline::{
    translate_stage, Aggregate, AggregateFunction, AggregateSource, PipelineStage, SortKey,
};
use query_gateway::plan::QueryPlanBuilder;

fn text(s: &str) -> Value {
    Value::Text(s.to_string())
}

fn doc(fields: Vec<(&str, Value)>) -> Document {
    let mut d = Document::new();
    for (name, value) in fields {
        d = d.with(name, value);
    }
    d
}

fn sub(fields: Vec<(&str, Value)>) -> Value {
    Value::Document(doc(fields))
}

fn older_than(age: i64) -> FilterExpression {
    FilterExpression::Comparison {
        field: "age".to_string(),
        operator: Operator::Gt,
        value: Value::Int(age),
    }
}

#[test]
fn plan_from_options() {
    let options = QueryOptions {
        limit: Some(10),
        skip: Some(0),
        sort: Some(doc(vec![("age", Value::Int(-1))])),
        projection: Some(doc(vec![("name", Value::Int(1)), ("age", Value::Int(1))])),
    };
    let plan = build_sql_query(&Document::new(), &options, &vec![]).unwrap();
    assert_eq!(plan.limit, "10");
    assert_eq!(plan.offset, "0");
    assert_eq!(plan.order_by, " ORDER BY c.age DESC");
    assert_eq!(plan.projection, vec!["c.name", "c.age"]);
    assert_eq!(plan.predicate, "TRUE");
    assert!(plan.group_by.is_empty());
    assert!(plan.having.is_empty());
    assert_eq!(
        plan.to_sql(),
        "SELECT c.name, c.age FROM c WHERE TRUE ORDER BY c.age DESC OFFSET 0 LIMIT 10"
    );
}

#[test]
fn plan_without_options_selects_everything() {
    let filter = doc(vec![("name", text("John"))]);
    let plan = build_sql_query(&filter, &QueryOptions::none(), &vec![]).unwrap();
    assert!(plan.projection.is_empty());
    assert_eq!(plan.predicate, "c.name = 'John'");
    assert_eq!(plan.order_by, "");
    assert_eq!(plan.offset, "");
    assert_eq!(plan.limit, "");
    assert_eq!(plan.to_sql(), "SELECT * FROM c WHERE c.name = 'John'");
}

#[test]
fn same_inputs_same_plan() {
    let filter = doc(vec![("age", sub(vec![("$gt", Value::Int(21))]))]);
    let options = QueryOptions {
        limit: Some(5),
        skip: None,
        sort: Some(doc(vec![("name", Value::Int(1))])),
        projection: None,
    };
    let pipeline = vec![doc(vec![("$match", sub(vec![("vip", Value::Bool(true))]))])];
    let first = build_sql_query(&filter, &options, &pipeline).unwrap();
    let second = build_sql_query(&filter, &options, &pipeline).unwrap();
    assert_eq!(first.to_sql(), second.to_sql());
    assert_eq!(
        first.to_sql(),
        "SELECT * FROM c WHERE (c.age > 21) AND (c.vip = true) ORDER BY c.name ASC LIMIT 5"
    );
}

#[test]
fn test_complex_query() {
    let query = doc(vec![(
        "$and",
        Value::Array(vec![
            sub(vec![("age", sub(vec![("$gt", Value::Int(21))]))]),
            sub(vec![(
                "$or",
                Value::Array(vec![
                    sub(vec![("city", text("New York"))]),
                    sub(vec![("city", text("Los Angeles"))]),
                ]),
            )]),
            sub(vec![(
                "status",
                sub(vec![("$in", Value::Array(vec![text("active"), text("pending")]))]),
            )]),
        ]),
    )]);
    let options = QueryOptions {
        limit: Some(10),
        skip: Some(20),
        sort: Some(doc(vec![("age", Value::Int(-1)), ("name", Value::Int(1))])),
        projection: Some(doc(vec![
            ("name", Value::Int(1)),
            ("age", Value::Int(1)),
            ("city", Value::Int(1)),
        ])),
    };
    let plan = build_sql_query(&query, &options, &vec![]).unwrap();
    assert_eq!(plan.projection, vec!["c.name", "c.age", "c.city"]);
    assert_eq!(
        plan.predicate,
        "(c.age > 21) AND (((c.city = 'New York') OR (c.city = 'Los Angeles'))) AND (c.status IN ('active', 'pending'))"
    );
    assert_eq!(plan.order_by, " ORDER BY c.age DESC, c.name ASC");
    assert_eq!(plan.offset, "20");
    assert_eq!(plan.limit, "10");
    assert_eq!(
        plan.to_sql(),
        "SELECT c.name, c.age, c.city FROM c WHERE (c.age > 21) AND (((c.city = 'New York') OR (c.city = 'Los Angeles'))) AND (c.status IN ('active', 'pending')) ORDER BY c.age DESC, c.name ASC OFFSET 20 LIMIT 10"
    );
}

#[test]
fn test_aggregation() {
    let pipeline = vec![
        doc(vec![("$match", sub(vec![("age", sub(vec![("$gt", Value::Int(21))]))]))]),
        doc(vec![(
            "$group",
            sub(vec![
                ("_id", sub(vec![("city", text("$city"))])),
                ("avg_age", sub(vec![("$avg", text("$age"))])),
                ("count", sub(vec![("$sum", Value::Int(1))])),
            ]),
        )]),
        doc(vec![("$sort", sub(vec![("count", Value::Int(-1))]))]),
        doc(vec![("$limit", Value::Int(5))]),
    ];
    assert_eq!(
        translate_aggregate_pipeline(&pipeline).unwrap(),
        "SELECT AVG(c.age) AS avg_age, SUM(1) AS count FROM c WHERE c.age > 21 GROUP BY c.city ORDER BY c.count DESC LIMIT 5"
    );
}

#[test]
fn match_after_group_is_a_group_predicate() {
    let pipeline = vec![
        doc(vec![("$match", sub(vec![("age", sub(vec![("$gt", Value::Int(21))]))]))]),
        doc(vec![(
            "$group",
            sub(vec![("_id", text("$city")), ("total", sub(vec![("$sum", text("$amount"))]))]),
        )]),
        doc(vec![("$match", sub(vec![("total", sub(vec![("$gte", Value::Int(100))]))]))]),
    ];
    let plan = build_sql_query(&Document::new(), &QueryOptions::none(), &pipeline).unwrap();
    assert_eq!(plan.predicate, "c.age > 21");
    assert_eq!(plan.having, vec!["c.total >= 100"]);
    assert_eq!(plan.group_by, vec!["c.city"]);
    assert_eq!(plan.projection, vec!["SUM(c.amount) AS total"]);
    assert_eq!(
        plan.to_sql(),
        "SELECT SUM(c.amount) AS total FROM c WHERE c.age > 21 GROUP BY c.city HAVING (c.total >= 100)"
    );
}

#[test]
fn stages_change_the_builder_in_order() {
    let mut b = QueryPlanBuilder::new();
    translate_stage(&PipelineStage::Match(older_than(30)), &mut b).unwrap();
    assert_eq!(b.filters, vec!["c.age > 30"]);
    assert!(b.having.is_empty());
    assert!(!b.grouped);
    let group = PipelineStage::Group {
        keys: vec!["city".to_string(), "year".to_string()],
        aggregates: vec![
            Aggregate {
                output: "n".to_string(),
                function: AggregateFunction::Count,
                source: AggregateSource::Field("id".to_string()),
            },
            Aggregate {
                output: "lo".to_string(),
                function: AggregateFunction::Min,
                source: AggregateSource::Field("age".to_string()),
            },
            Aggregate {
                output: "hi".to_string(),
                function: AggregateFunction::Max,
                source: AggregateSource::Field("age".to_string()),
            },
        ],
    };
    translate_stage(&group, &mut b).unwrap();
    assert!(b.grouped);
    assert_eq!(b.group_by, vec!["c.city", "c.year"]);
    assert_eq!(
        b.columns,
        vec!["COUNT(c.id) AS n", "MIN(c.age) AS lo", "MAX(c.age) AS hi"]
    );
    translate_stage(&PipelineStage::Match(older_than(40)), &mut b).unwrap();
    assert_eq!(b.filters, vec!["c.age > 30"]);
    assert_eq!(b.having, vec!["c.age > 40"]);
    let sort = PipelineStage::Sort(vec![
        SortKey { field: "n".to_string(), direction: -1 },
        SortKey { field: "city".to_string(), direction: 1 },
    ]);
    translate_stage(&sort, &mut b).unwrap();
    assert_eq!(b.order_by, vec!["c.n DESC", "c.city ASC"]);
    translate_stage(&PipelineStage::Limit(7), &mut b).unwrap();
    assert_eq!(b.limit, Some(7));
    let plan = b.build();
    assert_eq!(
        plan.to_sql(),
        "SELECT COUNT(c.id) AS n, MIN(c.age) AS lo, MAX(c.age) AS hi FROM c WHERE c.age > 30 GROUP BY c.city, c.year HAVING (c.age > 40) ORDER BY c.n DESC, c.city ASC LIMIT 7"
    );
}

#[test]
fn second_limit_is_refused() {
    let mut b = QueryPlanBuilder::new();
    translate_stage(&PipelineStage::Limit(5), &mut b).unwrap();
    let r = translate_stage(&PipelineStage::Limit(9), &mut b);
    assert!(matches!(r, Err(TranslationError::DuplicateLimitClause)));
    assert_eq!(b.limit, Some(5));
    let options = QueryOptions { limit: Some(1), skip: None, sort: None, projection: None };
    let pipeline = vec![doc(vec![("$limit", Value::Int(2))])];
    assert!(matches!(
        build_sql_query(&Document::new(), &options, &pipeline),
        Err(TranslationError::DuplicateLimitClause)
    ));
}

#[test]
fn sort_direction_must_be_one_or_minus_one() {
    let mut b = QueryPlanBuilder::new();
    let sort = PipelineStage::Sort(vec![
        SortKey { field: "a".to_string(), direction: 1 },
        SortKey { field: "b".to_string(), direction: 2 },
    ]);
    match translate_stage(&sort, &mut b) {
        Err(TranslationError::InvalidSortDirection(name)) => assert_eq!(name, "b"),
        other => panic!("unexpected outcome: {:?}", other),
    }
    assert!(b.order_by.is_empty());
    match build_sort_clause(&doc(vec![("age", Value::Int(0))])) {
        Err(TranslationError::InvalidSortDirection(name)) => assert_eq!(name, "age"),
        other => panic!("unexpected outcome: {:?}", other),
    }
    match build_sort_clause(&doc(vec![("age", Value::Int(5)), ("name", text("up"))])) {
        Err(TranslationError::InvalidSortDirection(name)) => assert_eq!(name, "age"),
        other => panic!("unexpected outcome: {:?}", other),
    }
    match read_stage("$sort", &sub(vec![("a", Value::Int(1)), ("b", Value::Int(2))])) {
        Err(TranslationError::InvalidSortDirection(name)) => assert_eq!(name, "b"),
        other => panic!("unexpected outcome: {:?}", other),
    }
    match build_sort_clause(&doc(vec![("age", text("desc"))])) {
        Err(TranslationError::InvalidSortDirection(name)) => assert_eq!(name, "age"),
        other => panic!("unexpected outcome: {:?}", other),
    }
}

#[test]
fn sort_clause_lists_the_fields() {
    let sort = doc(vec![("age", Value::Int(-1)), ("name", Value::Int(1))]);
    assert_eq!(build_sort_clause(&sort).unwrap(), " ORDER BY c.age DESC, c.name ASC");
    assert_eq!(build_sort_clause(&Document::new()).unwrap(), "");
}

#[test]
fn projection_modes() {
    let chosen = doc(vec![("name", Value::Int(1)), ("age", Value::Int(1))]);
    assert_eq!(build_projection(&chosen).unwrap(), vec!["c.name", "c.age"]);
    let hidden = doc(vec![("secret", Value::Int(0))]);
    assert!(build_projection(&hidden).unwrap().is_empty());
    assert!(build_projection(&Document::new()).unwrap().is_empty());
    let mixed = doc(vec![("name", Value::Int(1)), ("secret", Value::Int(0))]);
    assert!(matches!(build_projection(&mixed), Err(TranslationError::MixedProjectionMode)));
    let mixed = doc(vec![("secret", Value::Int(0)), ("name", Value::Int(1))]);
    assert!(matches!(build_projection(&mixed), Err(TranslationError::MixedProjectionMode)));
    match build_projection(&doc(vec![("name", Value::Int(2))])) {
        Err(TranslationError::InvalidOperatorValue(name)) => assert_eq!(name, "name"),
        other => panic!("unexpected outcome: {:?}", other),
    }
}

#[test]
fn group_is_read_from_its_document() {
    let group = doc(vec![
        ("_id", sub(vec![("c", text("$city")), ("y", text("year"))])),
        ("avg_age", sub(vec![("$avg", text("$age"))])),
    ]);
    match translate_group(&group).unwrap() {
        PipelineStage::Group { keys, aggregates } => {
            assert_eq!(keys, vec!["city", "year"]);
            assert_eq!(aggregates.len(), 1);
            assert_eq!(aggregates[0].output, "avg_age");
            assert_eq!(aggregates[0].function, AggregateFunction::Avg);
            assert!(matches!(&aggregates[0].source, AggregateSource::Field(f) if f == "age"));
        }
        other => panic!("unexpected stage: {:?}", other),
    }
    let no_key = doc(vec![("_id", Value::Null), ("n", sub(vec![("$count", text("$id"))]))]);
    match translate_group(&no_key).unwrap() {
        PipelineStage::Group { keys, aggregates } => {
            assert!(keys.is_empty());
            assert_eq!(aggregates[0].function, AggregateFunction::Count);
        }
        other => panic!("unexpected stage: {:?}", other),
    }
}

#[test]
fn group_failures() {
    let unknown = doc(vec![("m", sub(vec![("$median", text("$age"))]))]);
    match translate_group(&unknown) {
        Err(TranslationError::UnsupportedOperator(name)) => assert_eq!(name, "$median"),
        other => panic!("unexpected outcome: {:?}", other),
    }
    let two = doc(vec![("m", sub(vec![("$min", text("$a")), ("$max", text("$a"))]))]);
    match translate_group(&two) {
        Err(TranslationError::InvalidOperatorValue(name)) => assert_eq!(name, "m"),
        other => panic!("unexpected outcome: {:?}", other),
    }
    let bad_key = doc(vec![("_id", Value::Int(3))]);
    match translate_group(&bad_key) {
        Err(TranslationError::InvalidOperatorValue(name)) => assert_eq!(name, "_id"),
        other => panic!("unexpected outcome: {:?}", other),
    }
}

#[test]
fn unknown_stage_is_named() {
    match read_stage("$unwind", &text("$tags")) {
        Err(TranslationError::UnsupportedOperator(name)) => assert_eq!(name, "$unwind"),
        other => panic!("unexpected outcome: {:?}", other),
    }
    match read_stage("$limit", &text("5")) {
        Err(TranslationError::InvalidOperatorValue(name)) => assert_eq!(name, "$limit"),
        other => panic!("unexpected outcome: {:?}", other),
    }
    match read_stage("$match", &Value::Int(1)) {
        Err(TranslationError::InvalidOperatorValue(name)) => assert_eq!(name, "$match"),
        other => panic!("unexpected outcome: {:?}", other),
    }
}

#[test]
fn failed_stage_leaves_the_builder_alone() {
    let mut b = QueryPlanBuilder::new();
    translate_stage(&PipelineStage::Match(older_than(1)), &mut b).unwrap();
    let bad = PipelineStage::Match(FilterExpression::Comparison {
        field: "x".to_string(),
        operator: Operator::Eq,
        value: Value::Null,
    });
    assert!(translate_stage(&bad, &mut b).is_err());
    assert_eq!(b.filters, vec!["c.age > 1"]);
    assert!(b.having.is_empty());
}
