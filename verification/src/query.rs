//! Reading a filter document: from the raw document that a client sends to
//! the filter expression it stands for, and on to the predicate.

use vstd::prelude::*;
use vstd::string::*;
use crate::document::{
    Document, DocumentView, Value, ValueView, lemma_value_view_unfold, values_view,
};
use crate::error::{TranslationError, TranslationErrorView, text_outcome};
use crate::filter::{
    Connective, FilterExpression, FilterView, Operator, filters_view, lemma_logical_view,
    lemma_translate_conjunction, lemma_translate_logical, standing_outcomes, translate,
    translate_outcomes, translate_spec,
};
use crate::outcome::{
    gather, successes, lemma_first_failure, lemma_gather_fails_at, lemma_gather_succeeds,
};
use crate::text::{begins_with, same_text, starts_with_char};

verus! {

/// The outcome of reading a filter, as mathematical values.
pub open spec fn filter_outcome(r: Result<FilterExpression, TranslationError>) -> Result<
    FilterView,
    TranslationErrorView,
> {
    match r {
        Ok(e) => Ok(e@),
        Err(e) => Err(e@),
    }
}

/// The operator that a key in operator position names.
pub open spec fn operator_from_name(name: Seq<char>) -> Option<Operator> {
    if name == "$eq"@ {
        Some(Operator::Eq)
    } else if name == "$ne"@ {
        Some(Operator::Ne)
    } else if name == "$gt"@ {
        Some(Operator::Gt)
    } else if name == "$gte"@ {
        Some(Operator::Gte)
    } else if name == "$lt"@ {
        Some(Operator::Lt)
    } else if name == "$lte"@ {
        Some(Operator::Lte)
    } else if name == "$in"@ {
        Some(Operator::In)
    } else if name == "$regex"@ {
        Some(Operator::Regex)
    } else {
        None
    }
}

/// A leaf that was checked as it was read: the leaf itself where it can
/// be translated, otherwise the failure of its translation.
pub open spec fn checked(leaf: FilterView) -> Result<FilterView, TranslationErrorView> {
    match translate_spec(leaf) {
        Ok(_) => Ok(leaf),
        Err(e) => Err(e),
    }
}

/// The leaf that one entry of an operator document stands for. An unknown
/// operator is rejected under its own name; `$in` asks for an array; and
/// the leaf is checked as it is read.
pub open spec fn operator_condition(field: Seq<char>, name: Seq<char>, value: ValueView) -> Result<
    FilterView,
    TranslationErrorView,
> {
    match operator_from_name(name) {
        None => Err(TranslationErrorView::UnsupportedOperator(name)),
        Some(Operator::In) => match value {
            ValueView::Array(items) => checked(FilterView::Membership { field, values: items }),
            _ => Err(TranslationErrorView::InvalidOperatorValue(field)),
        },
        Some(operator) => checked(FilterView::Comparison { field, operator, value }),
    }
}

/// The leaves of an operator document, entry by entry.
pub open spec fn operator_outcomes(field: Seq<char>, operators: DocumentView) -> Seq<
    Result<FilterView, TranslationErrorView>,
> {
    Seq::new(
        operators.len(),
        |i: int| operator_condition(field, operators[i].0, operators[i].1),
    )
}

/// The conjunction of a list of conditions.
pub open spec fn conjunction(nodes: Seq<FilterView>) -> FilterView {
    FilterView::Conjunction(nodes)
}

/// What an operator document says of one field: the conjunction of its
/// entries, or the first failure among them.
pub open spec fn comparison_operators_spec(field: Seq<char>, operators: DocumentView) -> Result<
    FilterView,
    TranslationErrorView,
> {
    match gather(operator_outcomes(field, operators)) {
        Ok(nodes) => Ok(conjunction(nodes)),
        Err(e) => Err(e),
    }
}

/// The filter expression that a document stands for: the conjunction of
/// what its fields say, in order, or the first failure among them.
///
/// Every leaf is checked as it is read. The failure is therefore that of
/// the first field or child in the order of the document, whether it is a
/// failure of reading or of translating, and an expression that was read
/// translates without failure.
pub open spec fn expression_spec(d: DocumentView) -> Result<FilterView, TranslationErrorView>
    decreases d, 1nat,
{
    match gather(field_outcomes(d)) {
        Ok(nodes) => Ok(conjunction(nodes)),
        Err(e) => Err(e),
    }
}

/// What each field of a filter document says, in order.
pub open spec fn field_outcomes(d: DocumentView) -> Seq<Result<FilterView, TranslationErrorView>>
    decreases d, 0nat,
{
    Seq::new(
        d.len(),
        |i: int|
            if 0 <= i < d.len() {
                field_condition(d[i].0, d[i].1)
            } else {
                Err(TranslationErrorView::DuplicateLimitClause)
            },
    )
}

/// What one field of a filter document says. `$and` and `$or` combine the
/// documents of an array; any other key that begins with `$` is rejected;
/// any other key names a field, compared by the operators of a document or
/// tested for equality with any other value.
pub open spec fn field_condition(name: Seq<char>, value: ValueView) -> Result<
    FilterView,
    TranslationErrorView,
>
    decreases value, 2nat,
{
    if name == "$and"@ {
        logical_spec(Connective::And, name, value)
    } else if name == "$or"@ {
        logical_spec(Connective::Or, name, value)
    } else if starts_with_char(name, '$') {
        Err(TranslationErrorView::UnsupportedOperator(name))
    } else {
        match value {
            ValueView::Document(operators) => comparison_operators_spec(name, operators),
            _ => checked(FilterView::Comparison { field: name, operator: Operator::Eq, value }),
        }
    }
}

/// The logical node that a combinator key stands for. Its value must be an
/// array of documents; anything else is rejected under the key's name.
pub open spec fn logical_spec(connective: Connective, name: Seq<char>, value: ValueView) -> Result<
    FilterView,
    TranslationErrorView,
>
    decreases value, 1nat,
{
    match value {
        ValueView::Array(items) => match gather(branch_outcomes(name, value)) {
            Ok(children) => Ok(FilterView::Logical { connective, children }),
            Err(e) => Err(e),
        },
        _ => Err(TranslationErrorView::InvalidOperatorValue(name)),
    }
}

/// The expressions of the documents under a combinator key, in order.
pub open spec fn branch_outcomes(name: Seq<char>, value: ValueView) -> Seq<
    Result<FilterView, TranslationErrorView>,
>
    decreases value, 0nat,
{
    match value {
        ValueView::Array(items) => Seq::new(
            items.len(),
            |j: int|
                if 0 <= j < items.len() {
                    match items[j] {
                        ValueView::Document(sub) => expression_spec(sub),
                        _ => Err(TranslationErrorView::InvalidOperatorValue(name)),
                    }
                } else {
                    Err(TranslationErrorView::InvalidOperatorValue(name))
                },
        ),
        _ => Seq::empty(),
    }
}

/// The predicate that a filter document translates to: that of the
/// expression it stands for.
pub open spec fn query_spec(d: DocumentView) -> Result<Seq<char>, TranslationErrorView> {
    match expression_spec(d) {
        Ok(e) => translate_spec(e),
        Err(e) => Err(e),
    }
}

/// An expression that was read from an operator document translates
/// without failure.
pub proof fn lemma_read_operators_translate(field: Seq<char>, operators: DocumentView)
    ensures
        comparison_operators_spec(field, operators) matches Ok(e) ==> translate_spec(e) is Ok,
{
    let outcomes = operator_outcomes(field, operators);
    if gather(outcomes) is Ok {
        lemma_first_failure(outcomes);
        let nodes = successes(outcomes);
        lemma_translate_conjunction(nodes);
        let standing = standing_outcomes(nodes);
        assert forall|i: int| 0 <= i < standing.len() implies (#[trigger] standing[i]) is Ok by {
            assert(outcomes[i] is Ok);
            assert(nodes[i] == outcomes[i]->Ok_0);
        }
        lemma_gather_succeeds(standing);
    }
}

/// An expression that was read from a filter document translates without
/// failure: whatever can fail in translating has failed in reading.
pub proof fn lemma_read_expression_translates(d: DocumentView)
    ensures
        expression_spec(d) matches Ok(e) ==> translate_spec(e) is Ok,
        query_spec(d) is Err <==> expression_spec(d) is Err,
    decreases d, 1nat,
{
    let outcomes = field_outcomes(d);
    if gather(outcomes) is Ok {
        lemma_first_failure(outcomes);
        let nodes = successes(outcomes);
        lemma_translate_conjunction(nodes);
        let standing = standing_outcomes(nodes);
        assert forall|i: int| 0 <= i < standing.len() implies (#[trigger] standing[i]) is Ok by {
            assert(outcomes[i] is Ok);
            assert(nodes[i] == outcomes[i]->Ok_0);
            lemma_read_field_translates(d[i].0, d[i].1);
        }
        lemma_gather_succeeds(standing);
    }
}

/// What was read from one field of a filter document translates without
/// failure.
pub proof fn lemma_read_field_translates(name: Seq<char>, value: ValueView)
    ensures
        field_condition(name, value) matches Ok(e) ==> translate_spec(e) is Ok,
    decreases value, 2nat,
{
    if name == "$and"@ {
        lemma_read_logical_translates(Connective::And, name, value);
    } else if name == "$or"@ {
        lemma_read_logical_translates(Connective::Or, name, value);
    } else if starts_with_char(name, '$') {
    } else {
        match value {
            ValueView::Document(operators) => {
                lemma_read_operators_translate(name, operators);
            },
            _ => {},
        }
    }
}

/// What was read from the array under a combinator key translates without
/// failure.
pub proof fn lemma_read_logical_translates(
    connective: Connective,
    name: Seq<char>,
    value: ValueView,
)
    ensures
        logical_spec(connective, name, value) matches Ok(e) ==> translate_spec(e) is Ok,
    decreases value, 1nat,
{
    match value {
        ValueView::Array(items) => {
            let outcomes = branch_outcomes(name, value);
            if gather(outcomes) is Ok {
                lemma_first_failure(outcomes);
                let children = successes(outcomes);
                lemma_translate_logical(connective, children);
                let translated = translate_outcomes(children);
                assert forall|j: int| 0 <= j < translated.len() implies (
                #[trigger] translated[j]) is Ok by {
                    assert(outcomes[j] is Ok);
                    assert(children[j] == outcomes[j]->Ok_0);
                    match items[j] {
                        ValueView::Document(sub) => {
                            lemma_read_expression_translates(sub);
                        },
                        _ => {},
                    }
                }
                lemma_gather_succeeds(translated);
            }
        },
        _ => {},
    }
}

/// Recognises the operator that a key in operator position names.
pub fn operator_named(name: &str) -> (r: Option<Operator>)
    ensures
        r == operator_from_name(name@),
{
    if same_text(name, "$eq") {
        Some(Operator::Eq)
    } else if same_text(name, "$ne") {
        Some(Operator::Ne)
    } else if same_text(name, "$gt") {
        Some(Operator::Gt)
    } else if same_text(name, "$gte") {
        Some(Operator::Gte)
    } else if same_text(name, "$lt") {
        Some(Operator::Lt)
    } else if same_text(name, "$lte") {
        Some(Operator::Lte)
    } else if same_text(name, "$in") {
        Some(Operator::In)
    } else if same_text(name, "$regex") {
        Some(Operator::Regex)
    } else {
        None
    }
}

/// Copies a list of values.
pub fn duplicate_values(items: &Vec<Value>) -> (r: Vec<Value>)
    ensures
        values_view(r@) == values_view(items@),
{
    let mut out: Vec<Value> = Vec::new();
    let mut i: usize = 0;
    while i < items.len()
        invariant
            i <= items.len(),
            out@.len() == i,
            forall|j: int| 0 <= j < i ==> (#[trigger] out@[j])@ == items@[j]@,
        decreases items.len() - i,
    {
        out.push(items[i].duplicate());
        i = i + 1;
    }
    proof {
        assert(values_view(out@) =~= values_view(items@));
    }
    out
}

/// Builds the conjunction of a list of expressions.
pub fn conjoin(nodes: Vec<FilterExpression>) -> (r: FilterExpression)
    ensures
        r@ == conjunction(filters_view(nodes@)),
{
    let r = FilterExpression::Conjunction(nodes);
    proof {
        lemma_logical_view(r);
    }
    r
}

/// Checks a leaf that was read: hands it back where it can be translated,
/// otherwise reports the failure of its translation.
pub fn check_leaf(leaf: FilterExpression) -> (r: Result<FilterExpression, TranslationError>)
    ensures
        filter_outcome(r) == checked(leaf@),
{
    match translate(&leaf) {
        Ok(_) => Ok(leaf),
        Err(e) => Err(e),
    }
}

/// Reads one entry of an operator document for `field`.
pub fn translate_operator(field: &str, name: &str, value: &Value) -> (r: Result<
    FilterExpression,
    TranslationError,
>)
    ensures
        filter_outcome(r) == operator_condition(field@, name@, value@),
{
    match operator_named(name) {
        None => Err(TranslationError::UnsupportedOperator(String::from_str(name))),
        Some(Operator::In) => {
            proof {
                lemma_value_view_unfold(*value);
            }
            match value {
                Value::Array(items) => check_leaf(
                    FilterExpression::Membership {
                        field: String::from_str(field),
                        values: duplicate_values(items),
                    },
                ),
                _ => Err(TranslationError::InvalidOperatorValue(String::from_str(field))),
            }
        },
        Some(operator) => check_leaf(
            FilterExpression::Comparison {
                field: String::from_str(field),
                operator,
                value: value.duplicate(),
            },
        ),
    }
}

/// Reads the operator document of one field: each entry becomes a leaf, and
/// the leaves are taken together.
pub fn translate_comparison_operators(field: &str, operators: &Document) -> (r: Result<
    FilterExpression,
    TranslationError,
>)
    ensures
        filter_outcome(r) == comparison_operators_spec(field@, operators@),
{
    let ghost outcomes = operator_outcomes(field@, operators@);
    let mut nodes: Vec<FilterExpression> = Vec::new();
    let mut i: usize = 0;
    while i < operators.fields.len()
        invariant
            i <= operators.fields.len(),
            nodes@.len() == i,
            outcomes == operator_outcomes(field@, operators@),
            forall|j: int|
                0 <= j < i ==> (#[trigger] outcomes[j]) == Ok::<FilterView, TranslationErrorView>(
                    nodes@[j]@,
                ),
        decreases operators.fields.len() - i,
    {
        match translate_operator(field, operators.fields[i].0.as_str(), &operators.fields[i].1) {
            Ok(node) => {
                nodes.push(node);
            },
            Err(e) => {
                proof {
                    lemma_gather_fails_at(outcomes, i as int);
                }
                return Err(e);
            },
        }
        i = i + 1;
    }
    proof {
        lemma_gather_succeeds(outcomes);
        assert(successes(outcomes) =~= filters_view(nodes@));
    }
    Ok(conjoin(nodes))
}

/// Reads what one field of a filter document says.
pub fn translate_field(name: &str, value: &Value) -> (r: Result<FilterExpression, TranslationError>)
    ensures
        filter_outcome(r) == field_condition(name@, value@),
    decreases value, 2nat,
{
    if same_text(name, "$and") {
        translate_logical(Connective::And, name, value)
    } else if same_text(name, "$or") {
        translate_logical(Connective::Or, name, value)
    } else if begins_with(name, '$') {
        Err(TranslationError::UnsupportedOperator(String::from_str(name)))
    } else {
        proof {
            lemma_value_view_unfold(*value);
        }
        match value {
            Value::Document(operators) => translate_comparison_operators(name, operators),
            _ => check_leaf(
                FilterExpression::Comparison {
                    field: String::from_str(name),
                    operator: Operator::Eq,
                    value: value.duplicate(),
                },
            ),
        }
    }
}

/// Reads the array of documents under a combinator key.
pub fn translate_logical(connective: Connective, name: &str, value: &Value) -> (r: Result<
    FilterExpression,
    TranslationError,
>)
    ensures
        filter_outcome(r) == logical_spec(connective, name@, value@),
    decreases value, 1nat,
{
    proof {
        lemma_value_view_unfold(*value);
    }
    match value {
        Value::Array(items) => {
            let ghost outcomes = branch_outcomes(name@, value@);
            let mut children: Vec<FilterExpression> = Vec::new();
            let mut j: usize = 0;
            while j < items.len()
                invariant
                    j <= items.len(),
                    children@.len() == j,
                    value is Array,
                    value->Array_0 == *items,
                    value@ == ValueView::Array(values_view(items@)),
                    outcomes == branch_outcomes(name@, value@),
                    forall|k: int|
                        0 <= k < j ==> (#[trigger] outcomes[k]) == Ok::<
                            FilterView,
                            TranslationErrorView,
                        >(children@[k]@),
                decreases items.len() - j,
            {
                proof {
                    assert(decreases_to!(*value => value->Array_0));
                    assert(decreases_to!(*items => items[j as int]));
                    lemma_value_view_unfold(items[j as int]);
                }
                let outcome = match &items[j] {
                    Value::Document(sub) => {
                        proof {
                            assert(decreases_to!(items[j as int] => items[j as int]->Document_0));
                            assert(decreases_to!(*sub => sub.fields));
                        }
                        translate_expression(sub)
                    },
                    _ => Err(TranslationError::InvalidOperatorValue(String::from_str(name))),
                };
                match outcome {
                    Ok(child) => {
                        children.push(child);
                    },
                    Err(e) => {
                        proof {
                            lemma_gather_fails_at(outcomes, j as int);
                        }
                        return Err(e);
                    },
                }
                j = j + 1;
            }
            let r = FilterExpression::Logical { connective, children };
            proof {
                lemma_gather_succeeds(outcomes);
                lemma_logical_view(r);
                assert(successes(outcomes) =~= filters_view(children@));
            }
            Ok(r)
        },
        _ => Err(TranslationError::InvalidOperatorValue(String::from_str(name))),
    }
}

/// Reads a filter document into the filter expression it stands for.
///
/// The fields are taken in order. A key that begins with `$` must be `$and`
/// or `$or`; a key inside an operator document must be a known operator;
/// and every leaf is checked as it is read, so that the first failure in
/// the order of the document decides.
pub fn translate_expression(expr: &Document) -> (r: Result<FilterExpression, TranslationError>)
    ensures
        filter_outcome(r) == expression_spec(expr@),
    decreases expr.fields, 3nat,
{
    let ghost outcomes = field_outcomes(expr@);
    let mut nodes: Vec<FilterExpression> = Vec::new();
    let mut i: usize = 0;
    while i < expr.fields.len()
        invariant
            i <= expr.fields.len(),
            nodes@.len() == i,
            outcomes == field_outcomes(expr@),
            forall|j: int|
                0 <= j < i ==> (#[trigger] outcomes[j]) == Ok::<FilterView, TranslationErrorView>(
                    nodes@[j]@,
                ),
        decreases expr.fields.len() - i,
    {
        proof {
            assert(decreases_to!(expr.fields => expr.fields[i as int]));
            assert(decreases_to!(expr.fields[i as int] => expr.fields[i as int].1));
        }
        match translate_field(expr.fields[i].0.as_str(), &expr.fields[i].1) {
            Ok(node) => {
                nodes.push(node);
            },
            Err(e) => {
                proof {
                    lemma_gather_fails_at(outcomes, i as int);
                }
                return Err(e);
            },
        }
        i = i + 1;
    }
    proof {
        lemma_gather_succeeds(outcomes);
        assert(successes(outcomes) =~= filters_view(nodes@));
    }
    Ok(conjoin(nodes))
}

/// Translates a filter document into a predicate of the target language.
pub fn translate_query(query: &Document) -> (r: Result<String, TranslationError>)
    ensures
        text_outcome(r) == query_spec(query@),
{
    match translate_expression(query) {
        Ok(expr) => translate(&expr),
        Err(e) => Err(e),
    }
}

} // verus!
