//! Filter expressions and their translation into predicates of the target
//! query language.

use vstd::prelude::*;
use vstd::string::*;
use crate::document::{Value, ValueView, values_view, lemma_value_view_unfold};
use crate::error::{TranslationError, TranslationErrorView, text_outcome};
use crate::outcome::{gather, successes, lemma_gather_fails_at, lemma_gather_succeeds};
use crate::text::{
    bracketed, decimal_number, decimal_text, integer_text, is_decimal_number, join,
    join_bracketed, join_texts, quote_text, quoted_text, texts,
};

verus! {

/// The operators that a leaf of a filter can bear.
#[derive(Clone, Copy, Debug, PartialEq, Eq, Structural)]
pub enum Operator {
    Eq,
    Ne,
    Gt,
    Gte,
    Lt,
    Lte,
    In,
    Regex,
}

/// How a logical node combines its children.
#[derive(Clone, Copy, Debug, PartialEq, Eq, Structural)]
pub enum Connective {
    And,
    Or,
}

/// A boolean predicate over the fields of a document, as a tree.
#[derive(Debug)]
pub enum FilterExpression {
    /// A field compared with a literal.
    Comparison { field: String, operator: Operator, value: Value },
    /// A field tested for membership in a list of literals.
    Membership { field: String, values: Vec<Value> },
    /// Child expressions combined by `AND` or `OR`, in order.
    Logical { connective: Connective, children: Vec<FilterExpression> },
    /// The conditions that one document lays down, all of which must hold.
    Conjunction(Vec<FilterExpression>),
}

/// The mathematical form of a [`FilterExpression`].
pub enum FilterView {
    Comparison { field: Seq<char>, operator: Operator, value: ValueView },
    Membership { field: Seq<char>, values: Seq<ValueView> },
    Logical { connective: Connective, children: Seq<FilterView> },
    Conjunction(Seq<FilterView>),
}

/// The view of a filter expression, by recursion on its structure.
pub open spec fn filter_view(e: FilterExpression) -> FilterView
    decreases e,
{
    match e {
        FilterExpression::Comparison { field, operator, value } => FilterView::Comparison {
            field: field@,
            operator,
            value: value@,
        },
        FilterExpression::Membership { field, values } => FilterView::Membership {
            field: field@,
            values: values_view(values@),
        },
        FilterExpression::Logical { connective, children } => FilterView::Logical {
            connective,
            children: Seq::new(
                children@.len(),
                |i: int|
                    if 0 <= i < children@.len() {
                        filter_view(children@[i])
                    } else {
                        FilterView::Logical { connective, children: Seq::empty() }
                    },
            ),
        },
        FilterExpression::Conjunction(conditions) => FilterView::Conjunction(
            Seq::new(
                conditions@.len(),
                |i: int|
                    if 0 <= i < conditions@.len() {
                        filter_view(conditions@[i])
                    } else {
                        FilterView::Conjunction(Seq::empty())
                    },
            ),
        ),
    }
}

/// The views of a sequence of filter expressions, in order.
pub open spec fn filters_view(items: Seq<FilterExpression>) -> Seq<FilterView> {
    Seq::new(items.len(), |i: int| filter_view(items[i]))
}

impl View for FilterExpression {
    type V = FilterView;

    open spec fn view(&self) -> FilterView {
        filter_view(*self)
    }
}

/// The view of a logical node holds the views of its children, and the
/// view of a conjunction the views of its conditions.
pub proof fn lemma_logical_view(e: FilterExpression)
    ensures
        e matches FilterExpression::Logical { connective, children } ==> e@
            == (FilterView::Logical { connective, children: filters_view(children@) }),
        e matches FilterExpression::Conjunction(conditions) ==> e@ == FilterView::Conjunction(
            filters_view(conditions@),
        ),
{
    match e {
        FilterExpression::Logical { connective, children } => {
            assert(e@->Logical_children =~= filters_view(children@));
        },
        FilterExpression::Conjunction(conditions) => {
            assert(e@->Conjunction_0 =~= filters_view(conditions@));
        },
        _ => {},
    }
}

/// The column of the target container that holds a field.
pub open spec fn column(field: Seq<char>) -> Seq<char> {
    "c."@ + field
}

/// The symbol that the target language writes for an operator.
pub open spec fn operator_symbol(operator: Operator) -> Seq<char> {
    match operator {
        Operator::Eq => "="@,
        Operator::Ne => "!="@,
        Operator::Gt => ">"@,
        Operator::Gte => ">="@,
        Operator::Lt => "<"@,
        Operator::Lte => "<="@,
        Operator::In => "IN"@,
        Operator::Regex => "CONTAINS"@,
    }
}

/// A scalar literal in the target language: a text is quoted and escaped, a
/// whole number is written in decimal, a floating-point number stands as
/// its text where that is a plain decimal number, a boolean is `true` or
/// `false`. Any other value has no literal form, and the failure names the
/// field it was meant for.
pub open spec fn literal_spec(field: Seq<char>, value: ValueView) -> Result<
    Seq<char>,
    TranslationErrorView,
> {
    match value {
        ValueView::Text(t) => Ok(quoted_text(t)),
        ValueView::Int(i) => Ok(decimal_text(i)),
        ValueView::Double(t) => if is_decimal_number(t) {
            Ok(t)
        } else {
            Err(TranslationErrorView::UnsupportedLiteralType(field))
        },
        ValueView::Bool(b) => Ok(
            if b {
                "true"@
            } else {
                "false"@
            },
        ),
        _ => Err(TranslationErrorView::UnsupportedLiteralType(field)),
    }
}

/// The literal forms of a list of values, each meant for `field`.
pub open spec fn literal_outcomes(field: Seq<char>, values: Seq<ValueView>) -> Seq<
    Result<Seq<char>, TranslationErrorView>,
> {
    Seq::new(values.len(), |i: int| literal_spec(field, values[i]))
}

/// A membership test: always false for an empty list, otherwise the column,
/// `IN` and the literals between brackets.
pub open spec fn membership_spec(field: Seq<char>, values: Seq<ValueView>) -> Result<
    Seq<char>,
    TranslationErrorView,
> {
    if values.len() == 0 {
        Ok("FALSE"@)
    } else {
        match gather(literal_outcomes(field, values)) {
            Ok(literals) => Ok(column(field) + " IN ("@ + join(literals, ", "@) + ")"@),
            Err(e) => Err(e),
        }
    }
}

/// A comparison of a field with a literal. `In` asks for an array and
/// `Regex` for a text; the other operators take any scalar literal.
pub open spec fn comparison_spec(field: Seq<char>, operator: Operator, value: ValueView) -> Result<
    Seq<char>,
    TranslationErrorView,
> {
    match operator {
        Operator::In => match value {
            ValueView::Array(items) => membership_spec(field, items),
            _ => Err(TranslationErrorView::InvalidOperatorValue(field)),
        },
        Operator::Regex => match value {
            ValueView::Text(t) => Ok(
                "CONTAINS("@ + column(field) + ", "@ + quoted_text(t) + ")"@,
            ),
            _ => Err(TranslationErrorView::InvalidOperatorValue(field)),
        },
        _ => match literal_spec(field, value) {
            Ok(literal) => Ok(
                column(field) + " "@ + operator_symbol(operator) + " "@ + literal,
            ),
            Err(e) => Err(e),
        },
    }
}

/// The keyword that joins the children of a logical node.
pub open spec fn connective_keyword(connective: Connective) -> Seq<char> {
    match connective {
        Connective::And => " AND "@,
        Connective::Or => " OR "@,
    }
}

/// What a logical node without children means: an empty conjunction holds
/// of every document, an empty disjunction of none.
pub open spec fn connective_neutral(connective: Connective) -> Seq<char> {
    match connective {
        Connective::And => "TRUE"@,
        Connective::Or => "FALSE"@,
    }
}

/// The translated children of a logical node, combined: each between
/// brackets, joined by the keyword.
pub open spec fn combine(connective: Connective, parts: Seq<Seq<char>>) -> Seq<char> {
    if parts.len() == 0 {
        connective_neutral(connective)
    } else {
        join(bracketed(parts), connective_keyword(connective))
    }
}

/// Whether an expression is a disjunction of at least one child.
pub open spec fn is_disjunction(e: FilterView) -> bool {
    e matches FilterView::Logical { connective, children } && connective == Connective::Or
        && children.len() > 0
}

/// A translated condition as it stands among the conditions of a
/// conjunction: a disjunction between brackets as a whole, anything else
/// as it is.
pub open spec fn standing(e: FilterView, text: Seq<char>) -> Seq<char> {
    if is_disjunction(e) {
        seq!['('] + text + seq![')']
    } else {
        text
    }
}

/// The translated conditions of a conjunction, taken together: joined by
/// `AND`, and the predicate that always holds where there is none.
pub open spec fn all_of(parts: Seq<Seq<char>>) -> Seq<char> {
    if parts.len() == 0 {
        "TRUE"@
    } else {
        join(parts, " AND "@)
    }
}

/// The predicate that a filter expression translates to, or the first
/// failure met when its leaves are taken in order.
///
/// A logical node puts each child between brackets and joins them by its
/// keyword. A conjunction joins its conditions by `AND` as they stand.
pub open spec fn translate_spec(e: FilterView) -> Result<Seq<char>, TranslationErrorView>
    decreases e, 1nat,
{
    match e {
        FilterView::Comparison { field, operator, value } => comparison_spec(
            field,
            operator,
            value,
        ),
        FilterView::Membership { field, values } => membership_spec(field, values),
        FilterView::Logical { connective, children } => match gather(child_outcomes(e)) {
            Ok(parts) => Ok(combine(connective, parts)),
            Err(e) => Err(e),
        },
        FilterView::Conjunction(conditions) => match gather(condition_outcomes(e)) {
            Ok(parts) => Ok(all_of(parts)),
            Err(e) => Err(e),
        },
    }
}

/// The translations of the conditions of a conjunction, each as it stands
/// among the others, in order.
pub open spec fn condition_outcomes(e: FilterView) -> Seq<Result<Seq<char>, TranslationErrorView>>
    decreases e, 0nat,
{
    match e {
        FilterView::Conjunction(conditions) => Seq::new(
            conditions.len(),
            |i: int|
                if 0 <= i < conditions.len() {
                    match translate_spec(conditions[i]) {
                        Ok(text) => Ok(standing(conditions[i], text)),
                        Err(x) => Err(x),
                    }
                } else {
                    Ok(Seq::empty())
                },
        ),
        _ => Seq::empty(),
    }
}

/// The translation of one condition as it stands in a conjunction.
pub open spec fn standing_outcome(e: FilterView) -> Result<Seq<char>, TranslationErrorView> {
    match translate_spec(e) {
        Ok(text) => Ok(standing(e, text)),
        Err(x) => Err(x),
    }
}

/// The translations of a sequence of conditions as they stand in a
/// conjunction, in order.
pub open spec fn standing_outcomes(conditions: Seq<FilterView>) -> Seq<
    Result<Seq<char>, TranslationErrorView>,
> {
    Seq::new(conditions.len(), |i: int| standing_outcome(conditions[i]))
}

/// A conjunction translates to its gathered conditions, taken together.
pub proof fn lemma_translate_conjunction(conditions: Seq<FilterView>)
    ensures
        translate_spec(FilterView::Conjunction(conditions)) == match gather(
            standing_outcomes(conditions),
        ) {
            Ok(parts) => Ok::<Seq<char>, TranslationErrorView>(all_of(parts)),
            Err(e) => Err(e),
        },
{
    assert(condition_outcomes(FilterView::Conjunction(conditions)) =~= standing_outcomes(
        conditions,
    ));
}

/// The translations of the children of a logical node, in order.
pub open spec fn child_outcomes(e: FilterView) -> Seq<Result<Seq<char>, TranslationErrorView>>
    decreases e, 0nat,
{
    match e {
        FilterView::Logical { connective, children } => Seq::new(
            children.len(),
            |i: int|
                if 0 <= i < children.len() {
                    translate_spec(children[i])
                } else {
                    Ok(Seq::empty())
                },
        ),
        _ => Seq::empty(),
    }
}

/// The translations of a sequence of filter expressions, in order.
pub open spec fn translate_outcomes(children: Seq<FilterView>) -> Seq<
    Result<Seq<char>, TranslationErrorView>,
> {
    Seq::new(children.len(), |i: int| translate_spec(children[i]))
}

/// A logical node translates to its gathered children, combined.
pub proof fn lemma_translate_logical(connective: Connective, children: Seq<FilterView>)
    ensures
        translate_spec(FilterView::Logical { connective, children }) == match gather(
            translate_outcomes(children),
        ) {
            Ok(parts) => Ok::<Seq<char>, TranslationErrorView>(combine(connective, parts)),
            Err(e) => Err(e),
        },
{
    assert(child_outcomes(FilterView::Logical { connective, children }) =~= translate_outcomes(
        children,
    ));
}

/// Writes the column that holds a field.
pub fn column_text(field: &str) -> (r: String)
    ensures
        r@ == column(field@),
{
    let mut out = String::from_str("c.");
    out.append(field);
    out
}

/// Converts a scalar literal meant for `field`.
pub fn literal_to_sql(field: &str, value: &Value) -> (r: Result<String, TranslationError>)
    ensures
        text_outcome(r) == literal_spec(field@, value@),
{
    match value {
        Value::Text(t) => Ok(quote_text(t.as_str())),
        Value::Int(i) => Ok(integer_text(*i)),
        Value::Double(t) => if decimal_number(t.as_str()) {
            Ok(t.clone())
        } else {
            Err(TranslationError::UnsupportedLiteralType(String::from_str(field)))
        },
        Value::Bool(b) => Ok(
            if *b {
                String::from_str("true")
            } else {
                String::from_str("false")
            },
        ),
        _ => Err(TranslationError::UnsupportedLiteralType(String::from_str(field))),
    }
}

/// Writes the symbol of an operator.
pub fn symbol_text(operator: Operator) -> (r: &'static str)
    ensures
        r@ == operator_symbol(operator),
{
    match operator {
        Operator::Eq => "=",
        Operator::Ne => "!=",
        Operator::Gt => ">",
        Operator::Gte => ">=",
        Operator::Lt => "<",
        Operator::Lte => "<=",
        Operator::In => "IN",
        Operator::Regex => "CONTAINS",
    }
}

/// Translates a membership test of `field` in `values`.
pub fn translate_membership(field: &str, values: &Vec<Value>) -> (r: Result<
    String,
    TranslationError,
>)
    ensures
        text_outcome(r) == membership_spec(field@, values_view(values@)),
{
    if values.len() == 0 {
        return Ok(String::from_str("FALSE"));
    }
    let ghost outcomes = literal_outcomes(field@, values_view(values@));
    let mut literals: Vec<String> = Vec::new();
    let mut i: usize = 0;
    while i < values.len()
        invariant
            i <= values.len(),
            literals@.len() == i,
            outcomes == literal_outcomes(field@, values_view(values@)),
            forall|j: int|
                0 <= j < i ==> (#[trigger] outcomes[j]) == Ok::<Seq<char>, TranslationErrorView>(
                    literals@[j]@,
                ),
        decreases values.len() - i,
    {
        match literal_to_sql(field, &values[i]) {
            Ok(literal) => {
                literals.push(literal);
            },
            Err(e) => {
                proof {
                    lemma_gather_fails_at(outcomes, i as int);
                }
                return Err(e);
            },
        }
        i = i + 1;
    }
    proof {
        lemma_gather_succeeds(outcomes);
        assert(successes(outcomes) =~= texts(literals@));
    }
    let mut out = column_text(field);
    out.append(" IN (");
    out.append(join_texts(&literals, ", ").as_str());
    out.append(")");
    Ok(out)
}

/// Translates the comparison of `field` with `value` under `operator`.
pub fn translate_comparison(field: &str, operator: Operator, value: &Value) -> (r: Result<
    String,
    TranslationError,
>)
    ensures
        text_outcome(r) == comparison_spec(field@, operator, value@),
{
    match operator {
        Operator::In => match value {
            Value::Array(items) => {
                proof {
                    lemma_value_view_unfold(*value);
                }
                translate_membership(field, items)
            },
            _ => Err(TranslationError::InvalidOperatorValue(String::from_str(field))),
        },
        Operator::Regex => match value {
            Value::Text(t) => {
                let mut out = String::from_str("CONTAINS(");
                out.append(column_text(field).as_str());
                out.append(", ");
                out.append(quote_text(t.as_str()).as_str());
                out.append(")");
                Ok(out)
            },
            _ => Err(TranslationError::InvalidOperatorValue(String::from_str(field))),
        },
        _ => match literal_to_sql(field, value) {
            Ok(literal) => {
                let mut out = column_text(field);
                out.append(" ");
                out.append(symbol_text(operator));
                out.append(" ");
                out.append(literal.as_str());
                Ok(out)
            },
            Err(e) => Err(e),
        },
    }
}

/// Writes the combination of the translated children of a logical node.
pub fn combine_parts(connective: Connective, parts: &Vec<String>) -> (r: String)
    ensures
        r@ == combine(connective, texts(parts@)),
{
    if parts.len() == 0 {
        match connective {
            Connective::And => String::from_str("TRUE"),
            Connective::Or => String::from_str("FALSE"),
        }
    } else {
        match connective {
            Connective::And => join_bracketed(parts, " AND "),
            Connective::Or => join_bracketed(parts, " OR "),
        }
    }
}

/// Writes the translated conditions of a conjunction, taken together.
pub fn all_of_parts(parts: &Vec<String>) -> (r: String)
    ensures
        r@ == all_of(texts(parts@)),
{
    if parts.len() == 0 {
        String::from_str("TRUE")
    } else {
        join_texts(parts, " AND ")
    }
}

/// Tells whether an expression is a disjunction of at least one child.
pub fn disjunction(expr: &FilterExpression) -> (r: bool)
    ensures
        r == is_disjunction(expr@),
{
    proof {
        lemma_logical_view(*expr);
    }
    match expr {
        FilterExpression::Logical { connective, children } => match connective {
            Connective::Or => children.len() > 0,
            Connective::And => false,
        },
        _ => false,
    }
}

/// Translates a filter expression into a predicate of the target language.
///
/// The leaves are taken in order and the first that cannot be translated
/// decides the failure.
pub fn translate(expr: &FilterExpression) -> (r: Result<String, TranslationError>)
    ensures
        text_outcome(r) == translate_spec(expr@),
    decreases expr,
{
    match expr {
        FilterExpression::Comparison { field, operator, value } => translate_comparison(
            field.as_str(),
            *operator,
            value,
        ),
        FilterExpression::Membership { field, values } => translate_membership(
            field.as_str(),
            values,
        ),
        FilterExpression::Logical { connective, children } => {
            let ghost outcomes = translate_outcomes(filters_view(children@));
            let mut parts: Vec<String> = Vec::new();
            let mut i: usize = 0;
            while i < children.len()
                invariant
                    i <= children.len(),
                    parts@.len() == i,
                    expr is Logical,
                    expr->Logical_children == *children,
                    outcomes == translate_outcomes(filters_view(children@)),
                    forall|j: int|
                        0 <= j < i ==> (#[trigger] outcomes[j]) == Ok::<
                            Seq<char>,
                            TranslationErrorView,
                        >(parts@[j]@),
                decreases children.len() - i,
            {
                proof {
                    assert(decreases_to!(*expr => expr->Logical_children));
                    assert(decreases_to!(*children => children[i as int]));
                }
                match translate(&children[i]) {
                    Ok(part) => {
                        parts.push(part);
                    },
                    Err(e) => {
                        proof {
                            lemma_logical_view(*expr);
                            lemma_translate_logical(*connective, filters_view(children@));
                            lemma_gather_fails_at(outcomes, i as int);
                        }
                        return Err(e);
                    },
                }
                i = i + 1;
            }
            proof {
                lemma_logical_view(*expr);
                lemma_translate_logical(*connective, filters_view(children@));
                lemma_gather_succeeds(outcomes);
                assert(successes(outcomes) =~= texts(parts@));
            }
            Ok(combine_parts(*connective, &parts))
        },
        FilterExpression::Conjunction(conditions) => {
            let ghost outcomes = standing_outcomes(filters_view(conditions@));
            let mut parts: Vec<String> = Vec::new();
            let mut i: usize = 0;
            while i < conditions.len()
                invariant
                    i <= conditions.len(),
                    parts@.len() == i,
                    expr is Conjunction,
                    expr->Conjunction_0 == *conditions,
                    outcomes == standing_outcomes(filters_view(conditions@)),
                    forall|j: int|
                        0 <= j < i ==> (#[trigger] outcomes[j]) == Ok::<
                            Seq<char>,
                            TranslationErrorView,
                        >(parts@[j]@),
                decreases conditions.len() - i,
            {
                proof {
                    assert(decreases_to!(*expr => expr->Conjunction_0));
                    assert(decreases_to!(*conditions => conditions[i as int]));
                }
                match translate(&conditions[i]) {
                    Ok(text) => {
                        proof {
                            assert(outcomes[i as int] == standing_outcome(conditions[i as int]@));
                        }
                        if disjunction(&conditions[i]) {
                            let mut part = String::new();
                            part.push('(');
                            part.append(text.as_str());
                            part.push(')');
                            proof {
                                assert(part@ =~= seq!['('] + text@ + seq![')']);
                            }
                            parts.push(part);
                        } else {
                            parts.push(text);
                        }
                    },
                    Err(e) => {
                        proof {
                            lemma_logical_view(*expr);
                            lemma_translate_conjunction(filters_view(conditions@));
                            lemma_gather_fails_at(outcomes, i as int);
                        }
                        return Err(e);
                    },
                }
                i = i + 1;
            }
            proof {
                lemma_logical_view(*expr);
                lemma_translate_conjunction(filters_view(conditions@));
                lemma_gather_succeeds(outcomes);
                assert(successes(outcomes) =~= texts(parts@));
            }
            Ok(all_of_parts(&parts))
        },
    }
}

} // verus!
