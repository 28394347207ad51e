//! What the translation of filters guarantees, stated over the functions
//! that define it.

use vstd::prelude::*;
use vstd::string::*;
use crate::document::ValueView;
use crate::error::{TranslationError, TranslationErrorView, text_outcome};
use crate::filter::{
    Connective, FilterExpression, FilterView, Operator, child_outcomes, column,
    lemma_translate_conjunction, literal_spec, operator_symbol, standing, standing_outcome,
    standing_outcomes, translate_spec,
};
use crate::outcome::{first_failure, lemma_gather_succeeds, successes};
use crate::pipeline::{StageView, stage_spec};
use crate::plan::BuilderView;
use crate::text::{
    decimal_digits, decimal_text, digits_start, is_decimal_number, is_digit, join,
};

verus! {

/// Whether an operator compares a field with a scalar by a symbol.
pub open spec fn is_symbolic(operator: Operator) -> bool {
    operator != Operator::In && operator != Operator::Regex
}

/// A comparison by a symbol translates to the column of its field, the
/// symbol and the literal, in this order and with single spaces between
/// them; it fails exactly where its value has no literal form.
pub proof fn lemma_comparison_shape(field: Seq<char>, operator: Operator, value: ValueView)
    requires
        is_symbolic(operator),
    ensures
        translate_spec(FilterView::Comparison { field, operator, value }) == match literal_spec(
            field,
            value,
        ) {
            Ok(literal) => Ok::<Seq<char>, TranslationErrorView>(
                "c."@ + field + " "@ + operator_symbol(operator) + " "@ + literal,
            ),
            Err(e) => Err(e),
        },
{
}

/// Whether `needle` stands in `text` at the position `at`.
pub open spec fn occurs_at(text: Seq<char>, needle: Seq<char>, at: int) -> bool {
    0 <= at && at + needle.len() <= text.len() && text.subrange(at, at + needle.len()) == needle
}

/// Whether a character is one that the comparison symbols are written
/// with.
pub open spec fn is_symbol_char(c: char) -> bool {
    c == '=' || c == '!' || c == '<' || c == '>'
}

/// Whether a text holds none of the characters that the comparison symbols
/// are written with.
pub open spec fn symbol_free(text: Seq<char>) -> bool {
    forall|i: int| 0 <= i < text.len() ==> !is_symbol_char(#[trigger] text[i])
}

/// The symbol of a comparison is not empty and is written with symbol
/// characters alone.
pub proof fn lemma_symbol_chars(operator: Operator)
    requires
        is_symbolic(operator),
    ensures
        operator_symbol(operator).len() > 0,
        forall|i: int|
            0 <= i < operator_symbol(operator).len() ==> is_symbol_char(
                #[trigger] operator_symbol(operator)[i],
            ),
{
    reveal_strlit("=");
    reveal_strlit("!=");
    reveal_strlit(">");
    reveal_strlit(">=");
    reveal_strlit("<");
    reveal_strlit("<=");
}

/// A part between a head and a tail occurs exactly once, at the end of the
/// head, where its first character is not in the head and its last
/// character is not in the tail.
pub proof fn lemma_part_occurs_once(head: Seq<char>, part: Seq<char>, tail: Seq<char>, at: int)
    requires
        part.len() > 0,
        forall|i: int| 0 <= i < head.len() ==> #[trigger] head[i] != part[0],
        forall|i: int| 0 <= i < tail.len() ==> #[trigger] tail[i] != part[part.len() - 1],
    ensures
        occurs_at(head + part + tail, part, at) <==> at == head.len(),
{
    let text = head + part + tail;
    let start = head.len() as int;
    let end = start + part.len();
    assert(text.subrange(start, end) =~= part);
    if occurs_at(text, part, at) {
        let found = text.subrange(at, at + part.len());
        assert(found[0] == text[at]);
        assert(found[part.len() - 1] == text[at + part.len() - 1]);
        if at < start {
            assert(text[at] == head[at]);
        }
        if at + part.len() - 1 >= end {
            assert(text[at + part.len() - 1] == tail[at + part.len() - 1 - end]);
        }
    }
}

/// Where neither the field nor the literal holds a symbol character, the
/// translation of a comparison holds the symbol of its operator exactly
/// once: right after the column and a space, and nowhere else.
pub proof fn lemma_symbol_occurs_once(
    field: Seq<char>,
    operator: Operator,
    value: ValueView,
    at: int,
)
    requires
        is_symbolic(operator),
        literal_spec(field, value) is Ok,
        symbol_free(field),
        symbol_free(literal_spec(field, value)->Ok_0),
    ensures
        translate_spec(FilterView::Comparison { field, operator, value }) is Ok,
        occurs_at(
            translate_spec(FilterView::Comparison { field, operator, value })->Ok_0,
            operator_symbol(operator),
            at,
        ) <==> at == field.len() + 3,
{
    lemma_comparison_shape(field, operator, value);
    lemma_symbol_chars(operator);
    let symbol = operator_symbol(operator);
    let literal = literal_spec(field, value)->Ok_0;
    lemma_symbol_between(field, symbol, literal, at);
}

/// The symbol between a column and a literal that hold no symbol
/// character occurs exactly once.
proof fn lemma_symbol_between(field: Seq<char>, symbol: Seq<char>, literal: Seq<char>, at: int)
    requires
        symbol.len() > 0,
        forall|i: int| 0 <= i < symbol.len() ==> is_symbol_char(#[trigger] symbol[i]),
        symbol_free(field),
        symbol_free(literal),
    ensures
        occurs_at("c."@ + field + " "@ + symbol + " "@ + literal, symbol, at) <==> at
            == field.len() + 3,
{
    reveal_strlit("c.");
    reveal_strlit(" ");
    let head = "c."@ + field + " "@;
    let tail = " "@ + literal;
    assert("c."@ + field + " "@ + symbol + " "@ + literal =~= head + symbol + tail);
    assert forall|i: int| 0 <= i < head.len() implies #[trigger] head[i] != symbol[0] by {
        if 2 <= i < 2 + field.len() {
            assert(head[i] == field[i - 2]);
        }
    }
    assert forall|i: int| 0 <= i < tail.len() implies #[trigger] tail[i] != symbol[symbol.len()
        - 1] by {
        if 1 <= i {
            assert(tail[i] == literal[i - 1]);
        }
    }
    lemma_part_occurs_once(head, symbol, tail, at);
}

/// Whether `needle` stands somewhere in `text`.
pub open spec fn occurs_in(text: Seq<char>, needle: Seq<char>) -> bool {
    exists|at: int| occurs_at(text, needle, at)
}

/// Whether a field name can be told from what surrounds it in a
/// comparison: it is not empty, holds no space, begins with neither a dot
/// nor a symbol character, is not the letter `c` alone, and does not begin
/// with `c.`.
pub open spec fn distinct_name(field: Seq<char>) -> bool {
    &&& field.len() > 0
    &&& forall|i: int| 0 <= i < field.len() ==> #[trigger] field[i] != ' '
    &&& field[0] != '.'
    &&& !is_symbol_char(field[0])
    &&& !(field.len() == 1 && field[0] == 'c')
    &&& !(field.len() >= 2 && field[0] == 'c' && field[1] == '.')
}

/// Where the field name can be told from what surrounds it and does not
/// occur in the literal, the translation of a comparison holds the field
/// name exactly once: right after the column prefix, and nowhere else.
pub proof fn lemma_field_occurs_once(
    field: Seq<char>,
    operator: Operator,
    value: ValueView,
    at: int,
)
    requires
        is_symbolic(operator),
        literal_spec(field, value) is Ok,
        distinct_name(field),
        !occurs_in(literal_spec(field, value)->Ok_0, field),
    ensures
        translate_spec(FilterView::Comparison { field, operator, value }) is Ok,
        occurs_at(
            translate_spec(FilterView::Comparison { field, operator, value })->Ok_0,
            field,
            at,
        ) <==> at == 2,
{
    lemma_comparison_shape(field, operator, value);
    lemma_symbol_chars(operator);
    let symbol = operator_symbol(operator);
    let literal = literal_spec(field, value)->Ok_0;
    lemma_field_between(field, symbol, literal, at);
}

/// A field name that can be told from what surrounds it, before a symbol
/// and a literal in which it does not occur, occurs exactly once.
proof fn lemma_field_between(field: Seq<char>, symbol: Seq<char>, literal: Seq<char>, at: int)
    requires
        forall|i: int| 0 <= i < symbol.len() ==> is_symbol_char(#[trigger] symbol[i]),
        distinct_name(field),
        !occurs_in(literal, field),
    ensures
        occurs_at("c."@ + field + " "@ + symbol + " "@ + literal, field, at) <==> at == 2,
{
    reveal_strlit("c.");
    reveal_strlit(" ");
    let n = field.len() as int;
    let text = "c."@ + field + " "@ + symbol + " "@ + literal;
    let first_space = n + 2;
    let second_space = n + 3 + symbol.len();
    let literal_start = second_space + 1;
    assert(text.len() == literal_start + literal.len());
    assert(text[0] == 'c');
    assert(text[1] == '.');
    assert(text[first_space] == ' ');
    assert(text[second_space] == ' ');
    assert(text.subrange(2, 2 + n) =~= field);
    if occurs_at(text, field, at) {
        let found = text.subrange(at, at + n);
        assert(found == field);
        assert forall|k: int| 0 <= k < n implies text[at + k] == #[trigger] field[k] by {
            assert(found[k] == text[at + k]);
        }
        if at <= first_space < at + n {
            assert(field[first_space - at] == ' ');
        }
        if at <= second_space < at + n {
            assert(field[second_space - at] == ' ');
        }
        if at >= literal_start {
            assert(literal.subrange(at - literal_start, at - literal_start + n) =~= field) by {
                assert forall|k: int| 0 <= k < n implies literal[at - literal_start + k]
                    == #[trigger] field[k] by {
                    assert(text[at + k] == literal[at + k - literal_start]);
                }
            }
            assert(occurs_at(literal, field, at - literal_start));
        } else if at > first_space {
            assert(text[at] == symbol[at - first_space - 1]);
            assert(field[0] == text[at]);
        } else {
            assert(field[0] == text[at]);
            if at == 0 && n >= 2 {
                assert(field[1] == text[1]);
            }
        }
    }
}

/// The decimal text of a whole number holds no symbol character.
pub proof fn lemma_decimal_symbol_free(i: int)
    ensures
        symbol_free(decimal_text(i)),
{
    if i < 0 {
        lemma_digits_symbol_free((-i) as nat);
    } else {
        lemma_digits_symbol_free(i as nat);
    }
}

/// A plain decimal number holds no symbol character.
pub proof fn lemma_number_symbol_free(t: Seq<char>)
    requires
        is_decimal_number(t),
    ensures
        symbol_free(t),
{
    reveal(is_decimal_number);
    assert forall|i: int| 0 <= i < t.len() implies !is_symbol_char(#[trigger] t[i]) by {
        if i >= digits_start(t) {
            assert(is_digit(t[i]) || t[i] == '.');
        }
    }
}

/// The literal of a number or a boolean holds no symbol character, so the
/// translation of its comparison holds the symbol of the operator exactly
/// once whenever the field name holds none.
pub proof fn lemma_plain_literal_symbol_free(field: Seq<char>, value: ValueView)
    requires
        literal_spec(field, value) is Ok,
        value is Int || value is Double || value is Bool,
    ensures
        symbol_free(literal_spec(field, value)->Ok_0),
{
    reveal_strlit("true");
    reveal_strlit("false");
    match value {
        ValueView::Int(i) => {
            lemma_decimal_symbol_free(i);
        },
        ValueView::Double(t) => {
            lemma_number_symbol_free(t);
        },
        _ => {},
    }
}

/// The decimal digits of a natural number hold no symbol character.
proof fn lemma_digits_symbol_free(n: nat)
    ensures
        symbol_free(decimal_digits(n)),
    decreases n,
{
    if n >= 10 {
        lemma_digits_symbol_free(n / 10);
    }
}

/// Translation is a function of the expression alone: two outcomes of
/// translating expressions of the same form are the same, character for
/// character.
pub proof fn lemma_translate_deterministic(
    a: FilterExpression,
    b: FilterExpression,
    first: Result<String, TranslationError>,
    second: Result<String, TranslationError>,
)
    requires
        a@ == b@,
        text_outcome(first) == translate_spec(a@),
        text_outcome(second) == translate_spec(b@),
    ensures
        text_outcome(first) == text_outcome(second),
{
}

/// A logical node without children translates to a constant: a
/// conjunction to the predicate that always holds, a disjunction to the
/// predicate that never holds.
pub proof fn lemma_empty_logical()
    ensures
        translate_spec(FilterView::Logical { connective: Connective::And, children: Seq::empty() })
            == Ok::<Seq<char>, TranslationErrorView>("TRUE"@),
        translate_spec(FilterView::Logical { connective: Connective::Or, children: Seq::empty() })
            == Ok::<Seq<char>, TranslationErrorView>("FALSE"@),
{
    let none = Seq::<Result<Seq<char>, TranslationErrorView>>::empty();
    assert(child_outcomes(
        FilterView::Logical { connective: Connective::And, children: Seq::empty() },
    ) =~= none);
    assert(child_outcomes(
        FilterView::Logical { connective: Connective::Or, children: Seq::empty() },
    ) =~= none);
    assert(first_failure(none) is None);
    assert(successes(none).len() == 0);
}

/// A conjunction of two conditions that translate is the two translations
/// joined by `AND`, each as it stands: a disjunction between brackets as a
/// whole, anything else without brackets. A conjunction of no condition is
/// the predicate that always holds, and a conjunction of one condition is
/// that condition as it stands.
pub proof fn lemma_conjunction_form(a: FilterView, b: FilterView)
    requires
        translate_spec(a) is Ok,
        translate_spec(b) is Ok,
    ensures
        translate_spec(FilterView::Conjunction(Seq::empty())) == Ok::<
            Seq<char>,
            TranslationErrorView,
        >("TRUE"@),
        translate_spec(FilterView::Conjunction(seq![a])) == Ok::<Seq<char>, TranslationErrorView>(
            standing(a, translate_spec(a)->Ok_0),
        ),
        translate_spec(FilterView::Conjunction(seq![a, b])) == Ok::<
            Seq<char>,
            TranslationErrorView,
        >(
            standing(a, translate_spec(a)->Ok_0) + " AND "@ + standing(
                b,
                translate_spec(b)->Ok_0,
            ),
        ),
{
    let none = Seq::<FilterView>::empty();
    lemma_translate_conjunction(none);
    lemma_gather_succeeds(standing_outcomes(none));
    assert(successes(standing_outcomes(none)).len() == 0);

    let one = seq![a];
    lemma_translate_conjunction(one);
    assert(standing_outcomes(one)[0] == standing_outcome(a));
    lemma_gather_succeeds(standing_outcomes(one));
    let one_part = successes(standing_outcomes(one));
    assert(one_part.len() == 1);
    assert(one_part[0] == standing(a, translate_spec(a)->Ok_0));

    let two = seq![a, b];
    lemma_translate_conjunction(two);
    assert(standing_outcomes(two)[0] == standing_outcome(a));
    assert(standing_outcomes(two)[1] == standing_outcome(b));
    lemma_gather_succeeds(standing_outcomes(two));
    let parts = successes(standing_outcomes(two));
    assert(parts.len() == 2);
    assert(parts[0] == standing(a, translate_spec(a)->Ok_0));
    assert(parts[1] == standing(b, translate_spec(b)->Ok_0));
    assert(parts.drop_last().len() == 1);
    assert(parts.drop_last()[0] == parts[0]);
    assert(join(parts.drop_last(), " AND "@) == parts[0]);
}

/// Membership in an empty list translates to the predicate that never
/// holds, whether it is written as a membership node or as a comparison
/// by `In` with an empty array; it is never a failure.
pub proof fn lemma_empty_membership(field: Seq<char>)
    ensures
        translate_spec(FilterView::Membership { field, values: Seq::empty() }) == Ok::<
            Seq<char>,
            TranslationErrorView,
        >("FALSE"@),
        translate_spec(
            FilterView::Comparison {
                field,
                operator: Operator::In,
                value: ValueView::Array(Seq::empty()),
            },
        ) == Ok::<Seq<char>, TranslationErrorView>("FALSE"@),
{
}

/// Where a match stage lands depends on what came before it: before any
/// grouping its predicate joins the row predicates, after a grouping the
/// group predicates, and the other kind is left alone.
pub proof fn lemma_match_placement(f: FilterView, b: BuilderView)
    requires
        translate_spec(f) is Ok,
    ensures
        stage_spec(StageView::Match(f), b) is Ok,
        ({
            let after = stage_spec(StageView::Match(f), b)->Ok_0;
            let p = translate_spec(f)->Ok_0;
            if b.grouped {
                after.having == b.having.push(p) && after.filters == b.filters
            } else {
                after.filters == b.filters.push(p) && after.having == b.having
            }
        }),
{
}

/// A grouping marks the plan as grouped, so every match stage after it
/// yields a group predicate.
pub proof fn lemma_match_after_group(
    keys: Seq<Seq<char>>,
    aggregates: Seq<crate::pipeline::AggregateView>,
    f: FilterView,
    b: BuilderView,
)
    requires
        translate_spec(f) is Ok,
    ensures
        stage_spec(StageView::Group { keys, aggregates }, b) is Ok,
        ({
            let grouped = stage_spec(StageView::Group { keys, aggregates }, b)->Ok_0;
            let after = stage_spec(StageView::Match(f), grouped);
            &&& after is Ok
            &&& after->Ok_0.having == b.having.push(translate_spec(f)->Ok_0)
            &&& after->Ok_0.filters == b.filters
        }),
{
}

} // verus!
