//! Aggregation pipelines: their stages, and how each stage changes the
//! plan that is being built.

use vstd::prelude::*;
use vstd::string::*;
use crate::error::{TranslationError, TranslationErrorView};
use crate::filter::{FilterExpression, FilterView, column, column_text, translate, translate_spec};
use crate::outcome::{gather, successes, lemma_gather_fails_at, lemma_gather_succeeds};
use crate::plan::{BuilderView, QueryPlanBuilder};
use crate::text::{decimal_text, integer_text, lemma_texts_add, lemma_texts_push, texts};

verus! {

/// The aggregate functions of a grouping.
#[derive(Clone, Copy, Debug, PartialEq, Eq, Structural)]
pub enum AggregateFunction {
    Sum,
    Avg,
    Min,
    Max,
    Count,
}

/// What an aggregate function is applied to.
#[derive(Debug)]
pub enum AggregateSource {
    /// A field of the documents.
    Field(String),
    /// The same whole number for every document, as in a sum of ones.
    Number(i64),
}

/// The mathematical form of an [`AggregateSource`].
pub enum AggregateSourceView {
    Field(Seq<char>),
    Number(int),
}

impl View for AggregateSource {
    type V = AggregateSourceView;

    open spec fn view(&self) -> AggregateSourceView {
        match self {
            AggregateSource::Field(f) => AggregateSourceView::Field(f@),
            AggregateSource::Number(n) => AggregateSourceView::Number(*n as int),
        }
    }
}

/// One output column of a grouping: the function applied to a source,
/// under a name.
#[derive(Debug)]
pub struct Aggregate {
    pub output: String,
    pub function: AggregateFunction,
    pub source: AggregateSource,
}

/// The mathematical form of an [`Aggregate`].
pub struct AggregateView {
    pub output: Seq<char>,
    pub function: AggregateFunction,
    pub source: AggregateSourceView,
}

impl View for Aggregate {
    type V = AggregateView;

    open spec fn view(&self) -> AggregateView {
        AggregateView { output: self.output@, function: self.function, source: self.source@ }
    }
}

/// One field of an ordering with its direction: `1` ascending, `-1`
/// descending.
#[derive(Debug)]
pub struct SortKey {
    pub field: String,
    pub direction: i64,
}

/// The mathematical form of a [`SortKey`].
pub struct SortKeyView {
    pub field: Seq<char>,
    pub direction: int,
}

impl View for SortKey {
    type V = SortKeyView;

    open spec fn view(&self) -> SortKeyView {
        SortKeyView { field: self.field@, direction: self.direction as int }
    }
}

/// One step of an aggregation.
#[derive(Debug)]
pub enum PipelineStage {
    /// Keep what meets a filter.
    Match(FilterExpression),
    /// Group by the key fields and compute the aggregates.
    Group { keys: Vec<String>, aggregates: Vec<Aggregate> },
    /// Order by the keys, the first being the most significant.
    Sort(Vec<SortKey>),
    /// Return at most this many.
    Limit(i64),
}

/// The mathematical form of a [`PipelineStage`].
pub enum StageView {
    Match(FilterView),
    Group { keys: Seq<Seq<char>>, aggregates: Seq<AggregateView> },
    Sort(Seq<SortKeyView>),
    Limit(int),
}

/// The views of a sequence of aggregates, in order.
pub open spec fn aggregates_view(items: Seq<Aggregate>) -> Seq<AggregateView> {
    Seq::new(items.len(), |i: int| items[i]@)
}

/// The views of a sequence of sort keys, in order.
pub open spec fn sort_keys_view(items: Seq<SortKey>) -> Seq<SortKeyView> {
    Seq::new(items.len(), |i: int| items[i]@)
}

impl View for PipelineStage {
    type V = StageView;

    open spec fn view(&self) -> StageView {
        match self {
            PipelineStage::Match(f) => StageView::Match(f@),
            PipelineStage::Group { keys, aggregates } => StageView::Group {
                keys: texts(keys@),
                aggregates: aggregates_view(aggregates@),
            },
            PipelineStage::Sort(keys) => StageView::Sort(sort_keys_view(keys@)),
            PipelineStage::Limit(n) => StageView::Limit(*n as int),
        }
    }
}

/// The keyword of an aggregate function in the target language.
pub open spec fn aggregate_keyword(function: AggregateFunction) -> Seq<char> {
    match function {
        AggregateFunction::Sum => "SUM"@,
        AggregateFunction::Avg => "AVG"@,
        AggregateFunction::Min => "MIN"@,
        AggregateFunction::Max => "MAX"@,
        AggregateFunction::Count => "COUNT"@,
    }
}

/// The source of an aggregate in the target language: the column of a
/// field, or a number in decimal.
pub open spec fn source_text(source: AggregateSourceView) -> Seq<char> {
    match source {
        AggregateSourceView::Field(f) => column(f),
        AggregateSourceView::Number(n) => decimal_text(n),
    }
}

/// The output column of an aggregate.
pub open spec fn aggregate_column(a: AggregateView) -> Seq<char> {
    aggregate_keyword(a.function) + "("@ + source_text(a.source) + ") AS "@ + a.output
}

/// The output columns of a list of aggregates, in order.
pub open spec fn aggregate_columns(aggregates: Seq<AggregateView>) -> Seq<Seq<char>> {
    Seq::new(aggregates.len(), |i: int| aggregate_column(aggregates[i]))
}

/// The columns of a list of fields, in order.
pub open spec fn columns_of(fields: Seq<Seq<char>>) -> Seq<Seq<char>> {
    Seq::new(fields.len(), |i: int| column(fields[i]))
}

/// One item of an ordering. The direction must be `1` or `-1`.
pub open spec fn sort_item(key: SortKeyView) -> Result<Seq<char>, TranslationErrorView> {
    if key.direction == 1 {
        Ok(column(key.field) + " ASC"@)
    } else if key.direction == -1 {
        Ok(column(key.field) + " DESC"@)
    } else {
        Err(TranslationErrorView::InvalidSortDirection(key.field))
    }
}

/// The items of an ordering, key by key.
pub open spec fn sort_item_outcomes(keys: Seq<SortKeyView>) -> Seq<
    Result<Seq<char>, TranslationErrorView>,
> {
    Seq::new(keys.len(), |i: int| sort_item(keys[i]))
}

/// What a stage makes of the plan gathered so far.
///
/// A match before any grouping adds a row predicate, after a grouping a
/// group predicate. A grouping records its key columns and adds one output
/// column for each aggregate. A sort adds to the ordering. A limit is set
/// once; a second one is rejected.
pub open spec fn stage_spec(stage: StageView, b: BuilderView) -> Result<
    BuilderView,
    TranslationErrorView,
> {
    match stage {
        StageView::Match(f) => match translate_spec(f) {
            Ok(p) => Ok(
                if b.grouped {
                    BuilderView { having: b.having.push(p), ..b }
                } else {
                    BuilderView { filters: b.filters.push(p), ..b }
                },
            ),
            Err(e) => Err(e),
        },
        StageView::Group { keys, aggregates } => Ok(
            BuilderView {
                columns: b.columns + aggregate_columns(aggregates),
                group_by: b.group_by + columns_of(keys),
                grouped: true,
                ..b
            },
        ),
        StageView::Sort(keys) => match gather(sort_item_outcomes(keys)) {
            Ok(items) => Ok(BuilderView { order_by: b.order_by + items, ..b }),
            Err(e) => Err(e),
        },
        StageView::Limit(n) => if b.limit is Some {
            Err(TranslationErrorView::DuplicateLimitClause)
        } else {
            Ok(BuilderView { limit: Some(n), ..b })
        },
    }
}

/// Writes the keyword of an aggregate function.
pub fn keyword_text(function: AggregateFunction) -> (r: &'static str)
    ensures
        r@ == aggregate_keyword(function),
{
    match function {
        AggregateFunction::Sum => "SUM",
        AggregateFunction::Avg => "AVG",
        AggregateFunction::Min => "MIN",
        AggregateFunction::Max => "MAX",
        AggregateFunction::Count => "COUNT",
    }
}

/// Writes the columns of a list of fields.
pub fn column_texts(fields: &Vec<String>) -> (r: Vec<String>)
    ensures
        texts(r@) == columns_of(texts(fields@)),
{
    let mut out: Vec<String> = Vec::new();
    let mut i: usize = 0;
    while i < fields.len()
        invariant
            i <= fields.len(),
            out@.len() == i,
            forall|j: int| 0 <= j < i ==> (#[trigger] out@[j])@ == column(fields@[j]@),
        decreases fields.len() - i,
    {
        out.push(column_text(fields[i].as_str()));
        i = i + 1;
    }
    proof {
        assert(texts(out@) =~= columns_of(texts(fields@)));
    }
    out
}

/// Writes the output columns of a list of aggregates.
pub fn aggregate_column_texts(aggregates: &Vec<Aggregate>) -> (r: Vec<String>)
    ensures
        texts(r@) == aggregate_columns(aggregates_view(aggregates@)),
{
    let mut out: Vec<String> = Vec::new();
    let mut i: usize = 0;
    while i < aggregates.len()
        invariant
            i <= aggregates.len(),
            out@.len() == i,
            forall|j: int| 0 <= j < i ==> (#[trigger] out@[j])@ == aggregate_column(aggregates@[j]@),
        decreases aggregates.len() - i,
    {
        let a = &aggregates[i];
        let source = match &a.source {
            AggregateSource::Field(f) => column_text(f.as_str()),
            AggregateSource::Number(n) => integer_text(*n),
        };
        let mut item = String::from_str(keyword_text(a.function));
        item.append("(");
        item.append(source.as_str());
        item.append(") AS ");
        item.append(a.output.as_str());
        out.push(item);
        i = i + 1;
    }
    proof {
        assert(texts(out@) =~= aggregate_columns(aggregates_view(aggregates@)));
    }
    out
}

/// Writes the items of an ordering, or reports the first key whose
/// direction is neither `1` nor `-1`.
pub fn sort_item_texts(keys: &Vec<SortKey>) -> (r: Result<Vec<String>, TranslationError>)
    ensures
        match r {
            Ok(items) => gather(sort_item_outcomes(sort_keys_view(keys@))) == Ok::<
                Seq<Seq<char>>,
                TranslationErrorView,
            >(texts(items@)),
            Err(e) => gather(sort_item_outcomes(sort_keys_view(keys@))) == Err::<
                Seq<Seq<char>>,
                TranslationErrorView,
            >(e@),
        },
{
    let ghost outcomes = sort_item_outcomes(sort_keys_view(keys@));
    let mut out: Vec<String> = Vec::new();
    let mut i: usize = 0;
    while i < keys.len()
        invariant
            i <= keys.len(),
            out@.len() == i,
            outcomes == sort_item_outcomes(sort_keys_view(keys@)),
            forall|j: int|
                0 <= j < i ==> (#[trigger] outcomes[j]) == Ok::<Seq<char>, TranslationErrorView>(
                    out@[j]@,
                ),
        decreases keys.len() - i,
    {
        let key = &keys[i];
        if key.direction == 1 {
            let mut item = column_text(key.field.as_str());
            item.append(" ASC");
            out.push(item);
        } else if key.direction == -1 {
            let mut item = column_text(key.field.as_str());
            item.append(" DESC");
            out.push(item);
        } else {
            proof {
                lemma_gather_fails_at(outcomes, i as int);
            }
            return Err(TranslationError::InvalidSortDirection(key.field.clone()));
        }
        i = i + 1;
    }
    proof {
        lemma_gather_succeeds(outcomes);
        assert(successes(outcomes) =~= texts(out@));
    }
    Ok(out)
}

/// Applies one stage to the plan that is being built.
///
/// On failure the accumulator is left as it was.
pub fn translate_stage(stage: &PipelineStage, accumulator: &mut QueryPlanBuilder) -> (r: Result<
    (),
    TranslationError,
>)
    ensures
        match r {
            Ok(_) => stage_spec(stage@, old(accumulator)@) == Ok::<
                BuilderView,
                TranslationErrorView,
            >(final(accumulator)@),
            Err(e) => stage_spec(stage@, old(accumulator)@) == Err::<
                BuilderView,
                TranslationErrorView,
            >(e@) && final(accumulator)@ == old(accumulator)@,
        },
{
    match stage {
        PipelineStage::Match(f) => {
            match translate(f) {
                Ok(p) => {
                    if accumulator.grouped {
                        proof {
                            lemma_texts_push(accumulator.having@, p);
                        }
                        accumulator.having.push(p);
                    } else {
                        proof {
                            lemma_texts_push(accumulator.filters@, p);
                        }
                        accumulator.filters.push(p);
                    }
                    Ok(())
                },
                Err(e) => Err(e),
            }
        },
        PipelineStage::Group { keys, aggregates } => {
            let mut key_columns = column_texts(keys);
            let mut output_columns = aggregate_column_texts(aggregates);
            proof {
                lemma_texts_add(accumulator.group_by@, key_columns@);
                lemma_texts_add(accumulator.columns@, output_columns@);
            }
            accumulator.group_by.append(&mut key_columns);
            accumulator.columns.append(&mut output_columns);
            accumulator.grouped = true;
            Ok(())
        },
        PipelineStage::Sort(keys) => {
            match sort_item_texts(keys) {
                Ok(items) => {
                    let mut items = items;
                    proof {
                        lemma_texts_add(accumulator.order_by@, items@);
                    }
                    accumulator.order_by.append(&mut items);
                    Ok(())
                },
                Err(e) => Err(e),
            }
        },
        PipelineStage::Limit(n) => {
            if accumulator.limit.is_some() {
                Err(TranslationError::DuplicateLimitClause)
            } else {
                accumulator.limit = Some(*n);
                Ok(())
            }
        },
    }
}

} // verus!
