//! Reading an aggregation pipeline from raw documents and building the
//! query that it stands for.

use vstd::prelude::*;
use vstd::string::*;
use crate::document::{Document, DocumentView, Value, ValueView, lemma_value_view_unfold};
use crate::error::{TranslationError, TranslationErrorView, text_outcome};
use crate::outcome::{
    fold_outcomes, gather, successes, lemma_fold_failure_stays, lemma_fold_next,
    lemma_fold_whole, lemma_gather_fails_at, lemma_gather_succeeds,
};
use crate::pipeline::{
    Aggregate, AggregateFunction, AggregateSource, AggregateSourceView, AggregateView,
    PipelineStage, SortKey, SortKeyView, StageView,
    aggregates_view, sort_keys_view, stage_spec, translate_stage,
};
use crate::plan::{BuilderView, QueryPlanBuilder, empty_builder, finish_spec, sql_spec};
use crate::query::{expression_spec, translate_expression};
use crate::text::{begins_with, lemma_texts_add, same_text, starts_with_char, texts};

verus! {

/// The outcome of reading a stage, as mathematical values.
pub open spec fn stage_outcome(r: Result<PipelineStage, TranslationError>) -> Result<
    StageView,
    TranslationErrorView,
> {
    match r {
        Ok(s) => Ok(s@),
        Err(e) => Err(e@),
    }
}

/// The outcome of changing a plan, as mathematical values.
pub open spec fn builder_outcome(r: Result<QueryPlanBuilder, TranslationError>) -> Result<
    BuilderView,
    TranslationErrorView,
> {
    match r {
        Ok(b) => Ok(b@),
        Err(e) => Err(e@),
    }
}

/// The views of a sequence of documents, in order.
pub open spec fn documents_view(items: Seq<Document>) -> Seq<DocumentView> {
    Seq::new(items.len(), |i: int| items[i]@)
}

/// The field that a text refers to: the text without a leading `$`.
pub open spec fn field_reference(t: Seq<char>) -> Seq<char> {
    if starts_with_char(t, '$') {
        t.subrange(1, t.len() as int)
    } else {
        t
    }
}

/// The aggregate function that a key names.
pub open spec fn function_from_name(name: Seq<char>) -> Option<AggregateFunction> {
    if name == "$sum"@ {
        Some(AggregateFunction::Sum)
    } else if name == "$avg"@ {
        Some(AggregateFunction::Avg)
    } else if name == "$min"@ {
        Some(AggregateFunction::Min)
    } else if name == "$max"@ {
        Some(AggregateFunction::Max)
    } else if name == "$count"@ {
        Some(AggregateFunction::Count)
    } else {
        None
    }
}

/// The aggregate that an output field of a grouping stands for. Its value
/// must be a document with a single entry: a known function applied to a
/// text that refers to the source field, or to a whole number.
pub open spec fn aggregate_of(output: Seq<char>, value: ValueView) -> Result<
    AggregateView,
    TranslationErrorView,
> {
    match value {
        ValueView::Document(entries) => if entries.len() == 1 {
            match function_from_name(entries[0].0) {
                Some(function) => match entries[0].1 {
                    ValueView::Text(t) => Ok(
                        AggregateView {
                            output,
                            function,
                            source: AggregateSourceView::Field(field_reference(t)),
                        },
                    ),
                    ValueView::Int(n) => Ok(
                        AggregateView { output, function, source: AggregateSourceView::Number(n) },
                    ),
                    _ => Err(TranslationErrorView::InvalidOperatorValue(output)),
                },
                None => Err(TranslationErrorView::UnsupportedOperator(entries[0].0)),
            }
        } else {
            Err(TranslationErrorView::InvalidOperatorValue(output))
        },
        _ => Err(TranslationErrorView::InvalidOperatorValue(output)),
    }
}

/// The key fields that one entry of a composite grouping key names.
pub open spec fn key_outcomes(entries: DocumentView) -> Seq<
    Result<Seq<char>, TranslationErrorView>,
> {
    Seq::new(
        entries.len(),
        |i: int|
            match entries[i].1 {
                ValueView::Text(t) => Ok(field_reference(t)),
                _ => Err(TranslationErrorView::InvalidOperatorValue("_id"@)),
            },
    )
}

/// The key fields of a grouping: none for a null key, one for a text, one
/// for each entry of a document.
pub open spec fn id_keys(value: ValueView) -> Result<Seq<Seq<char>>, TranslationErrorView> {
    match value {
        ValueView::Null => Ok(Seq::empty()),
        ValueView::Text(t) => Ok(seq![field_reference(t)]),
        ValueView::Document(entries) => gather(key_outcomes(entries)),
        _ => Err(TranslationErrorView::InvalidOperatorValue("_id"@)),
    }
}

/// The key fields and the aggregates read so far from a grouping.
pub struct GroupParts {
    pub keys: Seq<Seq<char>>,
    pub aggregates: Seq<AggregateView>,
}

/// What one entry of a grouping adds: `_id` names key fields, any other
/// entry is an aggregate under its own name.
pub open spec fn group_entry(g: GroupParts, entry: (Seq<char>, ValueView)) -> Result<
    GroupParts,
    TranslationErrorView,
> {
    if entry.0 == "_id"@ {
        match id_keys(entry.1) {
            Ok(keys) => Ok(GroupParts { keys: g.keys + keys, ..g }),
            Err(e) => Err(e),
        }
    } else {
        match aggregate_of(entry.0, entry.1) {
            Ok(a) => Ok(GroupParts { aggregates: g.aggregates.push(a), ..g }),
            Err(e) => Err(e),
        }
    }
}

/// [`group_entry`] as a step.
pub open spec fn group_step() -> spec_fn(GroupParts, (Seq<char>, ValueView)) -> Result<
    GroupParts,
    TranslationErrorView,
> {
    |g: GroupParts, entry: (Seq<char>, ValueView)| group_entry(g, entry)
}

/// The grouping stage that a document stands for.
pub open spec fn group_spec(entries: DocumentView) -> Result<StageView, TranslationErrorView> {
    match fold_outcomes(
        entries,
        GroupParts { keys: Seq::empty(), aggregates: Seq::empty() },
        group_step(),
    ) {
        Ok(g) => Ok(StageView::Group { keys: g.keys, aggregates: g.aggregates }),
        Err(e) => Err(e),
    }
}

/// The keys of an ordering, entry by entry. A direction must be the whole
/// number `1` or `-1`; it is checked as the entry is read, so that the
/// first entry with another direction decides the failure.
pub open spec fn sort_key_outcomes(entries: DocumentView) -> Seq<
    Result<SortKeyView, TranslationErrorView>,
> {
    Seq::new(
        entries.len(),
        |i: int|
            match entries[i].1 {
                ValueView::Int(n) => if n == 1 || n == -1 {
                    Ok(SortKeyView { field: entries[i].0, direction: n })
                } else {
                    Err(TranslationErrorView::InvalidSortDirection(entries[i].0))
                },
                _ => Err(TranslationErrorView::InvalidSortDirection(entries[i].0)),
            },
    )
}

/// The stage that one entry of a stage document stands for.
pub open spec fn stage_from_entry(name: Seq<char>, value: ValueView) -> Result<
    StageView,
    TranslationErrorView,
> {
    if name == "$match"@ {
        match value {
            ValueView::Document(d) => match expression_spec(d) {
                Ok(f) => Ok(StageView::Match(f)),
                Err(e) => Err(e),
            },
            _ => Err(TranslationErrorView::InvalidOperatorValue(name)),
        }
    } else if name == "$group"@ {
        match value {
            ValueView::Document(d) => group_spec(d),
            _ => Err(TranslationErrorView::InvalidOperatorValue(name)),
        }
    } else if name == "$sort"@ {
        match value {
            ValueView::Document(d) => match gather(sort_key_outcomes(d)) {
                Ok(keys) => Ok(StageView::Sort(keys)),
                Err(e) => Err(e),
            },
            _ => Err(TranslationErrorView::InvalidOperatorValue(name)),
        }
    } else if name == "$limit"@ {
        match value {
            ValueView::Int(n) => Ok(StageView::Limit(n)),
            _ => Err(TranslationErrorView::InvalidOperatorValue(name)),
        }
    } else {
        Err(TranslationErrorView::UnsupportedOperator(name))
    }
}

/// What one entry of a stage document makes of the plan gathered so far.
pub open spec fn entry_spec(b: BuilderView, entry: (Seq<char>, ValueView)) -> Result<
    BuilderView,
    TranslationErrorView,
> {
    match stage_from_entry(entry.0, entry.1) {
        Ok(stage) => stage_spec(stage, b),
        Err(e) => Err(e),
    }
}

/// [`entry_spec`] as a step.
pub open spec fn entry_step() -> spec_fn(BuilderView, (Seq<char>, ValueView)) -> Result<
    BuilderView,
    TranslationErrorView,
> {
    |b: BuilderView, entry: (Seq<char>, ValueView)| entry_spec(b, entry)
}

/// What one stage document makes of the plan: its entries applied in
/// order.
pub open spec fn document_spec(b: BuilderView, d: DocumentView) -> Result<
    BuilderView,
    TranslationErrorView,
> {
    fold_outcomes(d, b, entry_step())
}

/// [`document_spec`] as a step.
pub open spec fn document_step() -> spec_fn(BuilderView, DocumentView) -> Result<
    BuilderView,
    TranslationErrorView,
> {
    |b: BuilderView, d: DocumentView| document_spec(b, d)
}

/// What a pipeline makes of the plan: its stage documents applied in
/// order.
pub open spec fn pipeline_spec(b: BuilderView, pipeline: Seq<DocumentView>) -> Result<
    BuilderView,
    TranslationErrorView,
> {
    fold_outcomes(pipeline, b, document_step())
}

/// The query text that a pipeline alone stands for.
pub open spec fn aggregate_query_spec(pipeline: Seq<DocumentView>) -> Result<
    Seq<char>,
    TranslationErrorView,
> {
    match pipeline_spec(empty_builder(), pipeline) {
        Ok(b) => Ok(sql_spec(finish_spec(b))),
        Err(e) => Err(e),
    }
}

/// Writes the field that a text refers to.
pub fn field_reference_text(t: &str) -> (r: String)
    ensures
        r@ == field_reference(t@),
{
    if begins_with(t, '$') {
        let n = t.unicode_len();
        String::from_str(t.substring_char(1, n))
    } else {
        String::from_str(t)
    }
}

/// Recognises the aggregate function that a key names.
pub fn function_named(name: &str) -> (r: Option<AggregateFunction>)
    ensures
        r == function_from_name(name@),
{
    if same_text(name, "$sum") {
        Some(AggregateFunction::Sum)
    } else if same_text(name, "$avg") {
        Some(AggregateFunction::Avg)
    } else if same_text(name, "$min") {
        Some(AggregateFunction::Min)
    } else if same_text(name, "$max") {
        Some(AggregateFunction::Max)
    } else if same_text(name, "$count") {
        Some(AggregateFunction::Count)
    } else {
        None
    }
}

/// Reads the aggregate that an output field of a grouping stands for.
pub fn read_aggregate(output: &str, value: &Value) -> (r: Result<Aggregate, TranslationError>)
    ensures
        match r {
            Ok(a) => aggregate_of(output@, value@) == Ok::<AggregateView, TranslationErrorView>(a@),
            Err(e) => aggregate_of(output@, value@) == Err::<AggregateView, TranslationErrorView>(
                e@,
            ),
        },
{
    proof {
        lemma_value_view_unfold(*value);
    }
    match value {
        Value::Document(d) => {
            if d.fields.len() == 1 {
                proof {
                    lemma_value_view_unfold(d.fields[0].1);
                }
                match function_named(d.fields[0].0.as_str()) {
                    Some(function) => match &d.fields[0].1 {
                        Value::Text(t) => Ok(
                            Aggregate {
                                output: String::from_str(output),
                                function,
                                source: AggregateSource::Field(field_reference_text(t.as_str())),
                            },
                        ),
                        Value::Int(n) => Ok(
                            Aggregate {
                                output: String::from_str(output),
                                function,
                                source: AggregateSource::Number(*n),
                            },
                        ),
                        _ => Err(TranslationError::InvalidOperatorValue(String::from_str(output))),
                    },
                    None => Err(TranslationError::UnsupportedOperator(d.fields[0].0.clone())),
                }
            } else {
                Err(TranslationError::InvalidOperatorValue(String::from_str(output)))
            }
        },
        _ => Err(TranslationError::InvalidOperatorValue(String::from_str(output))),
    }
}

/// Reads the key fields of a grouping.
pub fn read_group_keys(value: &Value) -> (r: Result<Vec<String>, TranslationError>)
    ensures
        match r {
            Ok(keys) => id_keys(value@) == Ok::<Seq<Seq<char>>, TranslationErrorView>(
                texts(keys@),
            ),
            Err(e) => id_keys(value@) == Err::<Seq<Seq<char>>, TranslationErrorView>(e@),
        },
{
    proof {
        lemma_value_view_unfold(*value);
    }
    match value {
        Value::Null => {
            let keys: Vec<String> = Vec::new();
            proof {
                assert(texts(keys@) =~= Seq::<Seq<char>>::empty());
            }
            Ok(keys)
        },
        Value::Text(t) => {
            let mut keys: Vec<String> = Vec::new();
            keys.push(field_reference_text(t.as_str()));
            proof {
                assert(texts(keys@) =~= seq![field_reference(t@)]);
            }
            Ok(keys)
        },
        Value::Document(d) => {
            let ghost outcomes = key_outcomes(d@);
            let mut keys: Vec<String> = Vec::new();
            let mut i: usize = 0;
            while i < d.fields.len()
                invariant
                    i <= d.fields.len(),
                    keys@.len() == i,
                    value@ == ValueView::Document(d@),
                    outcomes == key_outcomes(d@),
                    forall|j: int|
                        0 <= j < i ==> (#[trigger] outcomes[j]) == Ok::<
                            Seq<char>,
                            TranslationErrorView,
                        >(keys@[j]@),
                decreases d.fields.len() - i,
            {
                proof {
                    lemma_value_view_unfold(d.fields[i as int].1);
                }
                match &d.fields[i].1 {
                    Value::Text(t) => {
                        keys.push(field_reference_text(t.as_str()));
                    },
                    _ => {
                        proof {
                            lemma_gather_fails_at(outcomes, i as int);
                        }
                        return Err(
                            TranslationError::InvalidOperatorValue(String::from_str("_id")),
                        );
                    },
                }
                i = i + 1;
            }
            proof {
                lemma_gather_succeeds(outcomes);
                assert(successes(outcomes) =~= texts(keys@));
            }
            Ok(keys)
        },
        _ => Err(TranslationError::InvalidOperatorValue(String::from_str("_id"))),
    }
}

/// Reads a grouping: the key fields under `_id`, and one aggregate for
/// every other entry.
pub fn translate_group(group_doc: &Document) -> (r: Result<PipelineStage, TranslationError>)
    ensures
        stage_outcome(r) == group_spec(group_doc@),
{
    let ghost start = GroupParts { keys: Seq::empty(), aggregates: Seq::empty() };
    let ghost entries = group_doc@;
    let mut keys: Vec<String> = Vec::new();
    let mut aggregates: Vec<Aggregate> = Vec::new();
    let mut i: usize = 0;
    proof {
        assert(texts(keys@) =~= Seq::<Seq<char>>::empty());
        assert(aggregates_view(aggregates@) =~= Seq::<AggregateView>::empty());
    }
    while i < group_doc.fields.len()
        invariant
            i <= group_doc.fields.len(),
            entries == group_doc@,
            start == (GroupParts { keys: Seq::empty(), aggregates: Seq::empty() }),
            fold_outcomes(entries.take(i as int), start, group_step()) == Ok::<
                GroupParts,
                TranslationErrorView,
            >(GroupParts { keys: texts(keys@), aggregates: aggregates_view(aggregates@) }),
        decreases group_doc.fields.len() - i,
    {
        proof {
            lemma_fold_next(entries, start, group_step(), i as int);
        }
        let name = group_doc.fields[i].0.as_str();
        let value = &group_doc.fields[i].1;
        if same_text(name, "_id") {
            match read_group_keys(value) {
                Ok(more) => {
                    let mut more = more;
                    proof {
                        lemma_texts_add(keys@, more@);
                    }
                    keys.append(&mut more);
                },
                Err(e) => {
                    proof {
                        lemma_fold_failure_stays(entries, start, group_step(), i + 1);
                    }
                    return Err(e);
                },
            }
        } else {
            match read_aggregate(name, value) {
                Ok(a) => {
                    proof {
                        assert(aggregates_view(aggregates@.push(a)) =~= aggregates_view(
                            aggregates@,
                        ).push(a@));
                    }
                    aggregates.push(a);
                },
                Err(e) => {
                    proof {
                        lemma_fold_failure_stays(entries, start, group_step(), i + 1);
                    }
                    return Err(e);
                },
            }
        }
        i = i + 1;
    }
    proof {
        lemma_fold_whole(entries, start, group_step());
    }
    Ok(PipelineStage::Group { keys, aggregates })
}

/// Reads the keys of an ordering.
pub fn read_sort_keys(sort: &Document) -> (r: Result<Vec<SortKey>, TranslationError>)
    ensures
        match r {
            Ok(keys) => gather(sort_key_outcomes(sort@)) == Ok::<
                Seq<SortKeyView>,
                TranslationErrorView,
            >(sort_keys_view(keys@)),
            Err(e) => gather(sort_key_outcomes(sort@)) == Err::<
                Seq<SortKeyView>,
                TranslationErrorView,
            >(e@),
        },
{
    let ghost outcomes = sort_key_outcomes(sort@);
    let mut keys: Vec<SortKey> = Vec::new();
    let mut i: usize = 0;
    while i < sort.fields.len()
        invariant
            i <= sort.fields.len(),
            keys@.len() == i,
            outcomes == sort_key_outcomes(sort@),
            forall|j: int|
                0 <= j < i ==> (#[trigger] outcomes[j]) == Ok::<SortKeyView, TranslationErrorView>(
                    keys@[j]@,
                ),
        decreases sort.fields.len() - i,
    {
        proof {
            lemma_value_view_unfold(sort.fields[i as int].1);
        }
        let direction = match &sort.fields[i].1 {
            Value::Int(n) => if *n == 1 || *n == -1 {
                Some(*n)
            } else {
                None
            },
            _ => None,
        };
        match direction {
            Some(n) => {
                keys.push(SortKey { field: sort.fields[i].0.clone(), direction: n });
            },
            None => {
                proof {
                    lemma_gather_fails_at(outcomes, i as int);
                }
                return Err(TranslationError::InvalidSortDirection(sort.fields[i].0.clone()));
            },
        }
        i = i + 1;
    }
    proof {
        lemma_gather_succeeds(outcomes);
        assert(successes(outcomes) =~= sort_keys_view(keys@));
    }
    Ok(keys)
}

/// Reads the stage that one entry of a stage document stands for.
pub fn read_stage(name: &str, value: &Value) -> (r: Result<PipelineStage, TranslationError>)
    ensures
        stage_outcome(r) == stage_from_entry(name@, value@),
{
    proof {
        lemma_value_view_unfold(*value);
    }
    if same_text(name, "$match") {
        match value {
            Value::Document(d) => match translate_expression(d) {
                Ok(f) => Ok(PipelineStage::Match(f)),
                Err(e) => Err(e),
            },
            _ => Err(TranslationError::InvalidOperatorValue(String::from_str(name))),
        }
    } else if same_text(name, "$group") {
        match value {
            Value::Document(d) => translate_group(d),
            _ => Err(TranslationError::InvalidOperatorValue(String::from_str(name))),
        }
    } else if same_text(name, "$sort") {
        match value {
            Value::Document(d) => match read_sort_keys(d) {
                Ok(keys) => Ok(PipelineStage::Sort(keys)),
                Err(e) => Err(e),
            },
            _ => Err(TranslationError::InvalidOperatorValue(String::from_str(name))),
        }
    } else if same_text(name, "$limit") {
        match value {
            Value::Int(n) => Ok(PipelineStage::Limit(*n)),
            _ => Err(TranslationError::InvalidOperatorValue(String::from_str(name))),
        }
    } else {
        Err(TranslationError::UnsupportedOperator(String::from_str(name)))
    }
}

/// Applies one entry of a stage document to the plan.
///
/// On failure the accumulator is left as it was.
pub fn apply_stage_entry(name: &str, value: &Value, accumulator: &mut QueryPlanBuilder) -> (r:
    Result<(), TranslationError>)
    ensures
        match r {
            Ok(_) => entry_spec(old(accumulator)@, (name@, value@)) == Ok::<
                BuilderView,
                TranslationErrorView,
            >(final(accumulator)@),
            Err(e) => entry_spec(old(accumulator)@, (name@, value@)) == Err::<
                BuilderView,
                TranslationErrorView,
            >(e@) && final(accumulator)@ == old(accumulator)@,
        },
{
    match read_stage(name, value) {
        Ok(stage) => translate_stage(&stage, accumulator),
        Err(e) => Err(e),
    }
}

/// Applies the entries of one stage document to a plan, in order, and
/// hands the plan back.
pub fn apply_stage_document(stage: &Document, plan: QueryPlanBuilder) -> (r: Result<
    QueryPlanBuilder,
    TranslationError,
>)
    ensures
        builder_outcome(r) == document_spec(plan@, stage@),
{
    let ghost start = plan@;
    let ghost entries = stage@;
    let mut accumulator = plan;
    let mut i: usize = 0;
    while i < stage.fields.len()
        invariant
            i <= stage.fields.len(),
            entries == stage@,
            start == plan@,
            fold_outcomes(entries.take(i as int), start, entry_step()) == Ok::<
                BuilderView,
                TranslationErrorView,
            >(accumulator@),
        decreases stage.fields.len() - i,
    {
        proof {
            lemma_fold_next(entries, start, entry_step(), i as int);
        }
        match apply_stage_entry(stage.fields[i].0.as_str(), &stage.fields[i].1, &mut accumulator) {
            Ok(_) => {},
            Err(e) => {
                proof {
                    lemma_fold_failure_stays(entries, start, entry_step(), i + 1);
                }
                return Err(e);
            },
        }
        i = i + 1;
    }
    proof {
        lemma_fold_whole(entries, start, entry_step());
    }
    Ok(accumulator)
}

/// Applies the stage documents of a pipeline to a plan, in order, and
/// hands the plan back.
pub fn apply_pipeline(pipeline: &Vec<Document>, plan: QueryPlanBuilder) -> (r: Result<
    QueryPlanBuilder,
    TranslationError,
>)
    ensures
        builder_outcome(r) == pipeline_spec(plan@, documents_view(pipeline@)),
{
    let ghost start = plan@;
    let ghost stages = documents_view(pipeline@);
    let mut accumulator = plan;
    let mut i: usize = 0;
    while i < pipeline.len()
        invariant
            i <= pipeline.len(),
            stages == documents_view(pipeline@),
            start == plan@,
            fold_outcomes(stages.take(i as int), start, document_step()) == Ok::<
                BuilderView,
                TranslationErrorView,
            >(accumulator@),
        decreases pipeline.len() - i,
    {
        proof {
            lemma_fold_next(stages, start, document_step(), i as int);
        }
        match apply_stage_document(&pipeline[i], accumulator) {
            Ok(next) => {
                accumulator = next;
            },
            Err(e) => {
                proof {
                    lemma_fold_failure_stays(stages, start, document_step(), i + 1);
                }
                return Err(e);
            },
        }
        i = i + 1;
    }
    proof {
        lemma_fold_whole(stages, start, document_step());
    }
    Ok(accumulator)
}

/// Translates a pipeline into the text of the query it stands for.
pub fn translate_aggregate_pipeline(pipeline: &Vec<Document>) -> (r: Result<
    String,
    TranslationError,
>)
    ensures
        text_outcome(r) == aggregate_query_spec(documents_view(pipeline@)),
{
    match apply_pipeline(pipeline, QueryPlanBuilder::new()) {
        Ok(builder) => Ok(builder.build().to_sql()),
        Err(e) => Err(e),
    }
}

} // verus!
