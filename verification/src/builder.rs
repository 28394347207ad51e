//! The query builder: from a filter document, query options and a pipeline
//! to one query plan.

use vstd::prelude::*;
use crate::aggregate::{
    apply_pipeline, builder_outcome, documents_view, pipeline_spec, read_sort_keys,
    sort_key_outcomes,
};
use crate::document::{Document, DocumentView, Value, ValueView, lemma_value_view_unfold};
use crate::error::{TranslationError, TranslationErrorView, text_outcome};
use crate::filter::{column, column_text};
use crate::outcome::{
    fold_outcomes, gather, lemma_fold_failure_stays, lemma_fold_next, lemma_fold_whole,
};
use crate::pipeline::{sort_item_outcomes, sort_item_texts};
use crate::plan::{
    BuilderView, PlanView, QueryPlan, QueryPlanBuilder, finish_spec, optional_int,
    ordering_clause, ordering_clause_text,
};
use crate::query::{query_spec, translate_query};
use crate::text::{lemma_texts_push, texts};

verus! {

/// What a caller may ask for beside the filter.
#[derive(Debug)]
pub struct QueryOptions {
    /// The greatest number of rows to return.
    pub limit: Option<i64>,
    /// The number of rows to skip.
    pub skip: Option<i64>,
    /// The ordering: each field with `1` or `-1`.
    pub sort: Option<Document>,
    /// The projection: each field with `1` to include or `0` to exclude.
    pub projection: Option<Document>,
}

/// The mathematical form of [`QueryOptions`].
pub struct OptionsView {
    pub limit: Option<int>,
    pub skip: Option<int>,
    pub sort: Option<DocumentView>,
    pub projection: Option<DocumentView>,
}

/// An optional document as an optional sequence of fields.
pub open spec fn optional_document(o: Option<Document>) -> Option<DocumentView> {
    match o {
        Some(d) => Some(d@),
        None => None,
    }
}

impl View for QueryOptions {
    type V = OptionsView;

    open spec fn view(&self) -> OptionsView {
        OptionsView {
            limit: optional_int(self.limit),
            skip: optional_int(self.skip),
            sort: optional_document(self.sort),
            projection: optional_document(self.projection),
        }
    }
}

/// The outcome of building a plan, as mathematical values.
pub open spec fn plan_outcome(r: Result<QueryPlan, TranslationError>) -> Result<
    PlanView,
    TranslationErrorView,
> {
    match r {
        Ok(p) => Ok(p@),
        Err(e) => Err(e@),
    }
}

/// The outcome of building a list of texts, as mathematical values.
pub open spec fn texts_outcome(r: Result<Vec<String>, TranslationError>) -> Result<
    Seq<Seq<char>>,
    TranslationErrorView,
> {
    match r {
        Ok(items) => Ok(texts(items@)),
        Err(e) => Err(e@),
    }
}

/// The columns gathered from a projection and whether it has included or
/// excluded a field so far.
pub struct ProjectionParts {
    pub columns: Seq<Seq<char>>,
    pub included: bool,
    pub excluded: bool,
}

/// What one entry of a projection adds. `1` includes the field and `0`
/// excludes it; a projection may not do both, and no other value is
/// accepted.
pub open spec fn projection_entry(p: ProjectionParts, entry: (Seq<char>, ValueView)) -> Result<
    ProjectionParts,
    TranslationErrorView,
> {
    match entry.1 {
        ValueView::Int(n) => if n == 1 {
            if p.excluded {
                Err(TranslationErrorView::MixedProjectionMode)
            } else {
                Ok(
                    ProjectionParts {
                        columns: p.columns.push(column(entry.0)),
                        included: true,
                        ..p
                    },
                )
            }
        } else if n == 0 {
            if p.included {
                Err(TranslationErrorView::MixedProjectionMode)
            } else {
                Ok(ProjectionParts { excluded: true, ..p })
            }
        } else {
            Err(TranslationErrorView::InvalidOperatorValue(entry.0))
        },
        _ => Err(TranslationErrorView::InvalidOperatorValue(entry.0)),
    }
}

/// [`projection_entry`] as a step.
pub open spec fn projection_step() -> spec_fn(ProjectionParts, (Seq<char>, ValueView)) -> Result<
    ProjectionParts,
    TranslationErrorView,
> {
    |p: ProjectionParts, entry: (Seq<char>, ValueView)| projection_entry(p, entry)
}

/// The columns that a projection selects, in order. None means every
/// field, which is also what a projection of exclusions alone selects.
pub open spec fn projection_spec(d: DocumentView) -> Result<
    Seq<Seq<char>>,
    TranslationErrorView,
> {
    match fold_outcomes(
        d,
        ProjectionParts { columns: Seq::empty(), included: false, excluded: false },
        projection_step(),
    ) {
        Ok(p) => Ok(p.columns),
        Err(e) => Err(e),
    }
}

/// The items of the ordering that a sort document asks for.
pub open spec fn sort_clause_items(d: DocumentView) -> Result<
    Seq<Seq<char>>,
    TranslationErrorView,
> {
    match gather(sort_key_outcomes(d)) {
        Ok(keys) => gather(sort_item_outcomes(keys)),
        Err(e) => Err(e),
    }
}

/// The ordering clause that a sort document asks for: the keyword and the
/// items separated by commas, or nothing for a document without fields.
pub open spec fn sort_clause_spec(d: DocumentView) -> Result<Seq<char>, TranslationErrorView> {
    match sort_clause_items(d) {
        Ok(items) => Ok(ordering_clause(items)),
        Err(e) => Err(e),
    }
}

/// The columns of an optional projection.
pub open spec fn optional_projection(o: Option<DocumentView>) -> Result<
    Seq<Seq<char>>,
    TranslationErrorView,
> {
    match o {
        Some(d) => projection_spec(d),
        None => Ok(Seq::empty()),
    }
}

/// The items of an optional ordering.
pub open spec fn optional_sort(o: Option<DocumentView>) -> Result<
    Seq<Seq<char>>,
    TranslationErrorView,
> {
    match o {
        Some(d) => sort_clause_items(d),
        None => Ok(Seq::empty()),
    }
}

/// The row predicates that a filter document contributes: none where it
/// has no fields, otherwise its translation.
pub open spec fn base_filters(filter: DocumentView, predicate: Seq<char>) -> Seq<Seq<char>> {
    if filter.len() == 0 {
        Seq::empty()
    } else {
        seq![predicate]
    }
}

/// What the filter and the options make of an empty plan. The projection
/// is read first, then the filter, then the ordering; the first failure
/// decides.
pub open spec fn options_spec(filter: DocumentView, options: OptionsView) -> Result<
    BuilderView,
    TranslationErrorView,
> {
    match optional_projection(options.projection) {
        Ok(columns) => match query_spec(filter) {
            Ok(predicate) => match optional_sort(options.sort) {
                Ok(items) => Ok(
                    BuilderView {
                        columns,
                        filters: base_filters(filter, predicate),
                        group_by: Seq::empty(),
                        having: Seq::empty(),
                        order_by: items,
                        offset: options.skip,
                        limit: options.limit,
                        grouped: false,
                    },
                ),
                Err(e) => Err(e),
            },
            Err(e) => Err(e),
        },
        Err(e) => Err(e),
    }
}

/// The plan that a filter, options and a pipeline stand for: the options
/// are applied first, then the stages of the pipeline in order.
pub open spec fn build_spec(
    filter: DocumentView,
    options: OptionsView,
    pipeline: Seq<DocumentView>,
) -> Result<PlanView, TranslationErrorView> {
    match options_spec(filter, options) {
        Ok(b) => match pipeline_spec(b, pipeline) {
            Ok(done) => Ok(finish_spec(done)),
            Err(e) => Err(e),
        },
        Err(e) => Err(e),
    }
}

impl QueryOptions {
    /// Options that ask for nothing.
    pub fn none() -> (r: QueryOptions)
        ensures
            r@ == (OptionsView { limit: None, skip: None, sort: None, projection: None }),
    {
        QueryOptions { limit: None, skip: None, sort: None, projection: None }
    }
}

/// Reads a projection into the columns it selects.
pub fn build_projection(projection: &Document) -> (r: Result<Vec<String>, TranslationError>)
    ensures
        texts_outcome(r) == projection_spec(projection@),
{
    let ghost start = ProjectionParts { columns: Seq::empty(), included: false, excluded: false };
    let ghost entries = projection@;
    let mut columns: Vec<String> = Vec::new();
    let mut included = false;
    let mut excluded = false;
    let mut i: usize = 0;
    proof {
        assert(texts(columns@) =~= Seq::<Seq<char>>::empty());
    }
    while i < projection.fields.len()
        invariant
            i <= projection.fields.len(),
            entries == projection@,
            start == (ProjectionParts { columns: Seq::empty(), included: false, excluded: false }),
            fold_outcomes(entries.take(i as int), start, projection_step()) == Ok::<
                ProjectionParts,
                TranslationErrorView,
            >(ProjectionParts { columns: texts(columns@), included, excluded }),
        decreases projection.fields.len() - i,
    {
        proof {
            lemma_fold_next(entries, start, projection_step(), i as int);
            lemma_value_view_unfold(projection.fields[i as int].1);
        }
        let name = &projection.fields[i].0;
        let mut failure: Option<TranslationError> = None;
        match &projection.fields[i].1 {
            Value::Int(n) => {
                if *n == 1 {
                    if excluded {
                        failure = Some(TranslationError::MixedProjectionMode);
                    } else {
                        let c = column_text(name.as_str());
                        proof {
                            lemma_texts_push(columns@, c);
                        }
                        columns.push(c);
                        included = true;
                    }
                } else if *n == 0 {
                    if included {
                        failure = Some(TranslationError::MixedProjectionMode);
                    } else {
                        excluded = true;
                    }
                } else {
                    failure = Some(TranslationError::InvalidOperatorValue(name.clone()));
                }
            },
            _ => {
                failure = Some(TranslationError::InvalidOperatorValue(name.clone()));
            },
        }
        match failure {
            Some(e) => {
                proof {
                    lemma_fold_failure_stays(entries, start, projection_step(), i + 1);
                }
                return Err(e);
            },
            None => {},
        }
        i = i + 1;
    }
    proof {
        lemma_fold_whole(entries, start, projection_step());
    }
    Ok(columns)
}

/// Reads a sort document into the items of the ordering.
pub fn build_sort_items(sort: &Document) -> (r: Result<Vec<String>, TranslationError>)
    ensures
        texts_outcome(r) == sort_clause_items(sort@),
{
    match read_sort_keys(sort) {
        Ok(keys) => sort_item_texts(&keys),
        Err(e) => Err(e),
    }
}

/// Reads a sort document into the ordering clause it asks for: the
/// keyword and the items separated by commas, or nothing for a document
/// without fields.
pub fn build_sort_clause(sort: &Document) -> (r: Result<String, TranslationError>)
    ensures
        text_outcome(r) == sort_clause_spec(sort@),
{
    match build_sort_items(sort) {
        Ok(items) => Ok(ordering_clause_text(&items)),
        Err(e) => Err(e),
    }
}

/// Applies the filter and the options to an empty plan.
pub fn apply_options(filter: &Document, options: &QueryOptions) -> (r: Result<
    QueryPlanBuilder,
    TranslationError,
>)
    ensures
        builder_outcome(r) == options_spec(filter@, options@),
{
    let columns = match &options.projection {
        Some(d) => match build_projection(d) {
            Ok(columns) => columns,
            Err(e) => {
                return Err(e);
            },
        },
        None => {
            let columns: Vec<String> = Vec::new();
            proof {
                assert(texts(columns@) =~= Seq::<Seq<char>>::empty());
            }
            columns
        },
    };
    let predicate = match translate_query(filter) {
        Ok(predicate) => predicate,
        Err(e) => {
            return Err(e);
        },
    };
    let order_by = match &options.sort {
        Some(d) => match build_sort_items(d) {
            Ok(items) => items,
            Err(e) => {
                return Err(e);
            },
        },
        None => {
            let items: Vec<String> = Vec::new();
            proof {
                assert(texts(items@) =~= Seq::<Seq<char>>::empty());
            }
            items
        },
    };
    let mut filters: Vec<String> = Vec::new();
    if filter.len() > 0 {
        filters.push(predicate);
    }
    let b = QueryPlanBuilder {
        columns,
        filters,
        group_by: Vec::new(),
        having: Vec::new(),
        order_by,
        offset: options.skip,
        limit: options.limit,
        grouped: false,
    };
    proof {
        assert(b@.filters =~= base_filters(filter@, predicate@));
        assert(b@.group_by =~= Seq::<Seq<char>>::empty());
        assert(b@.having =~= Seq::<Seq<char>>::empty());
    }
    Ok(b)
}

/// Builds the plan of one query from its filter, its options and its
/// pipeline.
///
/// The plan is a function of the three arguments alone.
pub fn build_sql_query(filter: &Document, options: &QueryOptions, pipeline: &Vec<Document>) -> (r:
    Result<QueryPlan, TranslationError>)
    ensures
        plan_outcome(r) == build_spec(filter@, options@, documents_view(pipeline@)),
{
    match apply_options(filter, options) {
        Ok(b) => match apply_pipeline(pipeline, b) {
            Ok(done) => Ok(done.build()),
            Err(e) => Err(e),
        },
        Err(e) => Err(e),
    }
}

} // verus!
