//! Query plans: the parts of one query, how a builder gathers them, and the
//! query text they make.

use vstd::prelude::*;
use vstd::string::*;
use crate::text::{bracketed, decimal_text, integer_text, join, join_bracketed, join_texts, texts};

verus! {

/// The parts of one query while they are being gathered.
#[derive(Debug)]
pub struct QueryPlanBuilder {
    /// The columns to select; none means every field.
    pub columns: Vec<String>,
    /// The predicates that rows must meet before grouping.
    pub filters: Vec<String>,
    /// The columns to group by.
    pub group_by: Vec<String>,
    /// The predicates that groups must meet.
    pub having: Vec<String>,
    /// The columns to order by, each with its direction.
    pub order_by: Vec<String>,
    /// How many rows to skip.
    pub offset: Option<i64>,
    /// How many rows to return at most.
    pub limit: Option<i64>,
    /// Whether a grouping has been recorded.
    pub grouped: bool,
}

/// The mathematical form of a [`QueryPlanBuilder`].
pub struct BuilderView {
    pub columns: Seq<Seq<char>>,
    pub filters: Seq<Seq<char>>,
    pub group_by: Seq<Seq<char>>,
    pub having: Seq<Seq<char>>,
    pub order_by: Seq<Seq<char>>,
    pub offset: Option<int>,
    pub limit: Option<int>,
    pub grouped: bool,
}

/// An optional machine integer as an optional mathematical one.
pub open spec fn optional_int(o: Option<i64>) -> Option<int> {
    match o {
        Some(n) => Some(n as int),
        None => None,
    }
}

impl View for QueryPlanBuilder {
    type V = BuilderView;

    open spec fn view(&self) -> BuilderView {
        BuilderView {
            columns: texts(self.columns@),
            filters: texts(self.filters@),
            group_by: texts(self.group_by@),
            having: texts(self.having@),
            order_by: texts(self.order_by@),
            offset: optional_int(self.offset),
            limit: optional_int(self.limit),
            grouped: self.grouped,
        }
    }
}

/// A finished query plan.
#[derive(Debug)]
pub struct QueryPlan {
    /// The columns to select; none means every field.
    pub projection: Vec<String>,
    /// The predicate that rows must meet.
    pub predicate: String,
    /// The columns to group by.
    pub group_by: Vec<String>,
    /// The predicates that groups must meet.
    pub having: Vec<String>,
    /// The ordering clause with its keyword, or nothing.
    pub order_by: String,
    /// The number of rows to skip in decimal, or nothing.
    pub offset: String,
    /// The greatest number of rows to return in decimal, or nothing.
    pub limit: String,
}

/// The mathematical form of a [`QueryPlan`].
pub struct PlanView {
    pub projection: Seq<Seq<char>>,
    pub predicate: Seq<char>,
    pub group_by: Seq<Seq<char>>,
    pub having: Seq<Seq<char>>,
    pub order_by: Seq<char>,
    pub offset: Seq<char>,
    pub limit: Seq<char>,
}

impl View for QueryPlan {
    type V = PlanView;

    open spec fn view(&self) -> PlanView {
        PlanView {
            projection: texts(self.projection@),
            predicate: self.predicate@,
            group_by: texts(self.group_by@),
            having: texts(self.having@),
            order_by: self.order_by@,
            offset: self.offset@,
            limit: self.limit@,
        }
    }
}

/// A builder that has gathered nothing.
pub open spec fn empty_builder() -> BuilderView {
    BuilderView {
        columns: Seq::empty(),
        filters: Seq::empty(),
        group_by: Seq::empty(),
        having: Seq::empty(),
        order_by: Seq::empty(),
        offset: None,
        limit: None,
        grouped: false,
    }
}

/// Predicates taken together: none holds of every row, a single one stands
/// for itself, several are bracketed and joined by `AND`.
pub open spec fn conjoined(parts: Seq<Seq<char>>) -> Seq<char> {
    if parts.len() == 0 {
        "TRUE"@
    } else if parts.len() == 1 {
        parts[0]
    } else {
        join(bracketed(parts), " AND "@)
    }
}

/// An optional number in decimal, or nothing.
pub open spec fn optional_number(o: Option<int>) -> Seq<char> {
    match o {
        Some(n) => decimal_text(n),
        None => Seq::empty(),
    }
}

/// The plan that a builder stands for.
pub open spec fn finish_spec(b: BuilderView) -> PlanView {
    PlanView {
        projection: b.columns,
        predicate: conjoined(b.filters),
        group_by: b.group_by,
        having: b.having,
        order_by: ordering_clause(b.order_by),
        offset: optional_number(b.offset),
        limit: optional_number(b.limit),
    }
}

/// A clause of the query text: nothing where the body is empty, otherwise
/// the keyword and the body.
pub open spec fn clause(keyword: Seq<char>, body: Seq<char>) -> Seq<char> {
    if body.len() == 0 {
        Seq::empty()
    } else {
        keyword + body
    }
}

/// The ordering clause of a list of items: nothing for no item, otherwise
/// the keyword and the items separated by commas.
pub open spec fn ordering_clause(items: Seq<Seq<char>>) -> Seq<char> {
    clause(" ORDER BY "@, join(items, ", "@))
}

/// The select list of a plan: `*` for every field, otherwise the columns
/// separated by commas.
pub open spec fn select_list(projection: Seq<Seq<char>>) -> Seq<char> {
    if projection.len() == 0 {
        "*"@
    } else {
        join(projection, ", "@)
    }
}

/// The group predicates of a plan as one text: nothing where there is none,
/// otherwise each between brackets, joined by `AND`.
pub open spec fn having_text(having: Seq<Seq<char>>) -> Seq<char> {
    if having.len() == 0 {
        Seq::empty()
    } else {
        join(bracketed(having), " AND "@)
    }
}

/// The query text of a plan.
pub open spec fn sql_spec(p: PlanView) -> Seq<char> {
    "SELECT "@ + select_list(p.projection) + " FROM c WHERE "@ + p.predicate + clause(
        " GROUP BY "@,
        join(p.group_by, ", "@),
    ) + clause(" HAVING "@, having_text(p.having)) + p.order_by + clause(
        " OFFSET "@,
        p.offset,
    ) + clause(" LIMIT "@, p.limit)
}

/// Writes predicates taken together.
pub fn conjoin_texts(parts: &Vec<String>) -> (r: String)
    ensures
        r@ == conjoined(texts(parts@)),
{
    if parts.len() == 0 {
        String::from_str("TRUE")
    } else if parts.len() == 1 {
        parts[0].clone()
    } else {
        join_bracketed(parts, " AND ")
    }
}

/// Writes an optional number in decimal, or nothing.
pub fn optional_number_text(o: Option<i64>) -> (r: String)
    ensures
        r@ == optional_number(optional_int(o)),
{
    match o {
        Some(n) => integer_text(n),
        None => String::new(),
    }
}

/// Writes the ordering clause of a list of items.
pub fn ordering_clause_text(items: &Vec<String>) -> (r: String)
    ensures
        r@ == ordering_clause(texts(items@)),
{
    let mut out = String::new();
    push_clause(&mut out, " ORDER BY ", join_texts(items, ", ").as_str());
    out
}

/// Appends a clause to a query text.
fn push_clause(out: &mut String, keyword: &str, body: &str)
    ensures
        final(out)@ == old(out)@ + clause(keyword@, body@),
{
    if body.unicode_len() > 0 {
        out.append(keyword);
        out.append(body);
    }
}

impl QueryPlanBuilder {
    /// A builder that has gathered nothing.
    pub fn new() -> (r: QueryPlanBuilder)
        ensures
            r@ == empty_builder(),
    {
        let r = QueryPlanBuilder {
            columns: Vec::new(),
            filters: Vec::new(),
            group_by: Vec::new(),
            having: Vec::new(),
            order_by: Vec::new(),
            offset: None,
            limit: None,
            grouped: false,
        };
        proof {
            assert(r@.columns =~= Seq::<Seq<char>>::empty());
            assert(r@.filters =~= Seq::<Seq<char>>::empty());
            assert(r@.group_by =~= Seq::<Seq<char>>::empty());
            assert(r@.having =~= Seq::<Seq<char>>::empty());
            assert(r@.order_by =~= Seq::<Seq<char>>::empty());
        }
        r
    }

    /// Closes the builder and hands out the plan it stands for.
    pub fn build(self) -> (r: QueryPlan)
        ensures
            r@ == finish_spec(self@),
    {
        let predicate = conjoin_texts(&self.filters);
        let order_by = ordering_clause_text(&self.order_by);
        let offset = optional_number_text(self.offset);
        let limit = optional_number_text(self.limit);
        QueryPlan {
            projection: self.columns,
            predicate,
            group_by: self.group_by,
            having: self.having,
            order_by,
            offset,
            limit,
        }
    }
}

impl QueryPlan {
    /// Writes the plan as one query text.
    pub fn to_sql(&self) -> (r: String)
        ensures
            r@ == sql_spec(self@),
    {
        let mut out = String::from_str("SELECT ");
        if self.projection.len() == 0 {
            out.append("*");
        } else {
            out.append(join_texts(&self.projection, ", ").as_str());
        }
        out.append(" FROM c WHERE ");
        out.append(self.predicate.as_str());
        push_clause(&mut out, " GROUP BY ", join_texts(&self.group_by, ", ").as_str());
        if self.having.len() == 0 {
            push_clause(&mut out, " HAVING ", "");
            proof {
                reveal_strlit("");
            }
        } else {
            push_clause(&mut out, " HAVING ", join_bracketed(&self.having, " AND ").as_str());
        }
        out.append(self.order_by.as_str());
        push_clause(&mut out, " OFFSET ", self.offset.as_str());
        push_clause(&mut out, " LIMIT ", self.limit.as_str());
        out
    }
}

} // verus!
