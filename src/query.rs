use vstd::prelude::*;

use crate::embed::{embed_text, embedding};
use crate::error::{ErrorView, HelixError, HelixResult};
use crate::text::{
    chars_to_string, find_char, first_index, has_prefix, last_index, lemma_first_index_bounds,
    lemma_last_index_bounds, rfind_char, slice_chars, starts_with, strip, strip_chars, to_chars,
    trim, trim_chars,
};
use crate::vector::{default_k, default_metric, SimilarityMetric};

verus! {

/// A named query text.
pub struct HelixQuery {
    pub name: String,
    pub source: String,
}

/// A named query text fixed at compile time.
pub struct HelixQueryLiteral {
    pub name: &'static str,
    pub source: &'static str,
}

impl HelixQuery {
    /// The owned form of a literal query.
    pub fn from_literal(value: HelixQueryLiteral) -> (r: HelixQuery)
        ensures
            r.name@ == value.name@,
            r.source@ == value.source@,
    {
        HelixQuery { name: String::from_str(value.name), source: String::from_str(value.source) }
    }
}

impl From<HelixQueryLiteral> for HelixQuery {
    fn from(value: HelixQueryLiteral) -> HelixQuery {
        HelixQuery::from_literal(value)
    }
}

impl vstd::std_specs::convert::FromSpecImpl<HelixQueryLiteral> for HelixQuery {
    open spec fn obeys_from_spec() -> bool {
        false
    }

    open spec fn from_spec(v: HelixQueryLiteral) -> HelixQuery {
        arbitrary()
    }
}

/// A request to run a pipeline query.
pub struct HelixQlRequest {
    pub query: String,
    pub params: serde_json::Value,
    pub metric: SimilarityMetric,
    pub top_k: usize,
}

impl HelixQlRequest {
    /// A request with the default metric (cosine) and the default number of
    /// matches (10).
    pub fn new(query: String, params: serde_json::Value) -> (r: HelixQlRequest)
        ensures
            r.query@ == query@,
            r.params == params,
            r.metric == SimilarityMetric::Cosine,
            r.top_k == 10,
    {
        HelixQlRequest { query, params, metric: default_metric(), top_k: default_k() }
    }
}

/// One recognised statement of a pipeline.
pub enum Statement {
    Embed { text: String, model: String },
    VectorSearch,
    Return(String),
}

pub enum StatementView {
    Embed(Seq<char>, Seq<char>),
    VectorSearch,
    Return(Seq<char>),
}

impl View for Statement {
    type V = StatementView;

    open spec fn view(&self) -> StatementView {
        match self {
            Statement::Embed { text, model } => StatementView::Embed(text@, model@),
            Statement::VectorSearch => StatementView::VectorSearch,
            Statement::Return(x) => StatementView::Return(x@),
        }
    }
}

/// What a pipeline comes to: a vector search for the given query vector,
/// or a literal payload.
pub enum QueryPlan {
    Search(Vec<u32>),
    Return(String),
}

pub enum PlanView {
    Search(Seq<u32>),
    Return(Seq<char>),
}

impl View for QueryPlan {
    type V = PlanView;

    open spec fn view(&self) -> PlanView {
        match self {
            QueryPlan::Search(v) => PlanView::Search(v@),
            QueryPlan::Return(x) => PlanView::Return(x@),
        }
    }
}

pub open spec fn result_view<T: View>(r: HelixResult<T>) -> Result<T::V, ErrorView> {
    match r {
        Ok(v) => Ok(v@),
        Err(e) => Err(e@),
    }
}

pub open spec fn pair_view(r: HelixResult<(String, String)>) -> Result<(Seq<char>, Seq<char>), ErrorView> {
    match r {
        Ok(p) => Ok((p.0@, p.1@)),
        Err(e) => Err(e@),
    }
}

pub open spec fn missing_open_message() -> Seq<char> {
    "Embed statement missing '('"@
}

pub open spec fn missing_close_message() -> Seq<char> {
    "Embed statement missing ')'"@
}

pub open spec fn two_arguments_message() -> Seq<char> {
    "Embed expects two arguments"@
}

pub open spec fn unsupported_message(stmt: Seq<char>) -> Seq<char> {
    "Unsupported HelixQL statement: "@ + stmt
}

pub open spec fn missing_embed_message() -> Seq<char> {
    "Embed step required before VectorSearch"@
}

pub open spec fn no_statement_message() -> Seq<char> {
    "No executable statements in query"@
}

/// The arguments of an `Embed(<text>, <model>)` statement: what lies
/// between the first `(` and the last `)`, split at its one comma, each
/// part trimmed of whitespace and then of quotation marks.
pub open spec fn embed_args(stmt: Seq<char>) -> Result<(Seq<char>, Seq<char>), ErrorView> {
    let open = first_index(stmt, '(');
    let close = last_index(stmt, ')');
    if open >= stmt.len() {
        Err(ErrorView::Query(missing_open_message()))
    } else if close <= open {
        Err(ErrorView::Query(missing_close_message()))
    } else {
        let inner = stmt.subrange(open + 1, close);
        let comma = first_index(inner, ',');
        let after = inner.skip(comma + 1);
        if comma >= inner.len() || first_index(after, ',') < after.len() {
            Err(ErrorView::Query(two_arguments_message()))
        } else {
            Ok((strip(trim(inner.take(comma)), true), strip(trim(after), true)))
        }
    }
}

/// The position of the assignment arrow's `<` in a statement.
pub open spec fn arrow_at(stmt: Seq<char>) -> int {
    first_index(stmt, '<')
}

/// The statement has the form `<var> <- ...` with a non-empty variable.
pub open spec fn is_assignment(stmt: Seq<char>) -> bool {
    trim(stmt.take(arrow_at(stmt))).len() > 0 && starts_with(stmt.skip(arrow_at(stmt)), "<-"@)
}

/// What an assignment statement assigns, trimmed.
pub open spec fn assigned(stmt: Seq<char>) -> Seq<char> {
    trim(stmt.skip(arrow_at(stmt) + 2))
}

/// The meaning of one trimmed, non-empty statement.
pub open spec fn statement_of(stmt: Seq<char>) -> Result<StatementView, ErrorView> {
    if starts_with(stmt, "RETURN"@) {
        Ok(StatementView::Return(trim(stmt.skip(6))))
    } else if is_assignment(stmt) && starts_with(assigned(stmt), "Embed"@) {
        match embed_args(stmt) {
            Ok(p) => Ok(StatementView::Embed(p.0, p.1)),
            Err(e) => Err(e),
        }
    } else if is_assignment(stmt) && starts_with(assigned(stmt), "VectorSearch"@) {
        Ok(StatementView::VectorSearch)
    } else {
        Err(ErrorView::Query(unsupported_message(stmt)))
    }
}

/// What the pipeline `q` comes to when `cur` is the current vector: its
/// `;`-separated statements run left to right, empty ones skipped, until
/// one ends it.
pub open spec fn run(q: Seq<char>, cur: Option<Seq<u32>>) -> Result<PlanView, ErrorView>
    decreases q.len(),
{
    let p = first_index(q, ';');
    let more = 0 <= p < q.len();
    let stmt = trim(q.take(p));
    if stmt.len() == 0 {
        if more {
            run(q.skip(p + 1), cur)
        } else {
            Err(ErrorView::Query(no_statement_message()))
        }
    } else {
        match statement_of(stmt) {
            Err(e) => Err(e),
            Ok(StatementView::Return(x)) => Ok(PlanView::Return(x)),
            Ok(StatementView::VectorSearch) => match cur {
                Some(v) => Ok(PlanView::Search(v)),
                None => Err(ErrorView::Query(missing_embed_message())),
            },
            Ok(StatementView::Embed(t, m)) => if more {
                run(q.skip(p + 1), Some(embedding(t, m)))
            } else {
                Err(ErrorView::Query(no_statement_message()))
            },
        }
    }
}

/// What the pipeline `q` comes to, run from the start.
pub open spec fn plan_of(q: Seq<char>) -> Result<PlanView, ErrorView> {
    run(q, None)
}

/// An empty statement is skipped: a pipeline that starts with `;` comes to
/// what the rest of it comes to.
pub proof fn lemma_empty_statement_skipped(q: Seq<char>, cur: Option<Seq<u32>>)
    ensures
        run(seq![';'] + q, cur) == run(q, cur),
{
    let full = seq![';'] + q;
    assert(full[0] == ';');
    assert(first_index(full, ';') == 0);
    assert(full.take(0) =~= Seq::<char>::empty());
    assert(full.skip(1) =~= q);
}

pub open spec fn current_view(cur: Option<Vec<u32>>) -> Option<Seq<u32>> {
    match cur {
        Some(v) => Some(v@),
        None => None,
    }
}

fn query_error(msg: &str) -> (r: HelixError)
    ensures
        r@ == ErrorView::Query(msg@),
{
    HelixError::Query(String::from_str(msg))
}

/// The text and model of an `Embed(<text>, <model>)` statement.
pub fn parse_embed(stmt: &str) -> (r: HelixResult<(String, String)>)
    ensures
        pair_view(r) == embed_args(stmt@),
{
    embed_arguments(&to_chars(stmt))
}

fn embed_arguments(stmt: &Vec<char>) -> (r: HelixResult<(String, String)>)
    ensures
        pair_view(r) == embed_args(stmt@),
{
    proof {
        lemma_first_index_bounds(stmt@, '(');
        lemma_last_index_bounds(stmt@, ')');
    }
    let open = find_char(stmt, '(');
    if open >= stmt.len() {
        return Err(query_error("Embed statement missing '('"));
    }
    let close = match rfind_char(stmt, ')') {
        Some(c) => c,
        None => {
            return Err(query_error("Embed statement missing ')'"));
        },
    };
    if close <= open {
        return Err(query_error("Embed statement missing ')'"));
    }
    let inner = slice_chars(stmt, open + 1, close);
    proof {
        lemma_first_index_bounds(inner@, ',');
    }
    let comma = find_char(&inner, ',');
    if comma >= inner.len() {
        return Err(query_error("Embed expects two arguments"));
    }
    let after = slice_chars(&inner, comma + 1, inner.len());
    assert(after@ =~= inner@.skip(comma + 1));
    if find_char(&after, ',') < after.len() {
        return Err(query_error("Embed expects two arguments"));
    }
    let head = slice_chars(&inner, 0, comma);
    assert(head@ =~= inner@.take(comma as int));
    let text = strip_chars(&trim_chars(&head), true);
    let model = strip_chars(&trim_chars(&after), true);
    Ok((chars_to_string(&text), chars_to_string(&model)))
}

/// The meaning of one trimmed, non-empty statement; an unrecognised
/// statement is a `Query` error that quotes it.
pub fn parse_statement(stmt: &Vec<char>) -> (r: HelixResult<Statement>)
    ensures
        result_view(r) == statement_of(stmt@),
{
    let kw_return = to_chars("RETURN");
    proof {
        reveal_strlit("RETURN");
        reveal_strlit("<-");
    }
    if has_prefix(stmt, &kw_return) {
        let tail = slice_chars(stmt, 6, stmt.len());
        assert(tail@ =~= stmt@.skip(6));
        let x = trim_chars(&tail);
        return Ok(Statement::Return(chars_to_string(&x)));
    }
    proof {
        lemma_first_index_bounds(stmt@, '<');
    }
    let at = find_char(stmt, '<');
    let lhs = trim_chars(&slice_chars(stmt, 0, at));
    let tail = slice_chars(stmt, at, stmt.len());
    assert(tail@ =~= stmt@.skip(at as int));
    proof {
        assert(stmt@.subrange(0, at as int) =~= stmt@.take(at as int));
    }
    let arrow = to_chars("<-");
    if lhs.len() > 0 && has_prefix(&tail, &arrow) {
        let rhs = trim_chars(&slice_chars(stmt, at + 2, stmt.len()));
        assert(stmt@.subrange(at + 2, stmt@.len() as int) =~= stmt@.skip(at + 2));
        let kw_embed = to_chars("Embed");
        let kw_search = to_chars("VectorSearch");
        if has_prefix(&rhs, &kw_embed) {
            return match embed_arguments(stmt) {
                Ok(p) => Ok(Statement::Embed { text: p.0, model: p.1 }),
                Err(e) => Err(e),
            };
        } else if has_prefix(&rhs, &kw_search) {
            return Ok(Statement::VectorSearch);
        }
    }
    let quoted = chars_to_string(stmt);
    let msg = String::from_str("Unsupported HelixQL statement: ").concat(quoted.as_str());
    Err(HelixError::Query(msg))
}

/// Runs the pipeline `query` up to the statement that ends it: a
/// `VectorSearch` gives the search to perform, with the current vector; a
/// `RETURN` gives its payload. Everything else is decided here.
pub fn plan_query(query: &str) -> (r: HelixResult<QueryPlan>)
    ensures
        result_view(r) == plan_of(query@),
{
    let mut rest = to_chars(query);
    let mut cur: Option<Vec<u32>> = None;
    loop
        invariant
            run(rest@, current_view(cur)) == plan_of(query@),
        decreases rest@.len(),
    {
        proof {
            lemma_first_index_bounds(rest@, ';');
        }
        let p = find_char(&rest, ';');
        let head = slice_chars(&rest, 0, p);
        assert(head@ =~= rest@.take(p as int));
        let stmt = trim_chars(&head);
        let more = p < rest.len();
        if stmt.len() == 0 {
            if !more {
                return Err(query_error("No executable statements in query"));
            }
            let next = slice_chars(&rest, p + 1, rest.len());
            assert(next@ =~= rest@.skip(p + 1));
            rest = next;
        } else {
            match parse_statement(&stmt) {
                Err(e) => {
                    return Err(e);
                },
                Ok(Statement::Return(x)) => {
                    return Ok(QueryPlan::Return(x));
                },
                Ok(Statement::VectorSearch) => {
                    return match cur {
                        Some(v) => Ok(QueryPlan::Search(v)),
                        None => Err(query_error("Embed step required before VectorSearch")),
                    };
                },
                Ok(Statement::Embed { text, model }) => {
                    if !more {
                        return Err(query_error("No executable statements in query"));
                    }
                    cur = Some(embed_text(text.as_str(), model.as_str()));
                    let next = slice_chars(&rest, p + 1, rest.len());
                    assert(next@ =~= rest@.skip(p + 1));
                    rest = next;
                },
            }
        }
    }
}

} // verus!
