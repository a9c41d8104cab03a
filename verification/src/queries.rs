//! The database queries behind the collector's read endpoints: their
//! filters, bound parameters, paging, and the figures computed from their
//! results.
use vstd::prelude::*;
use crate::collection::ApiError;
use crate::process_log::{join, views, join_strings};
use crate::text::{contains, decimal, ends_with, is_blank, is_blank_str, occurs_at, push_decimal, push_str, string_from_chars};

verus! {

broadcast use vstd::string::group_string_axioms;

/// A value bound to a `?` placeholder.
#[derive(Debug)]
pub enum SqlParam {
    Text(String),
    Integer(i64),
}

/// The model of a bound value.
pub enum SqlArg {
    Text(Seq<char>),
    Integer(int),
}

impl View for SqlParam {
    type V = SqlArg;

    open spec fn view(&self) -> SqlArg {
        match self {
            SqlParam::Text(s) => SqlArg::Text(s@),
            SqlParam::Integer(i) => SqlArg::Integer(*i as int),
        }
    }
}

/// The models of bound values.
pub open spec fn args_view(params: Seq<SqlParam>) -> Seq<SqlArg> {
    Seq::new(params.len(), |i: int| params[i]@)
}

/// A clause and its bound value, when the filter is given.
pub open spec fn opt_filter<T>(given: Option<T>, clause: Seq<char>) -> Seq<Seq<char>> {
    match given {
        Some(_) => seq![clause],
        None => Seq::empty(),
    }
}

/// The bound value of an optional integer filter.
pub open spec fn opt_int_arg(v: Option<i64>) -> Seq<SqlArg> {
    match v {
        Some(x) => seq![SqlArg::Integer(x as int)],
        None => Seq::empty(),
    }
}

/// The bound value of an optional text filter.
pub open spec fn opt_text_arg(v: Option<String>) -> Seq<SqlArg> {
    match v {
        Some(x) => seq![SqlArg::Text(x@)],
        None => Seq::empty(),
    }
}

fn push_opt_int(clauses: &mut Vec<String>, params: &mut Vec<SqlParam>, v: Option<i64>, clause: &str)
    ensures
        views(final(clauses)@) == views(old(clauses)@) + opt_filter(v, clause@),
        args_view(final(params)@) == args_view(old(params)@) + opt_int_arg(v),
{
    let ghost c0 = clauses@;
    let ghost p0 = params@;
    if let Some(x) = v {
        clauses.push(clause.to_string());
        params.push(SqlParam::Integer(x));
        assert(views(clauses@) =~= views(c0) + opt_filter(v, clause@));
        assert(args_view(params@) =~= args_view(p0) + opt_int_arg(v));
    } else {
        assert(views(clauses@) =~= views(c0) + opt_filter(v, clause@));
        assert(args_view(params@) =~= args_view(p0) + opt_int_arg(v));
    }
}

fn push_opt_text(clauses: &mut Vec<String>, params: &mut Vec<SqlParam>, v: &Option<String>, clause: &str)
    ensures
        views(final(clauses)@) == views(old(clauses)@) + opt_filter(*v, clause@),
        args_view(final(params)@) == args_view(old(params)@) + opt_text_arg(*v),
{
    let ghost c0 = clauses@;
    let ghost p0 = params@;
    if let Some(x) = v {
        clauses.push(clause.to_string());
        params.push(SqlParam::Text(x.clone()));
        assert(views(clauses@) =~= views(c0) + opt_filter(*v, clause@));
        assert(args_view(params@) =~= args_view(p0) + opt_text_arg(*v));
    } else {
        assert(views(clauses@) =~= views(c0) + opt_filter(*v, clause@));
        assert(args_view(params@) =~= args_view(p0) + opt_text_arg(*v));
    }
}

// ---------------------------------------------------------------------
// Paging
// ---------------------------------------------------------------------

/// The requested page, 1 when absent or 0.
pub open spec fn page_number(page: Option<u32>) -> u32 {
    match page {
        Some(p) => if p < 1 { 1 } else { p },
        None => 1,
    }
}

/// The requested page size, 50 when absent, kept within 1..=200.
pub open spec fn page_size_value(page_size: Option<u32>) -> u32 {
    match page_size {
        Some(s) => if s < 1 { 1 } else if s > 200 { 200 } else { s },
        None => 50,
    }
}

/// The number of rows skipped before the requested page.
pub open spec fn page_offset(page: Option<u32>, page_size: Option<u32>) -> int {
    (page_number(page) - 1) * page_size_value(page_size)
}

fn paging(page: Option<u32>, page_size: Option<u32>) -> (r: (u32, u32, u32))
    requires
        page_offset(page, page_size) <= u32::MAX,
    ensures
        r.0 == page_number(page),
        r.1 == page_size_value(page_size),
        r.2 == page_offset(page, page_size),
{
    let p: u32 = match page {
        Some(x) => if x < 1 { 1 } else { x },
        None => 1,
    };
    let s: u32 = match page_size {
        Some(x) => if x < 1 { 1 } else if x > 200 { 200 } else { x },
        None => 50,
    };
    (p, s, (p - 1) * s)
}

/// Whether the rows skipped before the requested page can be counted in a
/// `u32`, as the query planners need.
pub fn page_offset_fits(page: Option<u32>, page_size: Option<u32>) -> (r: bool)
    ensures
        r == (page_offset(page, page_size) <= u32::MAX),
{
    let p: u64 = match page {
        Some(x) => if x < 1 { 1 } else { x as u64 },
        None => 1,
    };
    let s: u64 = match page_size {
        Some(x) => if x < 1 { 1 } else if x > 200 { 200 } else { x as u64 },
        None => 50,
    };
    assert((p - 1) * s <= 0xffff_ffffu64 * 200) by (nonlinear_arith)
        requires 1 <= p <= 0xffff_ffff, s <= 200;
    (p - 1) * s <= 0xffff_ffffu64
}

/// Law: the page served is the one asked for (the first when none or 0 is
/// asked); its size is the one asked for within 1..=200 (50 by default,
/// the nearest bound outside); it skips the rows of all earlier pages.
pub proof fn lemma_paging(page: Option<u32>, page_size: Option<u32>, p: u32, n: u32)
    ensures
        page_number(page) >= 1,
        page == Some(p) && p >= 1 ==> page_number(page) == p,
        page is None ==> page_number(page) == 1,
        1 <= page_size_value(page_size) <= 200,
        page_size == Some(n) && 1 <= n <= 200 ==> page_size_value(page_size) == n,
        page_size == Some(n) && n > 200 ==> page_size_value(page_size) == 200,
        page_size is None ==> page_size_value(page_size) == 50,
        page_offset(page, page_size) == (page_number(page) - 1) * page_size_value(page_size),
        data_args(seq![], page, page_size)
            == seq![SqlArg::Integer(page_size_value(page_size) as int), SqlArg::Integer(page_offset(page, page_size))],
{
    assert(data_args(seq![], page, page_size) =~= seq![SqlArg::Integer(page_size_value(page_size) as int), SqlArg::Integer(page_offset(page, page_size))]);
}

/// A paged query: the page served, the count query and the data query
/// with their bound values.
#[derive(Debug)]
pub struct PagedQuery {
    pub page: u32,
    pub page_size: u32,
    pub count_sql: String,
    pub count_params: Vec<SqlParam>,
    pub data_sql: String,
    pub data_params: Vec<SqlParam>,
}

/// The bound values of a data query: the filters', then the page size and offset.
pub open spec fn data_args(filters: Seq<SqlArg>, page: Option<u32>, page_size: Option<u32>) -> Seq<SqlArg> {
    filters + seq![SqlArg::Integer(page_size_value(page_size) as int), SqlArg::Integer(page_offset(page, page_size))]
}

fn data_params_of(params: &Vec<SqlParam>, page_size: u32, offset: u32) -> (r: Vec<SqlParam>)
    ensures
        args_view(r@) == args_view(params@) + seq![SqlArg::Integer(page_size as int), SqlArg::Integer(offset as int)],
{
    let mut r: Vec<SqlParam> = Vec::new();
    let mut i: usize = 0;
    while i < params.len()
        invariant
            i <= params@.len(),
            args_view(r@) == args_view(params@).take(i as int),
        decreases params@.len() - i,
    {
        let p = match &params[i] {
            SqlParam::Text(s) => SqlParam::Text(s.clone()),
            SqlParam::Integer(x) => SqlParam::Integer(*x),
        };
        assert(p@ == params@[i as int]@);
        let ghost before = r@;
        r.push(p);
        assert(args_view(r@) =~= args_view(before).push(params@[i as int]@));
        i = i + 1;
        assert(args_view(r@) =~= args_view(params@).take(i as int));
    }
    assert(args_view(params@).take(params@.len() as int) =~= args_view(params@));
    let ghost before = r@;
    r.push(SqlParam::Integer(page_size as i64));
    r.push(SqlParam::Integer(offset as i64));
    assert(args_view(r@) =~= args_view(before) + seq![SqlArg::Integer(page_size as int), SqlArg::Integer(offset as int)]);
    r
}

fn concat3(a: &str, b: &str, c: &str) -> (r: String)
    ensures
        r@ == a@ + b@ + c@,
{
    let mut v: Vec<char> = Vec::new();
    push_str(&mut v, a);
    push_str(&mut v, b);
    push_str(&mut v, c);
    string_from_chars(&v)
}

// ---------------------------------------------------------------------
// Events
// ---------------------------------------------------------------------

/// A query for the events of a session.
#[derive(Debug)]
pub struct EventQuery {
    pub session_id: String,
    pub from_ms: Option<i64>,
    pub to_ms: Option<i64>,
    pub event_type: Option<String>,
    pub page: Option<u32>,
    pub page_size: Option<u32>,
}

/// The filters of an event query: the session, not archived, then the
/// optional time range and event type.
pub open spec fn event_filters(q: EventQuery) -> Seq<Seq<char>> {
    seq!["session_id = ?"@, "is_archived = 0"@]
        + opt_filter(q.from_ms, "created_at_ms >= ?"@)
        + opt_filter(q.to_ms, "created_at_ms <= ?"@)
        + opt_filter(q.event_type, "event_type = ?"@)
}

/// The values bound to the filters of an event query.
pub open spec fn event_args(q: EventQuery) -> Seq<SqlArg> {
    seq![SqlArg::Text(q.session_id@)] + opt_int_arg(q.from_ms) + opt_int_arg(q.to_ms) + opt_text_arg(q.event_type)
}

/// The query that counts matching events.
pub open spec fn event_count_sql(where_sql: Seq<char>) -> Seq<char> {
    "SELECT COUNT(1) FROM events WHERE "@ + where_sql
}

/// The query that reads one page of matching events, newest first.
pub open spec fn event_data_sql(where_sql: Seq<char>) -> Seq<char> {
    "SELECT event_id, session_id, event_type, payload, created_at_ms\n         FROM events WHERE "@ + where_sql
        + "\n         ORDER BY created_at_ms DESC\n         LIMIT ? OFFSET ?"@
}

/// How many of the optional filters before position `k` are given (0, 1 or 2).
pub open spec fn given_before(a: bool, b: bool, k: int) -> int {
    (if k > 0 && a { 1int } else { 0int }) + (if k > 1 && b { 1int } else { 0int })
}

/// Law: an event query keeps the session's live events (not archived),
/// created at or after `from_ms`, at or before `to_ms`, and of the given
/// type: each given filter comes with its clause, in that order, and its
/// value is bound at the matching place after the session id.
pub proof fn lemma_event_query_bounds(q: EventQuery, t: i64, u: i64, ty: String)
    ensures
        event_filters(q).len() == 2 + given_before(q.from_ms is Some, q.to_ms is Some, 2) + (if q.event_type is Some { 1int } else { 0int }),
        event_args(q).len() == event_filters(q).len() - 1,
        event_filters(q)[0] == "session_id = ?"@ && event_filters(q)[1] == "is_archived = 0"@,
        event_args(q)[0] == SqlArg::Text(q.session_id@),
        q.from_ms == Some(t) ==> event_filters(q)[2] == "created_at_ms >= ?"@ && event_args(q)[1] == SqlArg::Integer(t as int),
        q.to_ms == Some(u) ==> {
            let k = 2 + given_before(q.from_ms is Some, false, 1);
            &&& event_filters(q)[k] == "created_at_ms <= ?"@
            &&& event_args(q)[k - 1] == SqlArg::Integer(u as int)
        },
        q.event_type == Some(ty) ==> {
            let k = 2 + given_before(q.from_ms is Some, q.to_ms is Some, 2);
            &&& event_filters(q)[k] == "event_type = ?"@
            &&& event_args(q)[k - 1] == SqlArg::Text(ty@)
        },
{
}

/// Law: the sessions list keeps the sessions of the given agent, active at
/// or after `from_ms` and at or before `to_ms`: each given filter comes with
/// its clause, in that order, and its value is bound at the same place.
pub proof fn lemma_sessions_query_bounds(q: SessionsQuery, src: String, t: i64, u: i64)
    ensures
        session_filters(q).len() == session_args(q).len(),
        session_filters(q).len() == given_before(q.source is Some, q.from_ms is Some, 2) + (if q.to_ms is Some { 1int } else { 0int }),
        q.source == Some(src) ==> session_filters(q)[0] == "s.agent_type = ?"@ && session_args(q)[0] == SqlArg::Text(src@),
        q.from_ms == Some(t) ==> {
            let k = given_before(q.source is Some, false, 1);
            &&& session_filters(q)[k] == "s.last_active_at_ms >= ?"@
            &&& session_args(q)[k] == SqlArg::Integer(t as int)
        },
        q.to_ms == Some(u) ==> {
            let k = given_before(q.source is Some, q.from_ms is Some, 2);
            &&& session_filters(q)[k] == "s.last_active_at_ms <= ?"@
            &&& session_args(q)[k] == SqlArg::Integer(u as int)
        },
{
}

/// Plans an event query; a blank session id is refused.
pub fn plan_event_query(q: &EventQuery) -> (r: Result<PagedQuery, ApiError>)
    requires
        !is_blank(q.session_id@) ==> page_offset(q.page, q.page_size) <= u32::MAX,
    ensures
        is_blank(q.session_id@) ==> (r matches Err(ApiError::BadRequest(m))
            && m@ == "session_id is required for event query"@),
        !is_blank(q.session_id@) ==> (r matches Ok(plan) && {
            let where_sql = join(event_filters(*q), " AND "@);
            &&& plan.page == page_number(q.page)
            &&& plan.page_size == page_size_value(q.page_size)
            &&& plan.count_sql@ == event_count_sql(where_sql)
            &&& plan.data_sql@ == event_data_sql(where_sql)
            &&& args_view(plan.count_params@) == event_args(*q)
            &&& args_view(plan.data_params@) == data_args(event_args(*q), q.page, q.page_size)
        }),
{
    if is_blank_str(q.session_id.as_str()) {
        return Err(ApiError::BadRequest("session_id is required for event query".to_string()));
    }
    let (page, page_size, offset) = paging(q.page, q.page_size);
    let mut clauses: Vec<String> = Vec::new();
    clauses.push("session_id = ?".to_string());
    clauses.push("is_archived = 0".to_string());
    let mut params: Vec<SqlParam> = Vec::new();
    params.push(SqlParam::Text(q.session_id.clone()));
    assert(views(clauses@) =~= seq!["session_id = ?"@, "is_archived = 0"@]);
    assert(args_view(params@) =~= seq![SqlArg::Text(q.session_id@)]);
    push_opt_int(&mut clauses, &mut params, q.from_ms, "created_at_ms >= ?");
    push_opt_int(&mut clauses, &mut params, q.to_ms, "created_at_ms <= ?");
    push_opt_text(&mut clauses, &mut params, &q.event_type, "event_type = ?");
    let where_sql = join_strings(&clauses, " AND ");
    let count_sql = concat3("SELECT COUNT(1) FROM events WHERE ", where_sql.as_str(), "");
    proof {
        reveal_strlit("");
        assert(count_sql@ =~= event_count_sql(where_sql@));
    }
    let data_sql = concat3(
        "SELECT event_id, session_id, event_type, payload, created_at_ms\n         FROM events WHERE ",
        where_sql.as_str(),
        "\n         ORDER BY created_at_ms DESC\n         LIMIT ? OFFSET ?",
    );
    let data_params = data_params_of(&params, page_size, offset);
    Ok(PagedQuery { page, page_size, count_sql, count_params: params, data_sql, data_params })
}

// ---------------------------------------------------------------------
// Evaluations
// ---------------------------------------------------------------------

/// A query for the evaluations of a session.
#[derive(Debug)]
pub struct EvaluationQuery {
    pub session_id: String,
    pub from_ms: Option<i64>,
    pub to_ms: Option<i64>,
    pub page: Option<u32>,
    pub page_size: Option<u32>,
}

/// The filters of an evaluation query: the session, then the optional time range.
pub open spec fn evaluation_filters(q: EvaluationQuery) -> Seq<Seq<char>> {
    seq!["session_id = ?"@] + opt_filter(q.from_ms, "created_at_ms >= ?"@) + opt_filter(q.to_ms, "created_at_ms <= ?"@)
}

/// The values bound to the filters of an evaluation query.
pub open spec fn evaluation_args(q: EvaluationQuery) -> Seq<SqlArg> {
    seq![SqlArg::Text(q.session_id@)] + opt_int_arg(q.from_ms) + opt_int_arg(q.to_ms)
}

/// The query that reads one page of matching evaluations, newest first.
pub open spec fn evaluation_data_sql(where_sql: Seq<char>) -> Seq<char> {
    "SELECT evaluation_id, session_id, event_id, provider, model, base_url, risk_level,\n                risk_category, efficiency_level, suggestion, status, error_message,\n                error_stack, retry_count, created_at_ms\n         FROM evaluations\n         WHERE "@
        + where_sql + "\n         ORDER BY created_at_ms DESC\n         LIMIT ? OFFSET ?"@
}

/// Law: an evaluation query keeps the session's evaluations created at or
/// after `from_ms` and at or before `to_ms` (each bound only when given, in
/// that order, after the session id).
pub proof fn lemma_evaluation_query_bounds(q: EvaluationQuery, t: i64, u: i64)
    ensures
        q.from_ms is None && q.to_ms is None ==> {
            &&& join(evaluation_filters(q), " AND "@) == "session_id = ?"@
            &&& evaluation_args(q) == seq![SqlArg::Text(q.session_id@)]
        },
        q.from_ms == Some(t) && q.to_ms is None ==> {
            &&& join(evaluation_filters(q), " AND "@) == "session_id = ? AND created_at_ms >= ?"@
            &&& evaluation_args(q) == seq![SqlArg::Text(q.session_id@), SqlArg::Integer(t as int)]
        },
        q.from_ms is None && q.to_ms == Some(u) ==> {
            &&& join(evaluation_filters(q), " AND "@) == "session_id = ? AND created_at_ms <= ?"@
            &&& evaluation_args(q) == seq![SqlArg::Text(q.session_id@), SqlArg::Integer(u as int)]
        },
        q.from_ms == Some(t) && q.to_ms == Some(u) ==> {
            &&& join(evaluation_filters(q), " AND "@) == "session_id = ? AND created_at_ms >= ? AND created_at_ms <= ?"@
            &&& evaluation_args(q) == seq![SqlArg::Text(q.session_id@), SqlArg::Integer(t as int), SqlArg::Integer(u as int)]
        },
{
    reveal_with_fuel(join, 4);
    reveal_strlit("session_id = ?");
    reveal_strlit(" AND ");
    reveal_strlit("created_at_ms >= ?");
    reveal_strlit("created_at_ms <= ?");
    reveal_strlit("session_id = ? AND created_at_ms >= ?");
    reveal_strlit("session_id = ? AND created_at_ms <= ?");
    reveal_strlit("session_id = ? AND created_at_ms >= ? AND created_at_ms <= ?");
    let f = evaluation_filters(q);
    let a = evaluation_args(q);
    if q.from_ms is None && q.to_ms is None {
        assert(f =~= seq!["session_id = ?"@]);
        assert(a =~= seq![SqlArg::Text(q.session_id@)]);
    }
    if q.from_ms == Some(t) && q.to_ms is None {
        assert(f =~= seq!["session_id = ?"@, "created_at_ms >= ?"@]);
        assert(f.drop_last() =~= seq!["session_id = ?"@]);
        assert(join(f, " AND "@) =~= "session_id = ? AND created_at_ms >= ?"@);
        assert(a =~= seq![SqlArg::Text(q.session_id@), SqlArg::Integer(t as int)]);
    }
    if q.from_ms is None && q.to_ms == Some(u) {
        assert(f =~= seq!["session_id = ?"@, "created_at_ms <= ?"@]);
        assert(f.drop_last() =~= seq!["session_id = ?"@]);
        assert(join(f, " AND "@) =~= "session_id = ? AND created_at_ms <= ?"@);
        assert(a =~= seq![SqlArg::Text(q.session_id@), SqlArg::Integer(u as int)]);
    }
    if q.from_ms == Some(t) && q.to_ms == Some(u) {
        assert(f =~= seq!["session_id = ?"@, "created_at_ms >= ?"@, "created_at_ms <= ?"@]);
        assert(f.drop_last() =~= seq!["session_id = ?"@, "created_at_ms >= ?"@]);
        assert(f.drop_last().drop_last() =~= seq!["session_id = ?"@]);
        assert(join(f.drop_last(), " AND "@) =~= "session_id = ? AND created_at_ms >= ?"@);
        assert(join(f, " AND "@) =~= "session_id = ? AND created_at_ms >= ? AND created_at_ms <= ?"@);
        assert(a =~= seq![SqlArg::Text(q.session_id@), SqlArg::Integer(t as int), SqlArg::Integer(u as int)]);
    }
}

/// Plans an evaluation query; a blank session id is refused.
pub fn plan_evaluation_query(q: &EvaluationQuery) -> (r: Result<PagedQuery, ApiError>)
    requires
        !is_blank(q.session_id@) ==> page_offset(q.page, q.page_size) <= u32::MAX,
    ensures
        is_blank(q.session_id@) ==> (r matches Err(ApiError::BadRequest(m))
            && m@ == "session_id is required for evaluation query"@),
        !is_blank(q.session_id@) ==> (r matches Ok(plan) && {
            let where_sql = join(evaluation_filters(*q), " AND "@);
            &&& plan.page == page_number(q.page)
            &&& plan.page_size == page_size_value(q.page_size)
            &&& plan.count_sql@ == "SELECT COUNT(1) FROM evaluations WHERE "@ + where_sql
            &&& plan.data_sql@ == evaluation_data_sql(where_sql)
            &&& args_view(plan.count_params@) == evaluation_args(*q)
            &&& args_view(plan.data_params@) == data_args(evaluation_args(*q), q.page, q.page_size)
        }),
{
    if is_blank_str(q.session_id.as_str()) {
        return Err(ApiError::BadRequest("session_id is required for evaluation query".to_string()));
    }
    let (page, page_size, offset) = paging(q.page, q.page_size);
    let mut clauses: Vec<String> = Vec::new();
    clauses.push("session_id = ?".to_string());
    let mut params: Vec<SqlParam> = Vec::new();
    params.push(SqlParam::Text(q.session_id.clone()));
    assert(views(clauses@) =~= seq!["session_id = ?"@]);
    assert(args_view(params@) =~= seq![SqlArg::Text(q.session_id@)]);
    push_opt_int(&mut clauses, &mut params, q.from_ms, "created_at_ms >= ?");
    push_opt_int(&mut clauses, &mut params, q.to_ms, "created_at_ms <= ?");
    let where_sql = join_strings(&clauses, " AND ");
    let count_sql = concat3("SELECT COUNT(1) FROM evaluations WHERE ", where_sql.as_str(), "");
    proof {
        reveal_strlit("");
        assert(count_sql@ =~= "SELECT COUNT(1) FROM evaluations WHERE "@ + where_sql@);
    }
    let data_sql = concat3(
        "SELECT evaluation_id, session_id, event_id, provider, model, base_url, risk_level,\n                risk_category, efficiency_level, suggestion, status, error_message,\n                error_stack, retry_count, created_at_ms\n         FROM evaluations\n         WHERE ",
        where_sql.as_str(),
        "\n         ORDER BY created_at_ms DESC\n         LIMIT ? OFFSET ?",
    );
    let data_params = data_params_of(&params, page_size, offset);
    Ok(PagedQuery { page, page_size, count_sql, count_params: params, data_sql, data_params })
}

// ---------------------------------------------------------------------
// Sessions
// ---------------------------------------------------------------------

/// A query for the sessions list.
#[derive(Debug)]
pub struct SessionsQuery {
    pub source: Option<String>,
    pub from_ms: Option<i64>,
    pub to_ms: Option<i64>,
}

/// The optional filters of a sessions query: agent, then activity range.
pub open spec fn session_filters(q: SessionsQuery) -> Seq<Seq<char>> {
    opt_filter(q.source, "s.agent_type = ?"@)
        + opt_filter(q.from_ms, "s.last_active_at_ms >= ?"@)
        + opt_filter(q.to_ms, "s.last_active_at_ms <= ?"@)
}

/// The values bound to the filters of a sessions query.
pub open spec fn session_args(q: SessionsQuery) -> Seq<SqlArg> {
    opt_text_arg(q.source) + opt_int_arg(q.from_ms) + opt_int_arg(q.to_ms)
}

/// The filters added to the sessions query: nothing, or `AND` and the filters.
pub open spec fn extra_where(filters: Seq<Seq<char>>) -> Seq<char> {
    if filters.len() == 0 { Seq::empty() } else { "AND "@ + join(filters, " AND "@) }
}

/// The sessions query before its extra filters: every session with a live
/// event or found by discovery, with its latest risk level and evaluation count.
pub open spec fn sessions_sql_head() -> Seq<char> {
    "SELECT\n            s.session_id,\n            s.project_name,\n            s.agent_type,\n            s.last_active_at_ms,\n            COALESCE((\n                SELECT ev.risk_level\n                FROM evaluations ev\n                WHERE ev.session_id = s.session_id\n                ORDER BY ev.created_at_ms DESC\n                LIMIT 1\n            ), 'none') AS latest_risk_level,\n            COALESCE((\n                SELECT COUNT(1)\n                FROM evaluations ev2\n                WHERE ev2.session_id = s.session_id\n            ), 0) AS evaluation_count,\n            s.first_prompt,\n            s.duration_minutes,\n            s.input_tokens,\n            s.output_tokens,\n            s.goal,\n            s.summary,\n            s.outcome,\n            s.source\n        FROM sessions s\n        WHERE (EXISTS (\n            SELECT 1 FROM events e\n            WHERE e.session_id = s.session_id AND e.is_archived = 0\n        ) OR s.source IN ('discovery', 'cursor-discovery'))\n        "@
}

/// The order of the sessions list: most recently active first.
pub open spec fn sessions_sql_tail() -> Seq<char> {
    "\n        ORDER BY s.last_active_at_ms DESC"@
}

/// The latest risk level of a session: its evaluations' risk levels, newest first, the first one.
pub open spec fn latest_risk_subquery() -> Seq<char> {
    "SELECT ev.risk_level\n                FROM evaluations ev\n                WHERE ev.session_id = s.session_id\n                ORDER BY ev.created_at_ms DESC\n                LIMIT 1\n            ), 'none') AS latest_risk_level"@
}

/// Law: whatever the filters, the sessions list reports as a session's
/// latest risk level the one of its most recent evaluation: the subquery
/// picks the first risk level of the session's evaluations ordered by
/// creation time descending (`'none'` when there is none).
pub proof fn lemma_sessions_latest_risk_is_newest(q: SessionsQuery)
    ensures
        contains(sessions_sql_head() + extra_where(session_filters(q)) + sessions_sql_tail(), latest_risk_subquery()),
{
    reveal_strlit("SELECT\n            s.session_id,\n            s.project_name,\n            s.agent_type,\n            s.last_active_at_ms,\n            COALESCE((\n                SELECT ev.risk_level\n                FROM evaluations ev\n                WHERE ev.session_id = s.session_id\n                ORDER BY ev.created_at_ms DESC\n                LIMIT 1\n            ), 'none') AS latest_risk_level,\n            COALESCE((\n                SELECT COUNT(1)\n                FROM evaluations ev2\n                WHERE ev2.session_id = s.session_id\n            ), 0) AS evaluation_count,\n            s.first_prompt,\n            s.duration_minutes,\n            s.input_tokens,\n            s.output_tokens,\n            s.goal,\n            s.summary,\n            s.outcome,\n            s.source\n        FROM sessions s\n        WHERE (EXISTS (\n            SELECT 1 FROM events e\n            WHERE e.session_id = s.session_id AND e.is_archived = 0\n        ) OR s.source IN ('discovery', 'cursor-discovery'))\n        ");
    reveal_strlit("SELECT ev.risk_level\n                FROM evaluations ev\n                WHERE ev.session_id = s.session_id\n                ORDER BY ev.created_at_ms DESC\n                LIMIT 1\n            ), 'none') AS latest_risk_level");
    let head = sessions_sql_head();
    let sub = latest_risk_subquery();
    let full = head + extra_where(session_filters(q)) + sessions_sql_tail();
    let i: int = 159;
    assert(head.subrange(i, i + sub.len()) =~= sub);
    assert(full.subrange(i, i + sub.len()) =~= head.subrange(i, i + sub.len()));
    assert(occurs_at(full, sub, i));
}

/// Law: the sessions list comes most recently active first, whatever the filters.
pub proof fn lemma_sessions_newest_first(q: SessionsQuery)
    ensures
        ends_with(sessions_sql_head() + extra_where(session_filters(q)) + sessions_sql_tail(), "ORDER BY s.last_active_at_ms DESC"@),
{
    reveal_strlit("\n        ORDER BY s.last_active_at_ms DESC");
    reveal_strlit("ORDER BY s.last_active_at_ms DESC");
    let full = sessions_sql_head() + extra_where(session_filters(q)) + sessions_sql_tail();
    let p = "ORDER BY s.last_active_at_ms DESC"@;
    let t = sessions_sql_tail();
    assert(t.subrange(t.len() - p.len(), t.len() as int) =~= p);
    assert(full.subrange(full.len() - p.len(), full.len() as int) =~= t.subrange(t.len() - p.len(), t.len() as int));
}

/// A query with its bound values.
#[derive(Debug)]
pub struct BoundQuery {
    pub sql: String,
    pub params: Vec<SqlParam>,
}

/// Plans the sessions query.
pub fn plan_sessions_query(q: &SessionsQuery) -> (r: BoundQuery)
    ensures
        r.sql@ == sessions_sql_head() + extra_where(session_filters(*q)) + sessions_sql_tail(),
        args_view(r.params@) == session_args(*q),
{
    let mut clauses: Vec<String> = Vec::new();
    let mut params: Vec<SqlParam> = Vec::new();
    assert(views(clauses@) =~= Seq::<Seq<char>>::empty());
    assert(args_view(params@) =~= Seq::<SqlArg>::empty());
    push_opt_text(&mut clauses, &mut params, &q.source, "s.agent_type = ?");
    push_opt_int(&mut clauses, &mut params, q.from_ms, "s.last_active_at_ms >= ?");
    push_opt_int(&mut clauses, &mut params, q.to_ms, "s.last_active_at_ms <= ?");
    assert(views(clauses@) =~= session_filters(*q));
    assert(args_view(params@) =~= session_args(*q));
    let extra = if clauses.len() == 0 {
        String::new()
    } else {
        let joined = join_strings(&clauses, " AND ");
        concat3("AND ", joined.as_str(), "")
    };
    proof {
        reveal_strlit("");
    }
    let sql = concat3(
        "SELECT\n            s.session_id,\n            s.project_name,\n            s.agent_type,\n            s.last_active_at_ms,\n            COALESCE((\n                SELECT ev.risk_level\n                FROM evaluations ev\n                WHERE ev.session_id = s.session_id\n                ORDER BY ev.created_at_ms DESC\n                LIMIT 1\n            ), 'none') AS latest_risk_level,\n            COALESCE((\n                SELECT COUNT(1)\n                FROM evaluations ev2\n                WHERE ev2.session_id = s.session_id\n            ), 0) AS evaluation_count,\n            s.first_prompt,\n            s.duration_minutes,\n            s.input_tokens,\n            s.output_tokens,\n            s.goal,\n            s.summary,\n            s.outcome,\n            s.source\n        FROM sessions s\n        WHERE (EXISTS (\n            SELECT 1 FROM events e\n            WHERE e.session_id = s.session_id AND e.is_archived = 0\n        ) OR s.source IN ('discovery', 'cursor-discovery'))\n        ",
        extra.as_str(),
        "\n        ORDER BY s.last_active_at_ms DESC",
    );
    assert(extra@ == extra_where(session_filters(*q)));
    BoundQuery { sql, params }
}

// ---------------------------------------------------------------------
// Token statistics
// ---------------------------------------------------------------------

/// A query for token statistics.
#[derive(Debug)]
pub struct TokenStatsQuery {
    pub from_ms: Option<i64>,
    pub to_ms: Option<i64>,
    pub source: Option<String>,
}

/// A condition on a numbered placeholder, `<column> ?<n>`.
pub open spec fn numbered(condition: Seq<char>, n: nat) -> Seq<char> {
    condition + decimal(n)
}

/// The conditions of a token statistics query, each with the number of its
/// placeholder: activity range, then source.
pub open spec fn token_conditions(q: TokenStatsQuery) -> Seq<Seq<char>> {
    let a = opt_filter(q.from_ms, numbered("last_active_at_ms >= ?"@, 1));
    let b = opt_filter(q.to_ms, numbered("last_active_at_ms <= ?"@, (a.len() + 1) as nat));
    let c = opt_filter(q.source, numbered("source = ?"@, (a.len() + b.len() + 1) as nat));
    a + b + c
}

/// The values bound to a token statistics query.
pub open spec fn token_args(q: TokenStatsQuery) -> Seq<SqlArg> {
    opt_int_arg(q.from_ms) + opt_int_arg(q.to_ms) + opt_text_arg(q.source)
}

/// The `WHERE` clause of a token statistics query: nothing, or `WHERE` and the conditions.
pub open spec fn token_where(q: TokenStatsQuery) -> Seq<char> {
    if token_conditions(q).len() == 0 { Seq::empty() } else { "WHERE "@ + join(token_conditions(q), " AND "@) }
}

fn numbered_condition(condition: &str, n: usize) -> (r: String)
    ensures
        r@ == numbered(condition@, n as nat),
{
    let mut v: Vec<char> = Vec::new();
    push_str(&mut v, condition);
    push_decimal(&mut v, n as u64);
    string_from_chars(&v)
}

/// The token statistics queries: per day, per session, and the totals.
#[derive(Debug)]
pub struct TokenStatsPlan {
    pub daily_sql: String,
    pub sessions_sql: String,
    pub totals_sql: String,
    pub params: Vec<SqlParam>,
}

/// Plans the token statistics queries, which share one `WHERE` clause.
pub fn plan_token_stats(q: &TokenStatsQuery) -> (r: TokenStatsPlan)
    ensures
        r.daily_sql@ == "SELECT\n            date(last_active_at_ms / 1000, 'unixepoch', 'localtime') AS date,\n            COUNT(*) AS session_count,\n            COALESCE(SUM(input_tokens), 0) AS input_tokens,\n            COALESCE(SUM(output_tokens), 0) AS output_tokens\n        FROM sessions\n        "@
            + token_where(*q) + "\n        GROUP BY date\n        ORDER BY date ASC"@,
        r.sessions_sql@ == "SELECT session_id, project_name, agent_type, source,\n                input_tokens, output_tokens, last_active_at_ms, first_prompt\n        FROM sessions\n        "@
            + token_where(*q) + "\n        ORDER BY (input_tokens + output_tokens) DESC, last_active_at_ms DESC"@,
        r.totals_sql@ == "SELECT\n            COALESCE(SUM(input_tokens), 0),\n            COALESCE(SUM(output_tokens), 0),\n            COUNT(*)\n        FROM sessions\n        "@
            + token_where(*q),
        args_view(r.params@) == token_args(*q),
{
    let mut conditions: Vec<String> = Vec::new();
    let mut params: Vec<SqlParam> = Vec::new();
    let ghost a = opt_filter(q.from_ms, numbered("last_active_at_ms >= ?"@, 1));
    let ghost b = opt_filter(q.to_ms, numbered("last_active_at_ms <= ?"@, (a.len() + 1) as nat));
    if let Some(from) = q.from_ms {
        conditions.push(numbered_condition("last_active_at_ms >= ?", params.len() + 1));
        params.push(SqlParam::Integer(from));
    }
    assert(views(conditions@) =~= a);
    assert(args_view(params@) =~= opt_int_arg(q.from_ms));
    assert(params@.len() == a.len());
    if let Some(to) = q.to_ms {
        let ghost c0 = conditions@;
        let ghost p0 = params@;
        conditions.push(numbered_condition("last_active_at_ms <= ?", params.len() + 1));
        params.push(SqlParam::Integer(to));
        assert(views(conditions@) =~= views(c0).push(conditions@.last()@));
        assert(args_view(params@) =~= args_view(p0).push(SqlArg::Integer(to as int)));
    }
    assert(views(conditions@) =~= a + b);
    assert(args_view(params@) =~= opt_int_arg(q.from_ms) + opt_int_arg(q.to_ms));
    if let Some(source) = &q.source {
        let ghost c0 = conditions@;
        let ghost p0 = params@;
        conditions.push(numbered_condition("source = ?", params.len() + 1));
        params.push(SqlParam::Text(source.clone()));
        assert(views(conditions@) =~= views(c0).push(conditions@.last()@));
        assert(args_view(params@) =~= args_view(p0).push(SqlArg::Text(source@)));
    }
    assert(views(conditions@) =~= token_conditions(*q));
    assert(args_view(params@) =~= token_args(*q));
    let where_clause = if conditions.len() == 0 {
        String::new()
    } else {
        let joined = join_strings(&conditions, " AND ");
        concat3("WHERE ", joined.as_str(), "")
    };
    proof {
        reveal_strlit("");
    }
    assert(where_clause@ == token_where(*q));
    let daily_sql = concat3(
        "SELECT\n            date(last_active_at_ms / 1000, 'unixepoch', 'localtime') AS date,\n            COUNT(*) AS session_count,\n            COALESCE(SUM(input_tokens), 0) AS input_tokens,\n            COALESCE(SUM(output_tokens), 0) AS output_tokens\n        FROM sessions\n        ",
        where_clause.as_str(),
        "\n        GROUP BY date\n        ORDER BY date ASC",
    );
    let sessions_sql = concat3(
        "SELECT session_id, project_name, agent_type, source,\n                input_tokens, output_tokens, last_active_at_ms, first_prompt\n        FROM sessions\n        ",
        where_clause.as_str(),
        "\n        ORDER BY (input_tokens + output_tokens) DESC, last_active_at_ms DESC",
    );
    let totals_sql = concat3(
        "SELECT\n            COALESCE(SUM(input_tokens), 0),\n            COALESCE(SUM(output_tokens), 0),\n            COUNT(*)\n        FROM sessions\n        ",
        where_clause.as_str(),
        "",
    );
    assert(totals_sql@ =~= "SELECT\n            COALESCE(SUM(input_tokens), 0),\n            COALESCE(SUM(output_tokens), 0),\n            COUNT(*)\n        FROM sessions\n        "@ + where_clause@);
    TokenStatsPlan { daily_sql, sessions_sql, totals_sql, params }
}

/// Integer division rounded toward zero, as Rust's `/` on integers (for `b > 0`).
pub open spec fn div_toward_zero(a: int, b: int) -> int {
    if a >= 0 { a / b } else { -((-a) / b) }
}

/// The average number of tokens per session (rounded toward zero), 0 when
/// there is no session.
pub fn avg_tokens_per_session(total_input_tokens: i64, total_output_tokens: i64, total_sessions: i64) -> (r: i64)
    requires
        i64::MIN <= total_input_tokens + total_output_tokens <= i64::MAX,
    ensures
        total_sessions > 0 ==> r == div_toward_zero(total_input_tokens + total_output_tokens, total_sessions as int),
        total_sessions <= 0 ==> r == 0,
{
    if total_sessions > 0 {
        let sum: i64 = total_input_tokens + total_output_tokens;
        let b = total_sessions as u64;
        if sum >= 0 {
            let a = sum as u64;
            (a / b) as i64
        } else {
            let mag: u64 = if sum == i64::MIN { 9223372036854775808u64 } else { (-sum) as u64 };
            assert(mag == -(sum as int));
            let q: u64 = mag / b;
            assert(q <= mag) by (nonlinear_arith)
                requires q == mag / b, b >= 1;
            (0i128 - (q as i128)) as i64
        }
    } else {
        0
    }
}

// ---------------------------------------------------------------------
// Dashboard
// ---------------------------------------------------------------------

/// The number of days the dashboard covers: 30 by default, within 1..=365.
pub open spec fn dashboard_days(days: Option<u32>) -> u32 {
    match days {
        Some(d) => if d < 1 { 1 } else if d > 365 { 365 } else { d },
        None => 30,
    }
}

/// The earliest activity time the dashboard shows, given the current time.
pub fn dashboard_cutoff_ms(days: Option<u32>, now_ms: i64) -> (r: i64)
    requires
        now_ms >= i64::MIN + 365 * 86_400_000,
    ensures
        r == now_ms - dashboard_days(days) * 86_400_000,
{
    let d: i64 = match days {
        Some(x) => if x < 1 { 1 } else if x > 365 { 365 } else { x as i64 },
        None => 30,
    };
    now_ms - d * 86_400_000
}

/// The dashboard's query of activity per day since the cutoff.
pub fn dashboard_daily_sql() -> (r: &'static str)
    ensures
        r@ == "\n        SELECT\n            date(last_active_at_ms / 1000, 'unixepoch', 'localtime') AS date,\n            COUNT(*) AS session_count,\n            COALESCE(SUM(input_tokens), 0) AS input_tokens,\n            COALESCE(SUM(output_tokens), 0) AS output_tokens\n        FROM sessions\n        WHERE last_active_at_ms >= ?1\n        GROUP BY date\n        ORDER BY date ASC\n    "@,
{
    "\n        SELECT\n            date(last_active_at_ms / 1000, 'unixepoch', 'localtime') AS date,\n            COUNT(*) AS session_count,\n            COALESCE(SUM(input_tokens), 0) AS input_tokens,\n            COALESCE(SUM(output_tokens), 0) AS output_tokens\n        FROM sessions\n        WHERE last_active_at_ms >= ?1\n        GROUP BY date\n        ORDER BY date ASC\n    "
}

// ---------------------------------------------------------------------
// Cursor's commit scores
// ---------------------------------------------------------------------

/// The paging of Cursor's scored commits: the page (at least 1), the page
/// size kept within 1..=200, the row limit (that size) and the offset,
/// which counts whole pages of the size as requested.
pub fn scored_commits_paging(page: u32, page_size: u32) -> (r: (u32, u32, i64, i64))
    requires
        (if page < 1 { 0 } else { page - 1 }) * page_size <= u32::MAX,
    ensures
        r.0 == if page < 1 { 1 } else { page },
        r.1 == if page_size < 1 { 1 } else if page_size > 200 { 200 } else { page_size },
        r.2 == r.1,
        r.3 == (r.0 - 1) * page_size,
{
    let p: u32 = if page < 1 { 1 } else { page };
    let s: u32 = if page_size < 1 { 1 } else if page_size > 200 { 200 } else { page_size };
    let offset: u32 = (p - 1) * page_size;
    (p, s, s as i64, offset as i64)
}

} // verus!
