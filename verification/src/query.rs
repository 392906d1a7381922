//! Tile filters, and the SQL text and parameters that select what they match.

use vstd::prelude::*;

use crate::text::{decimal, decimal_text};
use crate::types::{status_name, tile_type_name, TileStatus, TileType};

verus! {

/// Sort order for query results.
#[derive(Debug, Clone, Copy, PartialEq, Eq, Structural)]
pub enum QueryOrder {
    NewestFirst,
    OldestFirst,
    RecentUpdate,
}

impl Default for QueryOrder {
    fn default() -> (res: QueryOrder)
        ensures
            res == QueryOrder::NewestFirst,
    {
        QueryOrder::NewestFirst
    }
}

/// A value bound to a `?` placeholder of a statement, or read from a column.
/// A real number is carried as its IEEE-754 bit pattern.
#[derive(Debug, Clone)]
pub enum SqlValue {
    Null,
    Integer(i64),
    Real(u64),
    Text(String),
}

/// What a bound value holds, with text taken as its characters.
pub enum SqlValueModel {
    Null,
    Integer(i64),
    Real(u64),
    Text(Seq<char>),
}

impl View for SqlValue {
    type V = SqlValueModel;

    open spec fn view(&self) -> SqlValueModel {
        match self {
            SqlValue::Null => SqlValueModel::Null,
            SqlValue::Integer(i) => SqlValueModel::Integer(*i),
            SqlValue::Real(bits) => SqlValueModel::Real(*bits),
            SqlValue::Text(s) => SqlValueModel::Text(s@),
        }
    }
}

/// What a list of bound values holds.
pub open spec fn values_model(v: Seq<SqlValue>) -> Seq<SqlValueModel> {
    v.map_values(|x: SqlValue| x@)
}

/// A filter over stored tiles, with an order and a window.
pub struct TileQuery {
    pub room_id: Option<String>,
    pub tile_type: Option<TileType>,
    pub status: Option<TileStatus>,
    pub ensign_id: Option<String>,
    pub parent_id: Option<String>,
    pub model_used: Option<String>,
    pub since: Option<i64>,
    pub until: Option<i64>,
    pub content_contains: Option<String>,
    pub limit: Option<usize>,
    pub offset: Option<usize>,
    pub order: QueryOrder,
}

/// A query with no filter, no window and the newest tiles first.
pub open spec fn is_unfiltered(q: TileQuery) -> bool {
    &&& q.room_id is None
    &&& q.tile_type is None
    &&& q.status is None
    &&& q.ensign_id is None
    &&& q.parent_id is None
    &&& q.model_used is None
    &&& q.since is None
    &&& q.until is None
    &&& q.content_contains is None
    &&& q.limit is None
    &&& q.offset is None
    &&& q.order == QueryOrder::NewestFirst
}

/// `o` holds text that reads `s`.
pub open spec fn holds_text(o: Option<String>, s: Seq<char>) -> bool {
    &&& o is Some
    &&& o->0@ == s
}

/// A condition with one placeholder, present when its filter is set.
pub open spec fn optional_condition(present: bool, condition: Seq<char>) -> Seq<Seq<char>> {
    if present {
        seq![condition]
    } else {
        Seq::empty()
    }
}

/// The conditions of a query's WHERE clause, one per filter that is set,
/// in a fixed order: room, type, status, ensign, parent, model, since,
/// until, content.
pub open spec fn filter_conditions(q: TileQuery) -> Seq<Seq<char>> {
    optional_condition(q.room_id is Some, "room_id = ?"@)
        + optional_condition(q.tile_type is Some, "tile_type = ?"@)
        + optional_condition(q.status is Some, "status = ?"@)
        + optional_condition(q.ensign_id is Some, "ensign_id = ?"@)
        + optional_condition(q.parent_id is Some, "parent_id = ?"@)
        + optional_condition(q.model_used is Some, "model_used = ?"@)
        + optional_condition(q.since is Some, "created_at >= ?"@)
        + optional_condition(q.until is Some, "created_at <= ?"@)
        + optional_condition(q.content_contains is Some, "content LIKE ?"@)
}

/// The value bound for an optional text filter.
pub open spec fn text_param(o: Option<String>) -> Seq<SqlValueModel> {
    match o {
        Some(s) => seq![SqlValueModel::Text(s@)],
        None => Seq::empty(),
    }
}

/// The value bound for an optional time bound.
pub open spec fn time_param(o: Option<i64>) -> Seq<SqlValueModel> {
    match o {
        Some(t) => seq![SqlValueModel::Integer(t)],
        None => Seq::empty(),
    }
}

/// The values bound to a query's WHERE clause, in the order of its
/// conditions: the stored names of type and status, and the content text
/// wrapped in `%` wildcards.
pub open spec fn filter_params(q: TileQuery) -> Seq<SqlValueModel> {
    text_param(q.room_id) + (match q.tile_type {
        Some(t) => seq![SqlValueModel::Text(tile_type_name(t))],
        None => Seq::empty(),
    }) + (match q.status {
        Some(s) => seq![SqlValueModel::Text(status_name(s))],
        None => Seq::empty(),
    }) + text_param(q.ensign_id) + text_param(q.parent_id) + text_param(q.model_used) + time_param(
        q.since,
    ) + time_param(q.until) + (match q.content_contains {
        Some(s) => seq![SqlValueModel::Text("%"@ + s@ + "%"@)],
        None => Seq::empty(),
    })
}

/// The parts joined, with `sep` between neighbours.
pub open spec fn join(parts: Seq<Seq<char>>, sep: Seq<char>) -> Seq<char>
    decreases parts.len(),
{
    if parts.len() == 0 {
        Seq::empty()
    } else if parts.len() == 1 {
        parts[0]
    } else {
        join(parts.drop_last(), sep) + sep + parts.last()
    }
}

/// The WHERE clause of a query: empty when no filter is set, else `WHERE `
/// and the conditions joined by ` AND `.
pub open spec fn where_text(q: TileQuery) -> Seq<char> {
    if filter_conditions(q).len() == 0 {
        Seq::empty()
    } else {
        "WHERE "@ + join(filter_conditions(q), " AND "@)
    }
}

/// The ORDER BY clause of an order.
pub open spec fn order_text(o: QueryOrder) -> Seq<char> {
    match o {
        QueryOrder::NewestFirst => "ORDER BY created_at DESC"@,
        QueryOrder::OldestFirst => "ORDER BY created_at ASC"@,
        QueryOrder::RecentUpdate => "ORDER BY updated_at DESC"@,
    }
}

/// The LIMIT clause of a query: its limit; `LIMIT -1` (no limit) when it
/// has an offset but no limit, since SQLite takes OFFSET only after LIMIT;
/// empty when it has neither.
pub open spec fn limit_text(q: TileQuery) -> Seq<char> {
    match q.limit {
        Some(n) => "LIMIT "@ + decimal(n as nat),
        None => if q.offset is Some {
            "LIMIT -1"@
        } else {
            Seq::empty()
        },
    }
}

/// The OFFSET clause of a query, empty when it has no offset.
pub open spec fn offset_text(q: TileQuery) -> Seq<char> {
    match q.offset {
        Some(n) => "OFFSET "@ + decimal(n as nat),
        None => Seq::empty(),
    }
}

/// The statement that selects the tiles a query matches, in its order and
/// window.
pub open spec fn select_text(q: TileQuery) -> Seq<char> {
    "SELECT * FROM tiles "@ + where_text(q) + " "@ + order_text(q.order) + " "@ + limit_text(q)
        + " "@ + offset_text(q)
}

/// The statement that counts the tiles a query matches.
pub open spec fn count_text(q: TileQuery) -> Seq<char> {
    "SELECT COUNT(*) FROM tiles "@ + where_text(q)
}

impl Default for TileQuery {
    fn default() -> (res: TileQuery)
        ensures
            is_unfiltered(res),
    {
        TileQuery {
            room_id: None,
            tile_type: None,
            status: None,
            ensign_id: None,
            parent_id: None,
            model_used: None,
            since: None,
            until: None,
            content_contains: None,
            limit: None,
            offset: None,
            order: QueryOrder::NewestFirst,
        }
    }
}

/// What a list of string slices reads.
pub open spec fn strs_view(v: Seq<&str>) -> Seq<Seq<char>> {
    v.map_values(|s: &str| s@)
}

/// The slices joined, with `sep` between neighbours.
pub fn join_strs(parts: &Vec<&str>, sep: &str) -> (res: String)
    ensures
        res@ == join(strs_view(parts@), sep@),
{
    let ghost all = strs_view(parts@);
    let n = parts.len();
    let mut res: String = String::new();
    let mut i: usize = 0;
    while i < n
        invariant
            n == parts@.len(),
            all == strs_view(parts@),
            i <= n,
            res@ == join(all.take(i as int), sep@),
        decreases n - i,
    {
        let ghost before = res@;
        if i == 0 {
            res = String::from_str(parts[i]);
            assert(all.take(1) =~= seq![all[0]]);
        } else {
            res = res.concat(sep).concat(parts[i]);
            assert(all.take((i + 1) as int).drop_last() =~= all.take(i as int));
        }
        i = i + 1;
    }
    assert(all.take(n as int) =~= all);
    res
}

fn add_text_filter(
    conditions: &mut Vec<&'static str>,
    params: &mut Vec<SqlValue>,
    condition: &'static str,
    value: &Option<String>,
)
    ensures
        strs_view(final(conditions)@) == strs_view(old(conditions)@) + optional_condition(
            value is Some,
            condition@,
        ),
        values_model(final(params)@) == values_model(old(params)@) + text_param(*value),
{
    match value {
        Some(v) => {
            conditions.push(condition);
            params.push(SqlValue::Text(v.clone()));
        },
        None => {},
    }
    assert(strs_view(conditions@) =~= strs_view(old(conditions)@) + optional_condition(
        value is Some,
        condition@,
    ));
    assert(values_model(params@) =~= values_model(old(params)@) + text_param(*value));
}

fn add_time_filter(
    conditions: &mut Vec<&'static str>,
    params: &mut Vec<SqlValue>,
    condition: &'static str,
    value: Option<i64>,
)
    ensures
        strs_view(final(conditions)@) == strs_view(old(conditions)@) + optional_condition(
            value is Some,
            condition@,
        ),
        values_model(final(params)@) == values_model(old(params)@) + time_param(value),
{
    match value {
        Some(t) => {
            conditions.push(condition);
            params.push(SqlValue::Integer(t));
        },
        None => {},
    }
    assert(strs_view(conditions@) =~= strs_view(old(conditions)@) + optional_condition(
        value is Some,
        condition@,
    ));
    assert(values_model(params@) =~= values_model(old(params)@) + time_param(value));
}

impl TileQuery {
    pub fn new() -> (res: TileQuery)
        ensures
            is_unfiltered(res),
    {
        TileQuery::default()
    }

    pub fn in_room(self, room: &str) -> (res: TileQuery)
        ensures
            holds_text(res.room_id, room@),
            res == (TileQuery { room_id: res.room_id, ..self }),
    {
        let mut q = self;
        q.room_id = Some(String::from_str(room));
        q
    }

    pub fn of_type(self, t: TileType) -> (res: TileQuery)
        ensures
            res == (TileQuery { tile_type: Some(t), ..self }),
    {
        let mut q = self;
        q.tile_type = Some(t);
        q
    }

    pub fn with_status(self, s: TileStatus) -> (res: TileQuery)
        ensures
            res == (TileQuery { status: Some(s), ..self }),
    {
        let mut q = self;
        q.status = Some(s);
        q
    }

    pub fn since(self, ts: i64) -> (res: TileQuery)
        ensures
            res == (TileQuery { since: Some(ts), ..self }),
    {
        let mut q = self;
        q.since = Some(ts);
        q
    }

    pub fn until(self, ts: i64) -> (res: TileQuery)
        ensures
            res == (TileQuery { until: Some(ts), ..self }),
    {
        let mut q = self;
        q.until = Some(ts);
        q
    }

    pub fn limit(self, n: usize) -> (res: TileQuery)
        ensures
            res == (TileQuery { limit: Some(n), ..self }),
    {
        let mut q = self;
        q.limit = Some(n);
        q
    }

    pub fn offset(self, n: usize) -> (res: TileQuery)
        ensures
            res == (TileQuery { offset: Some(n), ..self }),
    {
        let mut q = self;
        q.offset = Some(n);
        q
    }

    pub fn containing(self, text: &str) -> (res: TileQuery)
        ensures
            holds_text(res.content_contains, text@),
            res == (TileQuery { content_contains: res.content_contains, ..self }),
    {
        let mut q = self;
        q.content_contains = Some(String::from_str(text));
        q
    }

    pub fn with_parent(self, pid: &str) -> (res: TileQuery)
        ensures
            holds_text(res.parent_id, pid@),
            res == (TileQuery { parent_id: res.parent_id, ..self }),
    {
        let mut q = self;
        q.parent_id = Some(String::from_str(pid));
        q
    }

    pub fn ensign_id(self, eid: &str) -> (res: TileQuery)
        ensures
            holds_text(res.ensign_id, eid@),
            res == (TileQuery { ensign_id: res.ensign_id, ..self }),
    {
        let mut q = self;
        q.ensign_id = Some(String::from_str(eid));
        q
    }

    pub fn model(self, m: &str) -> (res: TileQuery)
        ensures
            holds_text(res.model_used, m@),
            res == (TileQuery { model_used: res.model_used, ..self }),
    {
        let mut q = self;
        q.model_used = Some(String::from_str(m));
        q
    }

    pub fn newest_first(self) -> (res: TileQuery)
        ensures
            res == (TileQuery { order: QueryOrder::NewestFirst, ..self }),
    {
        let mut q = self;
        q.order = QueryOrder::NewestFirst;
        q
    }

    pub fn oldest_first(self) -> (res: TileQuery)
        ensures
            res == (TileQuery { order: QueryOrder::OldestFirst, ..self }),
    {
        let mut q = self;
        q.order = QueryOrder::OldestFirst;
        q
    }

    pub fn recent_update(self) -> (res: TileQuery)
        ensures
            res == (TileQuery { order: QueryOrder::RecentUpdate, ..self }),
    {
        let mut q = self;
        q.order = QueryOrder::RecentUpdate;
        q
    }

    /// The WHERE clause of the query and the values bound to its
    /// placeholders.
    pub fn to_sql(&self) -> (res: (String, Vec<SqlValue>))
        ensures
            res.0@ == where_text(*self),
            values_model(res.1@) == filter_params(*self),
    {
        let mut conditions: Vec<&'static str> = Vec::new();
        let mut params: Vec<SqlValue> = Vec::new();
        let ghost q = *self;
        add_text_filter(&mut conditions, &mut params, "room_id = ?", &self.room_id);
        assert(strs_view(conditions@) =~= optional_condition(q.room_id is Some, "room_id = ?"@));
        assert(values_model(params@) =~= text_param(q.room_id));
        let ghost c1 = strs_view(conditions@);
        let ghost p1 = values_model(params@);
        match self.tile_type {
            Some(t) => {
                conditions.push("tile_type = ?");
                params.push(SqlValue::Text(String::from_str(t.as_str())));
            },
            None => {},
        }
        let ghost c2 = c1 + optional_condition(q.tile_type is Some, "tile_type = ?"@);
        let ghost p2 = p1 + (match q.tile_type {
            Some(t) => seq![SqlValueModel::Text(tile_type_name(t))],
            None => Seq::empty(),
        });
        assert(strs_view(conditions@) =~= c2);
        assert(values_model(params@) =~= p2);
        match self.status {
            Some(st) => {
                conditions.push("status = ?");
                params.push(SqlValue::Text(String::from_str(st.as_str())));
            },
            None => {},
        }
        let ghost c3 = c2 + optional_condition(q.status is Some, "status = ?"@);
        let ghost p3 = p2 + (match q.status {
            Some(st) => seq![SqlValueModel::Text(status_name(st))],
            None => Seq::empty(),
        });
        assert(strs_view(conditions@) =~= c3);
        assert(values_model(params@) =~= p3);
        add_text_filter(&mut conditions, &mut params, "ensign_id = ?", &self.ensign_id);
        add_text_filter(&mut conditions, &mut params, "parent_id = ?", &self.parent_id);
        add_text_filter(&mut conditions, &mut params, "model_used = ?", &self.model_used);
        add_time_filter(&mut conditions, &mut params, "created_at >= ?", self.since);
        add_time_filter(&mut conditions, &mut params, "created_at <= ?", self.until);
        let ghost c8 = strs_view(conditions@);
        let ghost p8 = values_model(params@);
        match &self.content_contains {
            Some(v) => {
                conditions.push("content LIKE ?");
                params.push(SqlValue::Text(String::from_str("%").concat(v.as_str()).concat("%")));
            },
            None => {},
        }
        let ghost c9 = c8 + optional_condition(q.content_contains is Some, "content LIKE ?"@);
        let ghost p9 = p8 + (match q.content_contains {
            Some(v) => seq![SqlValueModel::Text("%"@ + v@ + "%"@)],
            None => Seq::empty(),
        });
        assert(strs_view(conditions@) =~= c9);
        assert(values_model(params@) =~= p9);
        assert(c9 == filter_conditions(q));
        assert(p9 == filter_params(q));
        let where_clause = if conditions.len() == 0 {
            String::new()
        } else {
            String::from_str("WHERE ").concat(join_strs(&conditions, " AND ").as_str())
        };
        (where_clause, params)
    }

    /// The statement that selects the tiles the query matches, in its
    /// order and window, and the values bound to its placeholders.
    pub fn select_statement(&self) -> (res: (String, Vec<SqlValue>))
        ensures
            res.0@ == select_text(*self),
            values_model(res.1@) == filter_params(*self),
    {
        let (where_clause, params) = self.to_sql();
        let order = self.order_sql();
        let limit_clause = match self.limit {
            Some(n) => String::from_str("LIMIT ").concat(decimal_text(n as u64).as_str()),
            None => if self.offset.is_some() {
                String::from_str("LIMIT -1")
            } else {
                String::new()
            },
        };
        let offset_clause = match self.offset {
            Some(n) => String::from_str("OFFSET ").concat(decimal_text(n as u64).as_str()),
            None => String::new(),
        };
        let sql = String::from_str("SELECT * FROM tiles ").concat(where_clause.as_str()).concat(
            " ",
        ).concat(order).concat(" ").concat(limit_clause.as_str()).concat(" ").concat(
            offset_clause.as_str(),
        );
        (sql, params)
    }

    /// The statement that counts the tiles the query matches, and the
    /// values bound to its placeholders.
    pub fn count_statement(&self) -> (res: (String, Vec<SqlValue>))
        ensures
            res.0@ == count_text(*self),
            values_model(res.1@) == filter_params(*self),
    {
        let (where_clause, params) = self.to_sql();
        (String::from_str("SELECT COUNT(*) FROM tiles ").concat(where_clause.as_str()), params)
    }

    /// The ORDER BY clause for the query's order.
    pub fn order_sql(&self) -> (res: &'static str)
        ensures
            res@ == order_text(self.order),
    {
        match self.order {
            QueryOrder::NewestFirst => "ORDER BY created_at DESC",
            QueryOrder::OldestFirst => "ORDER BY created_at ASC",
            QueryOrder::RecentUpdate => "ORDER BY updated_at DESC",
        }
    }
}

/// A query's WHERE clause has exactly one placeholder condition for each
/// value bound to it, so the statement and its parameters always agree.
pub proof fn law_one_param_per_condition(q: TileQuery)
    ensures
        filter_conditions(q).len() == filter_params(q).len(),
{
    let c1 = optional_condition(q.room_id is Some, "room_id = ?"@);
    let c2 = optional_condition(q.tile_type is Some, "tile_type = ?"@);
    let c3 = optional_condition(q.status is Some, "status = ?"@);
    let c4 = optional_condition(q.ensign_id is Some, "ensign_id = ?"@);
    let c5 = optional_condition(q.parent_id is Some, "parent_id = ?"@);
    let c6 = optional_condition(q.model_used is Some, "model_used = ?"@);
    let c7 = optional_condition(q.since is Some, "created_at >= ?"@);
    let c8 = optional_condition(q.until is Some, "created_at <= ?"@);
    let c9 = optional_condition(q.content_contains is Some, "content LIKE ?"@);
    let p1 = text_param(q.room_id);
    let p2: Seq<SqlValueModel> = match q.tile_type {
        Some(t) => seq![SqlValueModel::Text(tile_type_name(t))],
        None => Seq::empty(),
    };
    let p3: Seq<SqlValueModel> = match q.status {
        Some(s) => seq![SqlValueModel::Text(status_name(s))],
        None => Seq::empty(),
    };
    let p4 = text_param(q.ensign_id);
    let p5 = text_param(q.parent_id);
    let p6 = text_param(q.model_used);
    let p7 = time_param(q.since);
    let p8 = time_param(q.until);
    let p9: Seq<SqlValueModel> = match q.content_contains {
        Some(v) => seq![SqlValueModel::Text("%"@ + v@ + "%"@)],
        None => Seq::empty(),
    };
    assert(c1.len() == p1.len());
    assert(c2.len() == p2.len());
    assert(c3.len() == p3.len());
    assert(c4.len() == p4.len());
    assert(c5.len() == p5.len());
    assert(c6.len() == p6.len());
    assert(c7.len() == p7.len());
    assert(c8.len() == p8.len());
    assert(c9.len() == p9.len());
    assert(filter_conditions(q) == c1 + c2 + c3 + c4 + c5 + c6 + c7 + c8 + c9);
    assert(filter_params(q) == p1 + p2 + p3 + p4 + p5 + p6 + p7 + p8 + p9);
}

/// A query with no filter set selects every tile: its WHERE clause is
/// empty and nothing is bound.
pub proof fn law_unfiltered_selects_all(q: TileQuery)
    requires
        is_unfiltered(q),
    ensures
        where_text(q) == Seq::<char>::empty(),
        filter_params(q) == Seq::<SqlValueModel>::empty(),
{
    assert(filter_conditions(q) =~= Seq::<Seq<char>>::empty());
    assert(filter_params(q) =~= Seq::<SqlValueModel>::empty());
}

/// The window of a select statement: a set limit `n` always gives the
/// clause `LIMIT n`, whether or not an offset is set; a set offset `k`
/// always gives `OFFSET k` at the end, after `LIMIT -1` when no limit is
/// set; with neither, the statement ends after the ORDER BY clause.
pub proof fn law_select_window(q: TileQuery)
    ensures
        q.limit matches Some(n) ==> select_text(q) == "SELECT * FROM tiles "@ + where_text(q) + " "@
            + order_text(q.order) + " "@ + ("LIMIT "@ + decimal(n as nat)) + " "@ + offset_text(q),
        q.offset matches Some(k) ==> offset_text(q) == "OFFSET "@ + decimal(k as nat),
        q.offset is None ==> offset_text(q) == Seq::<char>::empty(),
        (q.limit is None && q.offset is Some) ==> select_text(q) == "SELECT * FROM tiles "@
            + where_text(q) + " "@ + order_text(q.order) + " "@ + "LIMIT -1"@ + " "@ + offset_text(q),
        (q.limit is None && q.offset is None) ==> select_text(q) == "SELECT * FROM tiles "@
            + where_text(q) + " "@ + order_text(q.order) + " "@ + " "@,
{
    assert((q.limit is None && q.offset is None) ==> select_text(q) =~= "SELECT * FROM tiles "@
        + where_text(q) + " "@ + order_text(q.order) + " "@ + " "@);
}

} // verus!
