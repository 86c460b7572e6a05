//! The table of stored events: its statements, its rows, and when they are
//! written and deleted.

use vstd::prelude::*;

use super::raw_event::RawEvent;
use super::sql;
use crate::textmap::TextMap;

verus! {

/// Creates the table and its indexes where they are missing.
pub const DDL: &'static str = "
CREATE TABLE IF NOT EXISTS raw_events (
    id           INTEGER PRIMARY KEY AUTOINCREMENT,
    timestamp_ms INTEGER NOT NULL,
    source       TEXT    NOT NULL,
    pid          INTEGER NOT NULL,
    ppid         INTEGER NOT NULL DEFAULT 0,
    tid          INTEGER NOT NULL DEFAULT 0,
    uid          INTEGER NOT NULL DEFAULT 0,
    comm         TEXT    NOT NULL DEFAULT '',
    cgroup_id    INTEGER NOT NULL DEFAULT 0,
    op           TEXT    NOT NULL,
    ret          INTEGER NOT NULL DEFAULT 0,
    data_json    TEXT    NOT NULL DEFAULT '{}',
    count        INTEGER NOT NULL DEFAULT 1
);
CREATE INDEX IF NOT EXISTS idx_raw_ts     ON raw_events(timestamp_ms);
CREATE INDEX IF NOT EXISTS idx_raw_source ON raw_events(source);
CREATE INDEX IF NOT EXISTS idx_raw_pid    ON raw_events(pid);
CREATE INDEX IF NOT EXISTS idx_raw_ppid   ON raw_events(ppid);
CREATE INDEX IF NOT EXISTS idx_raw_cgroup ON raw_events(cgroup_id);
CREATE INDEX IF NOT EXISTS idx_raw_cgroup_ts ON raw_events(cgroup_id, timestamp_ms);
";

/// How the database is run.
pub const PRAGMA: &'static str = "PRAGMA journal_mode=WAL; PRAGMA synchronous=NORMAL;";

/// Inserts one row.
pub const INSERT: &'static str = "INSERT INTO raw_events (timestamp_ms, source, pid, ppid, tid, uid, comm, cgroup_id, op, ret, data_json, count) VALUES (?1, ?2, ?3, ?4, ?5, ?6, ?7, ?8, ?9, ?10, ?11, ?12)";

/// Deletes the rows that are older than a time.
pub const DELETE_EXPIRED: &'static str = "DELETE FROM raw_events WHERE timestamp_ms < ?1";

/// How long the reaper sleeps between two deletions.
pub const REAP_INTERVAL_SECS: u64 = 300;

/// A parameter of a statement.
#[derive(Clone, Debug)]
pub enum SqlValue {
    Integer(i64),
    Text(String),
}

/// A parameter of a statement, as a value.
pub ghost enum SqlParam {
    Integer(int),
    Text(Seq<char>),
}

impl View for SqlValue {
    type V = SqlParam;

    open spec fn view(&self) -> SqlParam {
        match self {
            SqlValue::Integer(n) => SqlParam::Integer(*n as int),
            SqlValue::Text(s) => SqlParam::Text(s@),
        }
    }
}

/// The parameters of a statement, as values.
pub open spec fn params_of(values: Seq<SqlValue>) -> Seq<SqlParam> {
    values.map_values(|v: SqlValue| v@)
}

/// A statement with its parameters.
#[derive(Clone, Debug)]
pub struct Query {
    pub sql: String,
    pub values: Vec<SqlValue>,
}

impl Query {
    /// The statement and its parameters.
    pub open spec fn is(self, sql: Seq<char>, params: Seq<SqlParam>) -> bool {
        &&& self.sql@ == sql
        &&& params_of(self.values@) == params
    }

    fn begin(sql: &str) -> (r: Self)
        ensures
            r.is(sql@, Seq::empty()),
    {
        let r = Query { sql: sql.to_owned(), values: Vec::new() };
        assert(params_of(r.values@) =~= Seq::empty());
        r
    }

    fn integer(&mut self, n: i64)
        ensures
            final(self).is(
                old(self).sql@,
                params_of(old(self).values@).push(SqlParam::Integer(n as int)),
            ),
    {
        let ghost before = self.values@;
        self.values.push(SqlValue::Integer(n));
        assert(params_of(self.values@) =~= params_of(before).push(SqlParam::Integer(n as int)));
    }

    fn text(&mut self, s: &str)
        ensures
            final(self).is(
                old(self).sql@,
                params_of(old(self).values@).push(SqlParam::Text(s@)),
            ),
    {
        let ghost before = self.values@;
        self.values.push(SqlValue::Text(s.to_owned()));
        assert(params_of(self.values@) =~= params_of(before).push(SqlParam::Text(s@)));
    }
}

/// The 64-bit word with the bits of `n`, read as a signed number.
pub open spec fn wrapped(n: u64) -> int {
    if n < 0x8000_0000_0000_0000 {
        n as int
    } else {
        n - 0x1_0000_0000_0000_0000
    }
}

fn to_signed(n: u64) -> (r: i64)
    ensures
        r == wrapped(n),
{
    if n < 0x8000_0000_0000_0000 {
        n as i64
    } else {
        (n as i128 - 0x1_0000_0000_0000_0000) as i64
    }
}

fn to_unsigned(n: i64) -> (r: u64)
    ensures
        wrapped(r) == n,
{
    if n >= 0 {
        n as u64
    } else {
        (n as i128 + 0x1_0000_0000_0000_0000) as u64
    }
}

/// The least 32 bits of a signed number.
pub open spec fn low_word(n: int) -> int {
    n % 0x1_0000_0000
}

fn to_word(n: i64) -> (r: u32)
    ensures
        r == low_word(n as int),
{
    let m: i128 = n as i128 + 0x8000_0000_0000_0000;
    assert(m % 0x1_0000_0000 == n as int % 0x1_0000_0000);
    (m % 0x1_0000_0000) as u32
}

// ---- rows -----------------------------------------------------------------------
/// A row but for its number: what is written, in the order of the parameters of
/// `INSERT`, and what is read back.
#[derive(Clone, Debug)]
pub struct EventRow {
    pub timestamp_ms: i64,
    pub source: String,
    pub pid: i64,
    pub ppid: i64,
    pub tid: i64,
    pub uid: i64,
    pub comm: String,
    pub cgroup_id: i64,
    pub op: String,
    pub ret: i32,
    pub data_json: String,
    pub count: i64,
}

/// The row that stores an event.
pub open spec fn stored_as(row: EventRow, e: RawEvent) -> bool {
    &&& row.timestamp_ms == e.timestamp_ms
    &&& row.source@ == e.source@
    &&& row.pid == e.pid
    &&& row.ppid == e.ppid
    &&& row.tid == e.tid
    &&& row.uid == e.uid
    &&& row.comm@ == e.comm@
    &&& row.cgroup_id == wrapped(e.cgroup_id)
    &&& row.op@ == e.op@
    &&& row.ret == e.ret
    &&& row.data_json@ == e.data_json@
    &&& row.count == wrapped(e.count)
}

/// The event that a row holds.
pub open spec fn read_as(row: EventRow, id: i64, e: RawEvent) -> bool {
    &&& e.id == Some(id)
    &&& e.timestamp_ms == row.timestamp_ms
    &&& e.source@ == row.source@
    &&& e.pid == low_word(row.pid as int)
    &&& e.ppid == low_word(row.ppid as int)
    &&& e.tid == low_word(row.tid as int)
    &&& e.uid == low_word(row.uid as int)
    &&& e.comm@ == row.comm@
    &&& wrapped(e.cgroup_id) == row.cgroup_id
    &&& e.op@ == row.op@
    &&& e.ret == row.ret
    &&& e.data_json@ == row.data_json@
    &&& wrapped(e.count) == row.count
}

/// The two events differ at most in their row number.
pub open spec fn same_event(a: RawEvent, b: RawEvent) -> bool {
    &&& a.timestamp_ms == b.timestamp_ms
    &&& a.source@ == b.source@
    &&& a.pid == b.pid
    &&& a.ppid == b.ppid
    &&& a.tid == b.tid
    &&& a.uid == b.uid
    &&& a.comm@ == b.comm@
    &&& a.cgroup_id == b.cgroup_id
    &&& a.op@ == b.op@
    &&& a.ret == b.ret
    &&& a.data_json@ == b.data_json@
    &&& a.count == b.count
}

/// The row that stores an event.
pub fn event_to_row(e: &RawEvent) -> (r: EventRow)
    ensures
        stored_as(r, *e),
        r.timestamp_ms == e.timestamp_ms,
        r.source@ == e.source@,
        r.pid == e.pid,
        r.ppid == e.ppid,
        r.tid == e.tid,
        r.uid == e.uid,
        r.comm@ == e.comm@,
        (r.cgroup_id - e.cgroup_id) % 0x1_0000_0000_0000_0000 == 0,
        r.op@ == e.op@,
        r.ret == e.ret,
        r.data_json@ == e.data_json@,
        (r.count - e.count) % 0x1_0000_0000_0000_0000 == 0,
{
    EventRow {
        timestamp_ms: e.timestamp_ms,
        source: e.source.clone(),
        pid: e.pid as i64,
        ppid: e.ppid as i64,
        tid: e.tid as i64,
        uid: e.uid as i64,
        comm: e.comm.clone(),
        cgroup_id: to_signed(e.cgroup_id),
        op: e.op.clone(),
        ret: e.ret,
        data_json: e.data_json.clone(),
        count: to_signed(e.count),
    }
}

/// The event that the row with number `id` holds.
pub fn row_to_event(id: i64, row: EventRow) -> (r: RawEvent)
    ensures
        read_as(row, id, r),
        r.id == Some(id),
        r.timestamp_ms == row.timestamp_ms,
        r.source@ == row.source@,
        (r.pid - row.pid) % 0x1_0000_0000 == 0,
        (r.ppid - row.ppid) % 0x1_0000_0000 == 0,
        (r.tid - row.tid) % 0x1_0000_0000 == 0,
        (r.uid - row.uid) % 0x1_0000_0000 == 0,
        r.comm@ == row.comm@,
        (r.cgroup_id - row.cgroup_id) % 0x1_0000_0000_0000_0000 == 0,
        r.op@ == row.op@,
        r.ret == row.ret,
        r.data_json@ == row.data_json@,
        (r.count - row.count) % 0x1_0000_0000_0000_0000 == 0,
{
    RawEvent {
        id: Some(id),
        timestamp_ms: row.timestamp_ms,
        source: row.source,
        pid: to_word(row.pid),
        ppid: to_word(row.ppid),
        tid: to_word(row.tid),
        uid: to_word(row.uid),
        comm: row.comm,
        cgroup_id: to_unsigned(row.cgroup_id),
        op: row.op,
        ret: row.ret,
        data_json: row.data_json,
        count: to_unsigned(row.count),
    }
}

/// Reading a row gives back the event that was written, with the number of the
/// row.
pub proof fn read_gives_back_the_write(e: RawEvent, row: EventRow, id: i64, back: RawEvent)
    requires
        stored_as(row, e),
        read_as(row, id, back),
    ensures
        same_event(e, back),
        back.id == Some(id),
{
}

// ---- queries --------------------------------------------------------------------
/// The statement of `query_since` and its parameters.
pub open spec fn since_query(
    since_id: i64,
    limit: u32,
    source: Option<Seq<char>>,
    pid: Option<u32>,
    q: Query,
) -> bool {
    let start = "SELECT id, timestamp_ms, source, pid, ppid, tid, uid, comm, cgroup_id, op, ret, data_json, count FROM raw_events WHERE id > ?1"@;
    let first = seq![SqlParam::Integer(since_id as int)];
    let end = SqlParam::Integer(limit as int);
    match (source, pid) {
        (None, None) => q.is(start + " ORDER BY id ASC LIMIT ?2"@, first.push(end)),
        (Some(s), None) => q.is(
            start + " AND source = ?2"@ + " ORDER BY id ASC LIMIT ?3"@,
            first.push(SqlParam::Text(s)).push(end),
        ),
        (None, Some(p)) => q.is(
            start + " AND pid = ?2"@ + " ORDER BY id ASC LIMIT ?3"@,
            first.push(SqlParam::Integer(p as int)).push(end),
        ),
        (Some(s), Some(p)) => q.is(
            start + " AND source = ?2"@ + " AND pid = ?3"@ + " ORDER BY id ASC LIMIT ?4"@,
            first.push(SqlParam::Text(s)).push(SqlParam::Integer(p as int)).push(end),
        ),
    }
}

/// The text that an option holds.
pub open spec fn option_text(o: Option<&str>) -> Option<Seq<char>> {
    match o {
        Some(s) => Some(s@),
        None => None,
    }
}

/// Incremental pull: the events behind row `since_id`, by number, at most
/// `limit` of them. The filters on source and process are both met.
pub fn query_since(since_id: i64, limit: u32, source: Option<&str>, pid: Option<u32>) -> (r: Query)
    ensures
        since_query(since_id, limit, option_text(source), pid, r),
        exists|s: sql::Select|
            {
                &&& sql::proper(s.cond)
                &&& r.sql@ == #[trigger] sql::select_text(s)
                &&& s.columns == sql::all_columns()
                &&& s.order == sql::Column::Id
                &&& s.limit is Some
                &&& params_of(r.values@)[s.limit->Some_0 - 1] == SqlParam::Integer(
                    limit as int,
                )
                &&& forall|id: int, row: EventRow| #[trigger]
                    sql::holds(s.cond, params_of(r.values@), id, row) <==> {
                        &&& id > since_id
                        &&& source is Some ==> row.source@ == source->Some_0@
                        &&& pid is Some ==> row.pid == pid->Some_0
                    }
            },
{
    let mut q = Query::begin(
        "SELECT id, timestamp_ms, source, pid, ppid, tid, uid, comm, cgroup_id, op, ret, data_json, count FROM raw_events WHERE id > ?1",
    );
    q.integer(since_id);
    assert(params_of(q.values@) =~= seq![SqlParam::Integer(since_id as int)]);
    match (source, pid) {
        (None, None) => {
            q.sql.append(" ORDER BY id ASC LIMIT ?2");
        },
        (Some(s), None) => {
            q.sql.append(" AND source = ?2");
            q.text(s);
            q.sql.append(" ORDER BY id ASC LIMIT ?3");
        },
        (None, Some(p)) => {
            q.sql.append(" AND pid = ?2");
            q.integer(p as i64);
            q.sql.append(" ORDER BY id ASC LIMIT ?3");
        },
        (Some(s), Some(p)) => {
            q.sql.append(" AND source = ?2");
            q.text(s);
            q.sql.append(" AND pid = ?3");
            q.integer(p as i64);
            q.sql.append(" ORDER BY id ASC LIMIT ?4");
        },
    }
    q.integer(limit as i64);
    proof {
        sql::pull_picks_what_is_behind(since_id, limit, option_text(source), pid, q);
    }
    q
}

/// The statement of `query_window` and its parameters.
pub open spec fn window_query(from_ms: i64, to_ms: i64, source: Option<Seq<char>>,
    q: Query) -> bool {
    let start = "SELECT id, timestamp_ms, source, pid, ppid, tid, uid, comm, cgroup_id, op, ret, data_json, count FROM raw_events WHERE timestamp_ms BETWEEN ?1 AND ?2"@;
    let window = seq![SqlParam::Integer(from_ms as int), SqlParam::Integer(to_ms as int)];
    match source {
        None => q.is(start + " ORDER BY timestamp_ms ASC"@, window),
        Some(s) => q.is(
            start + " AND source = ?3"@ + " ORDER BY timestamp_ms ASC"@,
            window.push(SqlParam::Text(s)),
        ),
    }
}

/// The events whose time lies in `[from_ms, to_ms]`, by time.
pub fn query_window(from_ms: i64, to_ms: i64, source: Option<&str>) -> (r: Query)
    ensures
        window_query(from_ms, to_ms, option_text(source), r),
        exists|s: sql::Select|
            {
                &&& sql::proper(s.cond)
                &&& r.sql@ == #[trigger] sql::select_text(s)
                &&& s.columns == sql::all_columns()
                &&& s.order == sql::Column::TimestampMs
                &&& s.limit is None
                &&& forall|id: int, row: EventRow| #[trigger]
                    sql::holds(s.cond, params_of(r.values@), id, row) <==> {
                        &&& from_ms <= row.timestamp_ms <= to_ms
                        &&& source is Some ==> row.source@ == source->Some_0@
                    }
            },
{
    let mut q = Query::begin(
        "SELECT id, timestamp_ms, source, pid, ppid, tid, uid, comm, cgroup_id, op, ret, data_json, count FROM raw_events WHERE timestamp_ms BETWEEN ?1 AND ?2",
    );
    q.integer(from_ms);
    q.integer(to_ms);
    assert(params_of(q.values@) =~= seq![
        SqlParam::Integer(from_ms as int),
        SqlParam::Integer(to_ms as int),
    ]);
    if let Some(s) = source {
        q.sql.append(" AND source = ?3");
        q.text(s);
    }
    q.sql.append(" ORDER BY timestamp_ms ASC");
    proof {
        sql::window_picks_what_lies_in_it(from_ms, to_ms, option_text(source), q);
    }
    q
}

/// The statement of `query_tree` and its parameters.
pub open spec fn tree_query(root_pid: u32, from_ms: i64, to_ms: i64, q: Query) -> bool {
    q.is(
        "WITH RECURSIVE descendant_pids(pid) AS (
                SELECT ?1
                UNION
                SELECT r.pid
                FROM raw_events r
                INNER JOIN descendant_pids d ON r.ppid = d.pid
                WHERE r.timestamp_ms BETWEEN ?2 AND ?3
            )
            SELECT DISTINCT id, timestamp_ms, source, pid, ppid, tid, uid, comm, cgroup_id, op, ret, data_json, count
            FROM raw_events
            WHERE pid IN (SELECT pid FROM descendant_pids)
            AND timestamp_ms BETWEEN ?2 AND ?3
            ORDER BY timestamp_ms ASC"@,
        seq![
            SqlParam::Integer(root_pid as int),
            SqlParam::Integer(from_ms as int),
            SqlParam::Integer(to_ms as int),
        ],
    )
}

/// The events of a process and of all that descend from it, within a time
/// window.
pub fn query_tree(root_pid: u32, from_ms: i64, to_ms: i64) -> (r: Query)
    ensures
        tree_query(root_pid, from_ms, to_ms, r),
        exists|t: sql::Tree|
            {
                &&& r.sql@ == #[trigger] sql::tree_text(t)
                &&& t.columns == sql::all_columns()
                &&& t.order == sql::Column::TimestampMs
                &&& forall|table: Seq<(int, EventRow)>, i: int|
                    0 <= i < table.len() ==> (#[trigger] sql::tree_reads(
                        t,
                        params_of(r.values@),
                        table,
                        i,
                    ) <==> {
                        &&& from_ms <= table[i].1.timestamp_ms <= to_ms
                        &&& exists|line: Seq<int>| #[trigger]
                            sql::line_of_descent(
                                table,
                                from_ms,
                                to_ms,
                                line,
                                root_pid as int,
                                table[i].1.pid as int,
                            )
                    })
            },
{
    let mut q = Query::begin(
        "WITH RECURSIVE descendant_pids(pid) AS (
                SELECT ?1
                UNION
                SELECT r.pid
                FROM raw_events r
                INNER JOIN descendant_pids d ON r.ppid = d.pid
                WHERE r.timestamp_ms BETWEEN ?2 AND ?3
            )
            SELECT DISTINCT id, timestamp_ms, source, pid, ppid, tid, uid, comm, cgroup_id, op, ret, data_json, count
            FROM raw_events
            WHERE pid IN (SELECT pid FROM descendant_pids)
            AND timestamp_ms BETWEEN ?2 AND ?3
            ORDER BY timestamp_ms ASC",
    );
    q.integer(root_pid as i64);
    q.integer(from_ms);
    q.integer(to_ms);
    assert(params_of(q.values@) =~= seq![
        SqlParam::Integer(root_pid as int),
        SqlParam::Integer(from_ms as int),
        SqlParam::Integer(to_ms as int),
    ]);
    proof {
        sql::tree_reads_what_descends(root_pid, from_ms, to_ms, q);
    }
    q
}

/// The statement of `query_by_cgroup` and its parameters.
pub open spec fn cgroup_query(
    cgroup_id: u64,
    from_ms: i64,
    to_ms: i64,
    source: Option<Seq<char>>,
    limit: u32,
    q: Query,
) -> bool {
    let start = "SELECT id, timestamp_ms, source, pid, ppid, tid, uid, comm, cgroup_id, op, ret, data_json, count FROM raw_events WHERE cgroup_id = ?1 AND timestamp_ms BETWEEN ?2 AND ?3"@;
    let fixed = seq![
        SqlParam::Integer(wrapped(cgroup_id)),
        SqlParam::Integer(from_ms as int),
        SqlParam::Integer(to_ms as int),
    ];
    let end = SqlParam::Integer(limit as int);
    match source {
        None => q.is(start + " ORDER BY timestamp_ms ASC LIMIT ?4"@, fixed.push(end)),
        Some(s) => q.is(
            start + " AND source = ?4"@ + " ORDER BY timestamp_ms ASC LIMIT ?5"@,
            fixed.push(SqlParam::Text(s)).push(end),
        ),
    }
}

/// The events of a container within a time window, by time, at most `limit` of
/// them.
pub fn query_by_cgroup(
    cgroup_id: u64,
    from_ms: i64,
    to_ms: i64,
    source: Option<&str>,
    limit: u32,
) -> (r: Query)
    ensures
        cgroup_query(cgroup_id, from_ms, to_ms, option_text(source), limit, r),
        exists|s: sql::Select|
            {
                &&& sql::proper(s.cond)
                &&& r.sql@ == #[trigger] sql::select_text(s)
                &&& s.columns == sql::all_columns()
                &&& s.order == sql::Column::TimestampMs
                &&& s.limit is Some
                &&& params_of(r.values@)[s.limit->Some_0 - 1] == SqlParam::Integer(
                    limit as int,
                )
                &&& forall|id: int, row: EventRow| #[trigger]
                    sql::holds(s.cond, params_of(r.values@), id, row) <==> {
                        &&& (row.cgroup_id - cgroup_id) % 0x1_0000_0000_0000_0000 == 0
                        &&& from_ms <= row.timestamp_ms <= to_ms
                        &&& source is Some ==> row.source@ == source->Some_0@
                    }
            },
{
    let mut q = Query::begin(
        "SELECT id, timestamp_ms, source, pid, ppid, tid, uid, comm, cgroup_id, op, ret, data_json, count FROM raw_events WHERE cgroup_id = ?1 AND timestamp_ms BETWEEN ?2 AND ?3",
    );
    q.integer(to_signed(cgroup_id));
    q.integer(from_ms);
    q.integer(to_ms);
    assert(params_of(q.values@) =~= seq![
        SqlParam::Integer(wrapped(cgroup_id)),
        SqlParam::Integer(from_ms as int),
        SqlParam::Integer(to_ms as int),
    ]);
    match source {
        None => {
            q.sql.append(" ORDER BY timestamp_ms ASC LIMIT ?4");
        },
        Some(s) => {
            q.sql.append(" AND source = ?4");
            q.text(s);
            q.sql.append(" ORDER BY timestamp_ms ASC LIMIT ?5");
        },
    }
    q.integer(limit as i64);
    proof {
        sql::container_picks_its_own(cgroup_id, from_ms, to_ms, option_text(source), limit, q);
    }
    q
}

/// The statement of `query_summary` and its parameters.
pub open spec fn summary_query(
    pid: Option<u32>,
    cgroup_id: Option<u64>,
    from_ms: i64,
    to_ms: i64,
    q: Option<Query>,
) -> bool {
    let start = "SELECT source, op, SUM(count) AS total FROM raw_events WHERE timestamp_ms BETWEEN ?1 AND ?2"@
        + " AND ("@;
    let end = ") GROUP BY source, op ORDER BY total DESC"@;
    let window = seq![SqlParam::Integer(from_ms as int), SqlParam::Integer(to_ms as int)];
    match (pid, cgroup_id) {
        (None, None) => q is None,
        (Some(p), None) => q matches Some(q) && q.is(
            start + "pid = ?3"@ + end,
            window.push(SqlParam::Integer(p as int)),
        ),
        (None, Some(c)) => q matches Some(q) && q.is(
            start + "cgroup_id = ?3"@ + end,
            window.push(SqlParam::Integer(wrapped(c))),
        ),
        (Some(p), Some(c)) => q matches Some(q) && q.is(
            start + "pid = ?3 OR cgroup_id = ?4"@ + end,
            window.push(SqlParam::Integer(p as int)).push(SqlParam::Integer(wrapped(c))),
        ),
    }
}

/// The counts by source and operation within a time window, of a process, of a
/// container or of either. `None` where neither is given: then there is nothing
/// to ask for.
pub fn query_summary(
    pid: Option<u32>,
    cgroup_id: Option<u64>,
    from_ms: i64,
    to_ms: i64,
) -> (r: Option<Query>)
    ensures
        summary_query(pid, cgroup_id, from_ms, to_ms, r),
        r is None <==> pid is None && cgroup_id is None,
        r matches Some(q) ==> exists|c: sql::Cond|
            {
                &&& sql::proper(c)
                &&& q.sql@ == "SELECT source, op, SUM(count) AS total FROM raw_events WHERE "@
                    + #[trigger] sql::cond_text(c) + " GROUP BY source, op ORDER BY total DESC"@
                &&& forall|id: int, row: EventRow| #[trigger]
                    sql::holds(c, params_of(q.values@), id, row) <==> {
                        &&& from_ms <= row.timestamp_ms <= to_ms
                        &&& {
                            ||| pid is Some && row.pid == pid->Some_0
                            ||| cgroup_id is Some && (row.cgroup_id - cgroup_id->Some_0)
                                % 0x1_0000_0000_0000_0000 == 0
                        }
                    }
            },
{
    if pid.is_none() && cgroup_id.is_none() {
        return None;
    }
    let mut q = Query::begin(
        "SELECT source, op, SUM(count) AS total FROM raw_events WHERE timestamp_ms BETWEEN ?1 AND ?2",
    );
    q.integer(from_ms);
    q.integer(to_ms);
    assert(params_of(q.values@) =~= seq![
        SqlParam::Integer(from_ms as int),
        SqlParam::Integer(to_ms as int),
    ]);
    q.sql.append(" AND (");
    match (pid, cgroup_id) {
        (Some(p), None) => {
            q.sql.append("pid = ?3");
            q.integer(p as i64);
        },
        (None, Some(c)) => {
            q.sql.append("cgroup_id = ?3");
            q.integer(to_signed(c));
        },
        (Some(p), Some(c)) => {
            q.sql.append("pid = ?3 OR cgroup_id = ?4");
            q.integer(p as i64);
            q.integer(to_signed(c));
        },
        (None, None) => {},
    }
    q.sql.append(") GROUP BY source, op ORDER BY total DESC");
    proof {
        sql::summary_counts_what_is_asked_for(pid, cgroup_id, from_ms, to_ms, q);
    }
    Some(q)
}

// ---- summaries ------------------------------------------------------------------
/// A row of the summary: a source, an operation, and their total count.
#[derive(Clone, Debug)]
pub struct SummaryRow {
    pub source: String,
    pub op: String,
    pub total: i64,
}

/// Total counts by source and, within a source, by operation.
#[derive(Clone, Debug)]
pub struct Summary {
    sources: TextMap<TextMap<i64>>,
}

impl View for Summary {
    type V = Map<Seq<char>, Map<Seq<char>, i64>>;

    closed spec fn view(&self) -> Map<Seq<char>, Map<Seq<char>, i64>> {
        self.sources@.map_values(|ops: TextMap<i64>| ops@)
    }
}

/// The summary after one more row.
pub open spec fn summary_after(
    m: Map<Seq<char>, Map<Seq<char>, i64>>,
    row: SummaryRow,
) -> Map<Seq<char>, Map<Seq<char>, i64>> {
    let ops = if m.contains_key(row.source@) {
        m[row.source@]
    } else {
        Map::empty()
    };
    m.insert(row.source@, ops.insert(row.op@, row.total))
}

/// The summary of a list of rows.
pub open spec fn summary_of(rows: Seq<SummaryRow>) -> Map<Seq<char>, Map<Seq<char>, i64>>
    decreases rows.len(),
{
    if rows.len() == 0 {
        Map::empty()
    } else {
        summary_after(summary_of(rows.drop_last()), rows.last())
    }
}

impl Summary {
    /// No source and no operation of a source is held twice.
    pub closed spec fn wf(&self) -> bool {
        &&& self.sources.wf()
        &&& forall|k: Seq<char>| #[trigger] self.sources@.contains_key(k) ==> self.sources@[k].wf()
    }

    /// An empty summary.
    pub fn new() -> (r: Self)
        ensures
            r.wf(),
            r@ == Map::<Seq<char>, Map<Seq<char>, i64>>::empty(),
            r.sources() == Seq::<Seq<char>>::empty(),
    {
        let r = Summary { sources: TextMap::new() };
        assert(r@ =~= Map::empty());
        r
    }

    /// Takes in one row.
    pub fn take_in(&mut self, row: SummaryRow)
        requires
            old(self).wf(),
        ensures
            final(self).wf(),
            final(self)@ == summary_after(old(self)@, row),
    {
        let ghost before = self.sources@;
        let ghost s = row.source@;
        let mut ops = match self.sources.remove(row.source.as_str()) {
            Some(ops) => ops,
            None => TextMap::new(),
        };
        let ghost found = ops@;
        ops.insert(row.op, row.total);
        let ghost kept = ops;
        self.sources.insert(row.source, ops);
        proof {
            assert(self.sources@ == before.remove(s).insert(s, kept));
            assert forall|k: Seq<char>| #[trigger] self.sources@.contains_key(
                k,
            ) implies self.sources@[k].wf() by {
                if k != s {
                    assert(before.contains_key(k));
                }
            }
            assert(self@ =~= summary_after(old(self)@, row));
        }
    }

    /// The total of an operation of a source.
    pub fn total(&self, source: &str, op: &str) -> (r: Option<i64>)
        requires
            self.wf(),
        ensures
            r == (if self@.contains_key(source@) && self@[source@].contains_key(op@) {
                Some(self@[source@][op@])
            } else {
                None
            }),
    {
        match self.sources.get(source) {
            None => None,
            Some(ops) => match ops.get(op) {
                None => None,
                Some(n) => Some(*n),
            },
        }
    }

    /// The number of sources.
    pub fn len(&self) -> (r: usize)
        requires
            self.wf(),
        ensures
            r == self.sources().len(),
    {
        self.sources.len()
    }

    /// The sources, in some order.
    pub closed spec fn sources(&self) -> Seq<Seq<char>> {
        self.sources.order()
    }

    /// The sources in order are those of the summary, each once.
    pub proof fn lemma_sources(&self)
        requires
            self.wf(),
        ensures
            self.sources().no_duplicates(),
            forall|k: Seq<char>| #[trigger]
                self@.contains_key(k) <==> self.sources().contains(k),
    {
        self.sources.lemma_order();
        assert forall|k: Seq<char>| #[trigger]
            self@.contains_key(k) <==> self.sources().contains(k) by {
            assert(self@.contains_key(k) == self.sources@.contains_key(k));
        }
    }

    /// The source number `i`, with its operations.
    pub fn source_at(&self, i: usize) -> (r: (&str, &TextMap<i64>))
        requires
            self.wf(),
            i < self.sources().len(),
        ensures
            r.0@ == self.sources()[i as int],
            self@.contains_key(r.0@),
            r.1.wf(),
            r.1@ == self@[r.0@],
    {
        let e = self.sources.entry_at(i);
        assert(self.sources@.contains_key(e.0@));
        e
    }
}

/// Sums up the rows of the summary statement.
pub fn summarize(rows: Vec<SummaryRow>) -> (r: Summary)
    ensures
        r.wf(),
        r@ == summary_of(rows@),
        forall|s: Seq<char>, o: Seq<char>|
            #![trigger r@[s].contains_key(o)]
            r@.contains_key(s) && r@[s].contains_key(o) ==> exists|i: int|
                {
                    &&& 0 <= i < rows@.len()
                    &&& (#[trigger] rows@[i]).source@ == s
                    &&& rows@[i].op@ == o
                    &&& rows@[i].total == r@[s][o]
                },
        forall|i: int|
            0 <= i < rows@.len() ==> r@.contains_key((#[trigger] rows@[i]).source@)
                && r@[rows@[i].source@].contains_key(rows@[i].op@),
{
    let mut out = Summary::new();
    let mut i: usize = 0;
    assert(rows@.take(0) =~= Seq::empty());
    while i < rows.len()
        invariant
            i <= rows@.len(),
            out.wf(),
            out@ == summary_of(rows@.take(i as int)),
        decreases rows@.len() - i,
    {
        let row = SummaryRow {
            source: rows[i].source.clone(),
            op: rows[i].op.clone(),
            total: rows[i].total,
        };
        out.take_in(row);
        proof {
            assert(rows@.take(i + 1).drop_last() =~= rows@.take(i as int));
            assert(row == rows@[i as int]);
        }
        i = i + 1;
    }
    assert(rows@.take(i as int) =~= rows@);
    proof {
        assert forall|s: Seq<char>, o: Seq<char>|
            #![trigger out@[s].contains_key(o)]
            out@.contains_key(s) && out@[s].contains_key(o) implies exists|i: int|
            {
                &&& 0 <= i < rows@.len()
                &&& (#[trigger] rows@[i]).source@ == s
                &&& rows@[i].op@ == o
                &&& rows@[i].total == out@[s][o]
            } by {
            summary_says_what_rows_say(rows@, s, o);
        }
        assert forall|i: int| 0 <= i < rows@.len() implies out@.contains_key(
            (#[trigger] rows@[i]).source@,
        ) && out@[rows@[i].source@].contains_key(rows@[i].op@) by {
            every_row_is_in_the_summary(rows@, i);
        }
    }
    out
}

/// A row that is the last of its source and operation is found in the summary.
pub proof fn last_row_is_found(rows: Seq<SummaryRow>, i: int)
    requires
        0 <= i < rows.len(),
        forall|j: int|
            i < j < rows.len() ==> (#[trigger] rows[j]).source@ != rows[i].source@ || rows[j].op@
                != rows[i].op@,
    ensures
        summary_of(rows).contains_key(rows[i].source@),
        summary_of(rows)[rows[i].source@].contains_key(rows[i].op@),
        summary_of(rows)[rows[i].source@][rows[i].op@] == rows[i].total,
    decreases rows.len(),
{
    if i < rows.len() - 1 {
        let rest = rows.drop_last();
        assert forall|j: int| i < j < rest.len() implies (#[trigger] rest[j]).source@
            != rest[i].source@ || rest[j].op@ != rest[i].op@ by {
            assert(rest[j] == rows[j]);
        }
        last_row_is_found(rest, i);
        assert(rows[rows.len() - 1] == rows.last());
    }
}

/// What the summary says of a source and an operation, the last row of the two
/// says.
pub proof fn summary_says_what_rows_say(rows: Seq<SummaryRow>, s: Seq<char>, o: Seq<char>)
    requires
        summary_of(rows).contains_key(s),
        summary_of(rows)[s].contains_key(o),
    ensures
        exists|i: int|
            {
                &&& 0 <= i < rows.len()
                &&& (#[trigger] rows[i]).source@ == s
                &&& rows[i].op@ == o
                &&& rows[i].total == summary_of(rows)[s][o]
                &&& forall|j: int|
                    i < j < rows.len() ==> (#[trigger] rows[j]).source@ != s || rows[j].op@ != o
            },
    decreases rows.len(),
{
    let rest = rows.drop_last();
    let n = rows.len() - 1;
    if rows[n].source@ == s && rows[n].op@ == o {
        assert(rows[n] == rows.last());
    } else {
        assert(rows[n] == rows.last());
        summary_says_what_rows_say(rest, s, o);
        let i = choose|i: int|
            {
                &&& 0 <= i < rest.len()
                &&& (#[trigger] rest[i]).source@ == s
                &&& rest[i].op@ == o
                &&& rest[i].total == summary_of(rest)[s][o]
                &&& forall|j: int|
                    i < j < rest.len() ==> (#[trigger] rest[j]).source@ != s || rest[j].op@ != o
            };
        assert(rows[i] == rest[i]);
        assert forall|j: int| i < j < rows.len() implies (#[trigger] rows[j]).source@ != s
            || rows[j].op@ != o by {
            if j < n {
                assert(rest[j] == rows[j]);
            }
        }
    }
}

/// No row is left out of the summary.
pub proof fn every_row_is_in_the_summary(rows: Seq<SummaryRow>, i: int)
    requires
        0 <= i < rows.len(),
    ensures
        summary_of(rows).contains_key(rows[i].source@),
        summary_of(rows)[rows[i].source@].contains_key(rows[i].op@),
    decreases rows.len(),
{
    if i < rows.len() - 1 {
        every_row_is_in_the_summary(rows.drop_last(), i);
    }
}

/// Aggregate statistics over the table.
#[derive(Clone, Debug)]
pub struct RawEventStats {
    pub total: i64,
    pub by_source: TextMap<i64>,
    pub oldest_ms: Option<i64>,
    pub newest_ms: Option<i64>,
}

/// Counts by source, the last one of a source kept.
pub open spec fn counts_of(rows: Seq<(String, i64)>) -> Map<Seq<char>, i64>
    decreases rows.len(),
{
    if rows.len() == 0 {
        Map::empty()
    } else {
        counts_of(rows.drop_last()).insert(rows.last().0@, rows.last().1)
    }
}

/// A source has a count exactly where a row counts it, and the last such row says
/// which.
pub proof fn last_counts_are_kept(rows: Seq<(String, i64)>)
    ensures
        forall|s: Seq<char>| #[trigger]
            counts_of(rows).contains_key(s) <==> exists|i: int|
                0 <= i < rows.len() && (#[trigger] rows[i]).0@ == s,
        forall|i: int|
            0 <= i < rows.len() && (forall|j: int|
                i < j < rows.len() ==> (#[trigger] rows[j]).0@ != rows[i].0@) ==> counts_of(
                rows,
            )[(#[trigger] rows[i]).0@] == rows[i].1,
    decreases rows.len(),
{
    if rows.len() > 0 {
        let rest = rows.drop_last();
        let n = rows.len() - 1;
        last_counts_are_kept(rest);
        assert forall|s: Seq<char>| #[trigger] counts_of(rows).contains_key(s) <==> exists|i: int|
            0 <= i < rows.len() && (#[trigger] rows[i]).0@ == s by {
            if counts_of(rest).contains_key(s) {
                let i = choose|i: int| 0 <= i < rest.len() && (#[trigger] rest[i]).0@ == s;
                assert(rows[i].0@ == s);
            }
            if exists|i: int| 0 <= i < rows.len() && (#[trigger] rows[i]).0@ == s {
                let i = choose|i: int| 0 <= i < rows.len() && (#[trigger] rows[i]).0@ == s;
                if i < n {
                    assert(rest[i].0@ == s);
                }
            }
            assert(rows[n] == rows.last());
        }
        assert forall|i: int|
            0 <= i < rows.len() && (forall|j: int|
                i < j < rows.len() ==> (#[trigger] rows[j]).0@ != rows[i].0@) implies counts_of(
            rows,
        )[(#[trigger] rows[i]).0@] == rows[i].1 by {
            if i < n {
                assert forall|j: int| i < j < rest.len() implies (#[trigger] rest[j]).0@
                    != rest[i].0@ by {
                    assert(rest[j] == rows[j]);
                }
                assert(rest[i] == rows[i]);
                assert(rows[n].0@ != rows[i].0@);
            }
        }
    }
}

/// Puts the statistics together from what the database answered; a count that
/// could not be had is 0.
pub fn stats(
    total: Option<i64>,
    oldest_ms: Option<i64>,
    newest_ms: Option<i64>,
    by_source: Vec<(String, i64)>,
) -> (r: RawEventStats)
    ensures
        r.total == (match total {
            Some(n) => n,
            None => 0,
        }),
        r.oldest_ms == oldest_ms,
        r.newest_ms == newest_ms,
        r.by_source.wf(),
        r.by_source@ == counts_of(by_source@),
        forall|s: Seq<char>| #[trigger]
            r.by_source@.contains_key(s) <==> exists|i: int|
                0 <= i < by_source@.len() && (#[trigger] by_source@[i]).0@ == s,
        forall|i: int|
            0 <= i < by_source@.len() && (forall|j: int|
                i < j < by_source@.len() ==> (#[trigger] by_source@[j]).0@ != by_source@[i].0@)
                ==> r.by_source@[(#[trigger] by_source@[i]).0@] == by_source@[i].1,
{
    let mut counts: TextMap<i64> = TextMap::new();
    let mut i: usize = 0;
    assert(by_source@.take(0) =~= Seq::empty());
    while i < by_source.len()
        invariant
            i <= by_source@.len(),
            counts.wf(),
            counts@ == counts_of(by_source@.take(i as int)),
        decreases by_source@.len() - i,
    {
        counts.insert(by_source[i].0.clone(), by_source[i].1);
        assert(by_source@.take(i + 1).drop_last() =~= by_source@.take(i as int));
        i = i + 1;
    }
    assert(by_source@.take(i as int) =~= by_source@);
    proof {
        last_counts_are_kept(by_source@);
    }
    RawEventStats {
        total: match total {
            Some(n) => n,
            None => 0,
        },
        by_source: counts,
        oldest_ms,
        newest_ms,
    }
}

// ---- writing --------------------------------------------------------------------
/// What the writer's channel gave.
#[derive(Clone, Debug)]
pub enum Received {
    Event(RawEvent),
    Timeout,
    /// All senders are gone.
    Disconnected,
}

/// What the writer does after it received something.
#[derive(Clone, Debug)]
pub struct WriterStep {
    /// Write these events in one transaction.
    pub write: Option<Vec<RawEvent>>,
    /// The interval to the next write begins anew.
    pub restart_interval: bool,
    pub stop: bool,
}

/// Collects events and hands them out in batches.
pub struct BatchWriter {
    batch_size: usize,
    buf: Vec<RawEvent>,
}

impl View for BatchWriter {
    type V = Seq<RawEvent>;

    /// The events that wait to be written.
    closed spec fn view(&self) -> Seq<RawEvent> {
        self.buf@
    }
}

/// The events that wait after one more thing was received, before any of them
/// are written.
pub open spec fn waiting(held: Seq<RawEvent>, received: Received) -> Seq<RawEvent> {
    match received {
        Received::Event(e) => held.push(e),
        _ => held,
    }
}

/// The waiting events are written now: the batch is full, or the interval or
/// the channel has ended and there is something to write.
pub open spec fn writes_now(batch_size: usize, held: Seq<RawEvent>, received: Received) -> bool {
    match received {
        Received::Event(e) => held.len() + 1 >= batch_size,
        _ => held.len() > 0,
    }
}

impl BatchWriter {
    /// How many events a batch holds at most.
    pub closed spec fn batch_size(&self) -> usize {
        self.batch_size
    }

    /// A writer that holds nothing.
    pub fn new(batch_size: usize) -> (r: Self)
        ensures
            r.batch_size() == batch_size,
            r@ == Seq::<RawEvent>::empty(),
    {
        BatchWriter { batch_size, buf: Vec::new() }
    }

    /// Takes in what the channel gave.
    pub fn on_receive(&mut self, received: Received) -> (r: WriterStep)
        ensures
            final(self).batch_size() == old(self).batch_size(),
            ({
                let all = waiting(old(self)@, received);
                if writes_now(old(self).batch_size(), old(self)@, received) {
                    &&& r.write is Some
                    &&& r.write->Some_0@ == all
                    &&& final(self)@ == Seq::<RawEvent>::empty()
                } else {
                    &&& r.write is None
                    &&& final(self)@ == all
                }
            }),
            received matches Received::Event(e) ==> (if old(self)@.len() + 1 >= old(
                self,
            ).batch_size() {
                &&& r.write is Some
                &&& r.write->Some_0@ == old(self)@.push(e)
                &&& final(self)@.len() == 0
            } else {
                &&& r.write is None
                &&& final(self)@ == old(self)@.push(e)
            }),
            !(received is Event) ==> {
                &&& final(self)@.len() == 0
                &&& r.write is Some <==> old(self)@.len() > 0
                &&& r.write is Some ==> r.write->Some_0@ == old(self)@
            },
            r.restart_interval == (received is Timeout || (received is Event && r.write is Some)),
            r.stop == received is Disconnected,
    {
        match received {
            Received::Event(e) => {
                self.buf.push(e);
                if self.buf.len() >= self.batch_size {
                    let mut batch: Vec<RawEvent> = Vec::new();
                    std::mem::swap(&mut batch, &mut self.buf);
                    WriterStep { write: Some(batch), restart_interval: true, stop: false }
                } else {
                    WriterStep { write: None, restart_interval: false, stop: false }
                }
            },
            Received::Timeout => {
                let write = self.drain();
                WriterStep { write, restart_interval: true, stop: false }
            },
            Received::Disconnected => {
                let write = self.drain();
                WriterStep { write, restart_interval: false, stop: true }
            },
        }
    }

    fn drain(&mut self) -> (r: Option<Vec<RawEvent>>)
        ensures
            final(self).batch_size() == old(self).batch_size(),
            final(self)@ == Seq::<RawEvent>::empty(),
            r is None <==> old(self)@.len() == 0,
            r matches Some(v) ==> v@ == old(self)@,
    {
        if self.buf.len() == 0 {
            None
        } else {
            let mut batch: Vec<RawEvent> = Vec::new();
            std::mem::swap(&mut batch, &mut self.buf);
            Some(batch)
        }
    }
}

/// What is written and what still waits after a run of things received by a
/// writer that held nothing.
pub open spec fn written_and_waiting(batch_size: usize, run: Seq<Received>) -> (
    Seq<RawEvent>,
    Seq<RawEvent>,
)
    decreases run.len(),
{
    if run.len() == 0 {
        (Seq::empty(), Seq::empty())
    } else {
        let (written, held) = written_and_waiting(batch_size, run.drop_last());
        let all = waiting(held, run.last());
        if writes_now(batch_size, held, run.last()) {
            (written + all, Seq::empty())
        } else {
            (written, all)
        }
    }
}

/// The events of a run, in order.
pub open spec fn events_in(run: Seq<Received>) -> Seq<RawEvent>
    decreases run.len(),
{
    if run.len() == 0 {
        Seq::empty()
    } else {
        waiting(events_in(run.drop_last()), run.last())
    }
}

/// No event that reached the writer is lost, doubled or reordered: what was
/// written, followed by what waits, is what was received.
pub proof fn no_event_is_lost(batch_size: usize, run: Seq<Received>)
    ensures
        written_and_waiting(batch_size, run).0 + written_and_waiting(batch_size, run).1
            == events_in(run),
    decreases run.len(),
{
    if run.len() > 0 {
        no_event_is_lost(batch_size, run.drop_last());
        let (written, held) = written_and_waiting(batch_size, run.drop_last());
        let all = waiting(held, run.last());
        assert(written + all =~= events_in(run));
        assert((written + all) + Seq::empty() =~= written + all);
    } else {
        assert(Seq::<RawEvent>::empty() + Seq::<RawEvent>::empty() =~= Seq::empty());
    }
}

/// Once the channel has ended nothing waits any more, and no more than a batch
/// ever waits.
pub proof fn waiting_is_bounded(batch_size: usize, run: Seq<Received>)
    ensures
        run.len() > 0 && run.last() is Disconnected ==> written_and_waiting(batch_size, run).1.len()
            == 0,
        batch_size > 0 ==> written_and_waiting(batch_size, run).1.len() < batch_size,
        batch_size == 0 ==> written_and_waiting(batch_size, run).1.len() == 0,
    decreases run.len(),
{
    if run.len() > 0 {
        waiting_is_bounded(batch_size, run.drop_last());
    }
}

/// How long to wait for the next event: what is left of the interval since the
/// last write, in nanoseconds.
pub fn remaining_timeout(elapsed_ns: u128, interval_ns: u128) -> (r: u128)
    ensures
        r == (if elapsed_ns >= interval_ns {
            0
        } else {
            interval_ns - elapsed_ns
        }),
{
    if elapsed_ns >= interval_ns {
        0
    } else {
        interval_ns - elapsed_ns
    }
}

/// `n`, held within the range of `i64`.
pub open spec fn saturated(n: int) -> int {
    if n < i64::MIN {
        i64::MIN as int
    } else if n > i64::MAX {
        i64::MAX as int
    } else {
        n
    }
}

/// The time before which rows have expired.
pub fn expiry_cutoff_ms(now_ms: i64, ttl_secs: u64) -> (r: i64)
    ensures
        r == saturated(now_ms - ttl_secs * 1_000),
        r == now_ms - ttl_secs * 1_000 || r == i64::MIN && now_ms - ttl_secs * 1_000 < i64::MIN,
{
    let cutoff: i128 = now_ms as i128 - ttl_secs as i128 * 1_000;
    if cutoff < i64::MIN as i128 {
        i64::MIN
    } else {
        cutoff as i64
    }
}

/// The reaper looks for what has expired every five minutes.
pub proof fn reaper_sleeps_five_minutes()
    ensures
        REAP_INTERVAL_SECS == 5 * 60,
{
}

} // verus!
