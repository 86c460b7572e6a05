//! What the statements over the table of events mean.
//!
//! A statement is text. Here stands which text says what of a row, so that it can
//! be stated which rows a statement picks.

use vstd::prelude::*;

use super::raw_event::RawEvent;
use super::raw_events;
use super::raw_events::{EventRow, Query, SqlParam};
use crate::text;

verus! {

/// A column of the table.
pub ghost enum Column {
    Id,
    TimestampMs,
    Source,
    Pid,
    Ppid,
    Tid,
    Uid,
    Comm,
    CgroupId,
    Op,
    Ret,
    DataJson,
    Count,
}

/// The name of a column.
pub open spec fn column_text(c: Column) -> Seq<char> {
    match c {
        Column::Id => "id"@,
        Column::TimestampMs => "timestamp_ms"@,
        Column::Source => "source"@,
        Column::Pid => "pid"@,
        Column::Ppid => "ppid"@,
        Column::Tid => "tid"@,
        Column::Uid => "uid"@,
        Column::Comm => "comm"@,
        Column::CgroupId => "cgroup_id"@,
        Column::Op => "op"@,
        Column::Ret => "ret"@,
        Column::DataJson => "data_json"@,
        Column::Count => "count"@,
    }
}

/// What a row holds in a column.
pub open spec fn value_of(c: Column, id: int, row: EventRow) -> SqlParam {
    match c {
        Column::Id => SqlParam::Integer(id),
        Column::TimestampMs => SqlParam::Integer(row.timestamp_ms as int),
        Column::Source => SqlParam::Text(row.source@),
        Column::Pid => SqlParam::Integer(row.pid as int),
        Column::Ppid => SqlParam::Integer(row.ppid as int),
        Column::Tid => SqlParam::Integer(row.tid as int),
        Column::Uid => SqlParam::Integer(row.uid as int),
        Column::Comm => SqlParam::Text(row.comm@),
        Column::CgroupId => SqlParam::Integer(row.cgroup_id as int),
        Column::Op => SqlParam::Text(row.op@),
        Column::Ret => SqlParam::Integer(row.ret as int),
        Column::DataJson => SqlParam::Text(row.data_json@),
        Column::Count => SqlParam::Integer(row.count as int),
    }
}

/// The columns that an event is written to and read from, in order.
pub open spec fn event_columns() -> Seq<Column> {
    seq![
        Column::TimestampMs,
        Column::Source,
        Column::Pid,
        Column::Ppid,
        Column::Tid,
        Column::Uid,
        Column::Comm,
        Column::CgroupId,
        Column::Op,
        Column::Ret,
        Column::DataJson,
        Column::Count,
    ]
}

/// All columns: the number of the row, then the event.
pub open spec fn all_columns() -> Seq<Column> {
    seq![Column::Id] + event_columns()
}

/// Names of columns, with commas between them.
pub open spec fn list_text(columns: Seq<Column>) -> Seq<char> {
    text::joined(columns.map_values(|c: Column| column_text(c)), ", "@)
}

/// The place of parameter `n`, counted from 1.
pub open spec fn place_text(n: nat) -> Seq<char> {
    "?"@ + text::decimal(n)
}

/// A condition on a row; parameters are counted from 1.
pub ghost enum Cond {
    Above(Column, nat),
    Equals(Column, nat),
    Between(Column, nat, nat),
    And(Box<Cond>, Box<Cond>),
    Or(Box<Cond>, Box<Cond>),
    Group(Box<Cond>),
}

/// The text of a condition.
pub open spec fn cond_text(c: Cond) -> Seq<char>
    decreases c,
{
    match c {
        Cond::Above(col, n) => column_text(col) + " > "@ + place_text(n),
        Cond::Equals(col, n) => column_text(col) + " = "@ + place_text(n),
        Cond::Between(col, a, b) => column_text(col) + " BETWEEN "@ + place_text(a) + " AND "@
            + place_text(b),
        Cond::And(a, b) => cond_text(*a) + " AND "@ + cond_text(*b),
        Cond::Or(a, b) => cond_text(*a) + " OR "@ + cond_text(*b),
        Cond::Group(a) => "("@ + cond_text(*a) + ")"@,
    }
}

/// What is joined by `AND` is no alternative without brackets: `AND` binds
/// tighter than `OR`.
pub open spec fn proper(c: Cond) -> bool
    decreases c,
{
    match c {
        Cond::And(a, b) => !(*a is Or) && !(*b is Or) && proper(*a) && proper(*b),
        Cond::Or(a, b) => proper(*a) && proper(*b),
        Cond::Group(a) => proper(*a),
        _ => true,
    }
}

/// `a` is a greater number than `b`.
pub open spec fn greater(a: SqlParam, b: SqlParam) -> bool {
    match (a, b) {
        (SqlParam::Integer(x), SqlParam::Integer(y)) => x > y,
        _ => false,
    }
}

/// `v` lies between two numbers, both among those that count.
pub open spec fn in_range(v: SqlParam, low: SqlParam, high: SqlParam) -> bool {
    match (v, low, high) {
        (SqlParam::Integer(x), SqlParam::Integer(a), SqlParam::Integer(b)) => a <= x <= b,
        _ => false,
    }
}

/// A row meets a condition.
pub open spec fn holds(c: Cond, params: Seq<SqlParam>, id: int, row: EventRow) -> bool
    decreases c,
{
    match c {
        Cond::Above(col, n) => greater(value_of(col, id, row), params[n - 1]),
        Cond::Equals(col, n) => value_of(col, id, row) == params[n - 1],
        Cond::Between(col, a, b) => in_range(
            value_of(col, id, row),
            params[a - 1],
            params[b - 1],
        ),
        Cond::And(a, b) => holds(*a, params, id, row) && holds(*b, params, id, row),
        Cond::Or(a, b) => holds(*a, params, id, row) || holds(*b, params, id, row),
        Cond::Group(a) => holds(*a, params, id, row),
    }
}

/// A statement that reads rows: their columns, the condition that they meet, the
/// column that they come in ascending order of, and the parameter that bounds
/// their number, where one does.
pub ghost struct Select {
    pub columns: Seq<Column>,
    pub cond: Cond,
    pub order: Column,
    pub limit: Option<nat>,
}

/// The text of a statement that reads rows.
pub open spec fn select_text(s: Select) -> Seq<char> {
    "SELECT "@ + list_text(s.columns) + " FROM raw_events WHERE "@ + cond_text(s.cond)
        + " ORDER BY "@ + column_text(s.order) + " ASC"@ + (match s.limit {
        Some(n) => " LIMIT "@ + place_text(n),
        None => Seq::empty(),
    })
}

/// A statement that reads the rows of a process and of all that descend from it.
/// The numbers of the processes are gathered first, from the one that a parameter
/// gives: a row within the time adds what it holds in `child` where what it holds
/// in `parent` was gathered before. Then the rows are read whose `member` was
/// gathered.
pub ghost struct Tree {
    pub columns: Seq<Column>,
    pub root: nat,
    pub child: Column,
    pub parent: Column,
    pub member: Column,
    pub time: Column,
    pub from: nat,
    pub to: nat,
    pub order: Column,
}

/// The text of a statement that reads the rows of a tree.
pub open spec fn tree_text(t: Tree) -> Seq<char> {
    "WITH RECURSIVE descendant_pids(pid) AS (
                SELECT "@ + place_text(t.root) + "
                UNION
                SELECT r."@ + column_text(t.child) + "
                FROM raw_events r
                INNER JOIN descendant_pids d ON r."@ + column_text(t.parent) + " = d.pid
                WHERE r."@ + column_text(t.time) + " BETWEEN "@ + place_text(t.from) + " AND "@
        + place_text(t.to) + "
            )
            SELECT DISTINCT "@ + list_text(t.columns) + "
            FROM raw_events
            WHERE "@ + column_text(t.member) + " IN (SELECT pid FROM descendant_pids)
            AND "@ + column_text(t.time) + " BETWEEN "@ + place_text(t.from) + " AND "@
        + place_text(t.to) + "
            ORDER BY "@ + column_text(t.order) + " ASC"@
}

/// The row lies within the time of a tree.
pub open spec fn tree_time(t: Tree, params: Seq<SqlParam>, id: int, row: EventRow) -> bool {
    in_range(value_of(t.time, id, row), params[t.from - 1], params[t.to - 1])
}

/// What has been gathered after `n` rounds over a table of rows.
pub open spec fn gathered(
    t: Tree,
    params: Seq<SqlParam>,
    table: Seq<(int, EventRow)>,
    n: nat,
    v: SqlParam,
) -> bool
    decreases n,
{
    if n == 0 {
        v == params[t.root - 1]
    } else {
        ||| gathered(t, params, table, (n - 1) as nat, v)
        ||| exists|i: int|
            {
                &&& 0 <= i < table.len()
                &&& v == value_of(t.child, table[i].0, (#[trigger] table[i]).1)
                &&& tree_time(t, params, table[i].0, table[i].1)
                &&& gathered(
                    t,
                    params,
                    table,
                    (n - 1) as nat,
                    value_of(t.parent, table[i].0, table[i].1),
                )
            }
    }
}

/// A row of a table is read by a tree statement.
pub open spec fn tree_reads(
    t: Tree,
    params: Seq<SqlParam>,
    table: Seq<(int, EventRow)>,
    i: int,
) -> bool {
    &&& tree_time(t, params, table[i].0, table[i].1)
    &&& exists|n: nat| #[trigger]
        gathered(t, params, table, n, value_of(t.member, table[i].0, table[i].1))
}

// ---- laws -----------------------------------------------------------------------
/// A column goes by its own name.
pub proof fn columns_go_by_their_names()
    ensures
        column_text(Column::Id) == "id"@,
        column_text(Column::TimestampMs) == "timestamp_ms"@,
        column_text(Column::Source) == "source"@,
        column_text(Column::Pid) == "pid"@,
        column_text(Column::Ppid) == "ppid"@,
        column_text(Column::Tid) == "tid"@,
        column_text(Column::Uid) == "uid"@,
        column_text(Column::Comm) == "comm"@,
        column_text(Column::CgroupId) == "cgroup_id"@,
        column_text(Column::Op) == "op"@,
        column_text(Column::Ret) == "ret"@,
        column_text(Column::DataJson) == "data_json"@,
        column_text(Column::Count) == "count"@,
{
}

/// A column holds the field of its name; the first one holds the number of the row.
pub proof fn columns_hold_their_fields(id: int, row: EventRow)
    ensures
        value_of(Column::Id, id, row) == SqlParam::Integer(id),
        value_of(Column::TimestampMs, id, row) == SqlParam::Integer(row.timestamp_ms as int),
        value_of(Column::Pid, id, row) == SqlParam::Integer(row.pid as int),
        value_of(Column::Ppid, id, row) == SqlParam::Integer(row.ppid as int),
        value_of(Column::Tid, id, row) == SqlParam::Integer(row.tid as int),
        value_of(Column::Uid, id, row) == SqlParam::Integer(row.uid as int),
        value_of(Column::CgroupId, id, row) == SqlParam::Integer(row.cgroup_id as int),
        value_of(Column::Ret, id, row) == SqlParam::Integer(row.ret as int),
        value_of(Column::Count, id, row) == SqlParam::Integer(row.count as int),
        value_of(Column::Source, id, row) == SqlParam::Text(row.source@),
        value_of(Column::Comm, id, row) == SqlParam::Text(row.comm@),
        value_of(Column::Op, id, row) == SqlParam::Text(row.op@),
        value_of(Column::DataJson, id, row) == SqlParam::Text(row.data_json@),
{
}

/// An event is written to the columns that it is read from, each value to the
/// column of its name.
pub proof fn events_are_written_where_they_are_read()
    ensures
        raw_events::INSERT@ == "INSERT INTO raw_events ("@ + list_text(event_columns())
            + ") VALUES ("@ + text::joined(
            Seq::new(12, |i: int| place_text((i + 1) as nat)),
            ", "@,
        ) + ")"@,
{
    lemma_event_list();
    lemma_places();
    let names =
        "timestamp_ms, source, pid, ppid, tid, uid, comm, cgroup_id, op, ret, data_json, count"@;
    let places = "?1, ?2, ?3, ?4, ?5, ?6, ?7, ?8, ?9, ?10, ?11, ?12"@;
    reveal_strlit("INSERT INTO raw_events (timestamp_ms, source, pid, ppid, tid, uid, comm, cgroup_id, op, ret, data_json, count) VALUES (?1, ?2, ?3, ?4, ?5, ?6, ?7, ?8, ?9, ?10, ?11, ?12)");
    reveal_strlit("INSERT INTO raw_events (");
    reveal_strlit(
        "timestamp_ms, source, pid, ppid, tid, uid, comm, cgroup_id, op, ret, data_json, count",
    );
    reveal_strlit(") VALUES (");
    reveal_strlit("?1, ?2, ?3, ?4, ?5, ?6, ?7, ?8, ?9, ?10, ?11, ?12");
    reveal_strlit(")");
    assert(raw_events::INSERT@ =~= "INSERT INTO raw_events ("@ + names + ") VALUES ("@ + places
        + ")"@);
}

/// All columns are the number of the row and those of the event, in the order in
/// which a row is read.
pub proof fn columns_are_read_in_order()
    ensures
        all_columns() == seq![
                Column::Id,
                Column::TimestampMs,
                Column::Source,
                Column::Pid,
                Column::Ppid,
                Column::Tid,
                Column::Uid,
                Column::Comm,
                Column::CgroupId,
                Column::Op,
                Column::Ret,
                Column::DataJson,
                Column::Count,
            ],
{
    assert(all_columns() =~= seq![
                Column::Id,
                Column::TimestampMs,
                Column::Source,
                Column::Pid,
                Column::Ppid,
                Column::Tid,
                Column::Uid,
                Column::Comm,
                Column::CgroupId,
                Column::Op,
                Column::Ret,
                Column::DataJson,
                Column::Count,
            ]);
}

/// A word is that of `g` read as a signed number exactly where the two are equal
/// up to a multiple of 2 to the 64.
proof fn lemma_same_word(x: i64, g: u64)
    ensures
        x == raw_events::wrapped(g) <==> (x - g) % 0x1_0000_0000_0000_0000 == 0,
{
}

/// The summary counts a row exactly where its time lies within the window and it
/// is of the process or of the container that is asked for.
pub proof fn summary_counts_what_is_asked_for(
    pid: Option<u32>,
    cgroup_id: Option<u64>,
    from_ms: i64,
    to_ms: i64,
    q: Query,
)
    requires
        raw_events::summary_query(pid, cgroup_id, from_ms, to_ms, Some(q)),
    ensures
        pid is Some || cgroup_id is Some,
        exists|c: Cond|
            {
                &&& proper(c)
                &&& q.sql@ == "SELECT source, op, SUM(count) AS total FROM raw_events WHERE "@
                    + #[trigger] cond_text(c) + " GROUP BY source, op ORDER BY total DESC"@
                &&& forall|id: int, row: EventRow| #[trigger]
                    holds(c, raw_events::params_of(q.values@), id, row) <==> {
                        &&& from_ms <= row.timestamp_ms <= to_ms
                        &&& {
                            ||| pid is Some && row.pid == pid->Some_0
                            ||| cgroup_id is Some && (row.cgroup_id - cgroup_id->Some_0)
                                % 0x1_0000_0000_0000_0000 == 0
                        }
                    }
            },
{
    let within = Cond::Between(Column::TimestampMs, 1, 2);
    let one = Cond::Equals(Column::Pid, 3);
    let other = Cond::Equals(Column::CgroupId, if pid is Some {
        4
    } else {
        3
    });
    let which = match (pid, cgroup_id) {
        (Some(_), None) => one,
        (None, _) => other,
        _ => Cond::Or(Box::new(one), Box::new(other)),
    };
    let c = Cond::And(Box::new(within), Box::new(Cond::Group(Box::new(which))));
    reveal_with_fuel(proper, 4);
    reveal_with_fuel(cond_text, 4);
    lemma_place_texts();
    assert(q.sql@ =~= "SELECT source, op, SUM(count) AS total FROM raw_events WHERE "@ + cond_text(c)
        + " GROUP BY source, op ORDER BY total DESC"@) by {
        reveal_strlit("SELECT source, op, SUM(count) AS total FROM raw_events WHERE ");
        reveal_strlit(" GROUP BY source, op ORDER BY total DESC");
        reveal_strlit("SELECT source, op, SUM(count) AS total FROM raw_events WHERE timestamp_ms BETWEEN ?1 AND ?2");
        reveal_strlit(" AND (");
        reveal_strlit(") GROUP BY source, op ORDER BY total DESC");
        reveal_strlit("pid = ?3");
        reveal_strlit("cgroup_id = ?3");
        reveal_strlit("pid = ?3 OR cgroup_id = ?4");
        reveal_strlit("timestamp_ms");
        reveal_strlit(" BETWEEN ");
        reveal_strlit(" AND ");
        reveal_strlit(" OR ");
        reveal_strlit("(");
        reveal_strlit(")");
        reveal_strlit("pid");
        reveal_strlit("cgroup_id");
        reveal_strlit(" = ");
        reveal_strlit("?1");
        reveal_strlit("?2");
        reveal_strlit("?3");
        reveal_strlit("?4");
    }
    let params = raw_events::params_of(q.values@);
    assert forall|id: int, row: EventRow| #[trigger] holds(c, params, id, row) <==> {
        &&& from_ms <= row.timestamp_ms <= to_ms
        &&& {
            ||| pid is Some && row.pid == pid->Some_0
            ||| cgroup_id is Some && (row.cgroup_id - cgroup_id->Some_0)
                % 0x1_0000_0000_0000_0000 == 0
        }
    } by {
        reveal_with_fuel(holds, 4);
        if cgroup_id is Some {
            lemma_same_word(row.cgroup_id, cgroup_id->Some_0);
        }
    }
}

/// The summary counts a stored event exactly where its time lies within the window
/// and its process or its container is the one that is asked for: the columns that
/// are compared are those that the event was stored in.
pub proof fn summary_counts_stored_events(
    pid: Option<u32>,
    cgroup_id: Option<u64>,
    from_ms: i64,
    to_ms: i64,
    q: Query,
    e: RawEvent,
    id: int,
    row: EventRow,
)
    requires
        raw_events::summary_query(pid, cgroup_id, from_ms, to_ms, Some(q)),
        raw_events::stored_as(row, e),
    ensures
        exists|c: Cond|
            {
                &&& proper(c)
                &&& q.sql@ == "SELECT source, op, SUM(count) AS total FROM raw_events WHERE "@
                    + #[trigger] cond_text(c) + " GROUP BY source, op ORDER BY total DESC"@
                &&& holds(c, raw_events::params_of(q.values@), id, row) <==> {
                    &&& from_ms <= e.timestamp_ms <= to_ms
                    &&& pid == Some(e.pid) || cgroup_id == Some(e.cgroup_id)
                }
            },
{
    summary_counts_what_is_asked_for(pid, cgroup_id, from_ms, to_ms, q);
    let c = choose|c: Cond|
        {
            &&& proper(c)
            &&& q.sql@ == "SELECT source, op, SUM(count) AS total FROM raw_events WHERE "@
                + #[trigger] cond_text(c) + " GROUP BY source, op ORDER BY total DESC"@
            &&& forall|id: int, row: EventRow| #[trigger]
                holds(c, raw_events::params_of(q.values@), id, row) <==> {
                    &&& from_ms <= row.timestamp_ms <= to_ms
                    &&& {
                        ||| pid is Some && row.pid == pid->Some_0
                        ||| cgroup_id is Some && (row.cgroup_id - cgroup_id->Some_0)
                            % 0x1_0000_0000_0000_0000 == 0
                    }
                }
        };
    if cgroup_id is Some {
        lemma_same_word(row.cgroup_id, cgroup_id->Some_0);
    }
    let params = raw_events::params_of(q.values@);
    assert(holds(c, params, id, row) <==> {
        &&& from_ms <= e.timestamp_ms <= to_ms
        &&& pid == Some(e.pid) || cgroup_id == Some(e.cgroup_id)
    });
    assert(cond_text(c) == cond_text(c));
}

/// An incremental pull picks the rows behind the one that is given, of the source
/// and of the process that are asked for, by their number and up to the limit.
pub proof fn pull_picks_what_is_behind(
    since_id: i64,
    limit: u32,
    source: Option<Seq<char>>,
    pid: Option<u32>,
    q: Query,
)
    requires
        raw_events::since_query(since_id, limit, source, pid, q),
    ensures
        exists|s: Select|
            {
                &&& proper(s.cond)
                &&& q.sql@ == #[trigger] select_text(s)
                &&& s.columns == all_columns()
                &&& s.order == Column::Id
                &&& s.limit is Some
                &&& raw_events::params_of(q.values@)[s.limit->Some_0 - 1] == SqlParam::Integer(
                    limit as int,
                )
                &&& forall|id: int, row: EventRow| #[trigger]
                    holds(s.cond, raw_events::params_of(q.values@), id, row) <==> {
                        &&& id > since_id
                        &&& source is Some ==> row.source@ == source->Some_0
                        &&& pid is Some ==> row.pid == pid->Some_0
                    }
            },
{
    let behind = Cond::Above(Column::Id, 1);
    let cond = match (source, pid) {
        (None, None) => behind,
        (Some(_), None) => Cond::And(Box::new(behind), Box::new(Cond::Equals(Column::Source, 2))),
        (None, Some(_)) => Cond::And(Box::new(behind), Box::new(Cond::Equals(Column::Pid, 2))),
        (Some(_), Some(_)) => Cond::And(
            Box::new(Cond::And(Box::new(behind), Box::new(Cond::Equals(Column::Source, 2)))),
            Box::new(Cond::Equals(Column::Pid, 3)),
        ),
    };
    let limited = match (source, pid) {
        (None, None) => 2nat,
        (Some(_), Some(_)) => 4,
        _ => 3,
    };
    let s = Select { columns: all_columns(), cond, order: Column::Id, limit: Some(limited) };
    reveal_with_fuel(proper, 4);
    reveal_with_fuel(cond_text, 4);
    lemma_place_texts();
    lemma_all_list();
    assert(q.sql@ =~= select_text(s)) by {
        reveal_strlit("SELECT id, timestamp_ms, source, pid, ppid, tid, uid, comm, cgroup_id, op, ret, data_json, count FROM raw_events WHERE id > ?1");
        reveal_strlit(" ORDER BY id ASC LIMIT ?2");
        reveal_strlit(" ORDER BY id ASC LIMIT ?3");
        reveal_strlit(" ORDER BY id ASC LIMIT ?4");
        reveal_strlit(" AND source = ?2");
        reveal_strlit(" AND pid = ?2");
        reveal_strlit(" AND pid = ?3");
        reveal_strlit("SELECT ");
        reveal_strlit(" FROM raw_events WHERE ");
        reveal_strlit(" ORDER BY ");
        reveal_strlit(" ASC");
        reveal_strlit(" LIMIT ");
        reveal_strlit(" AND ");
        reveal_strlit(" BETWEEN ");
        reveal_strlit(" > ");
        reveal_strlit(" = ");
        reveal_strlit("id");
        reveal_strlit("timestamp_ms");
        reveal_strlit("source");
        reveal_strlit("pid");
        reveal_strlit("cgroup_id");
        reveal_strlit("?1");
        reveal_strlit("?2");
        reveal_strlit("?3");
        reveal_strlit("?4");
        reveal_strlit("?5");
        reveal_strlit("id, timestamp_ms, source, pid, ppid, tid, uid, comm, cgroup_id, op, ret, data_json, count");
    }
    let params = raw_events::params_of(q.values@);
    assert forall|id: int, row: EventRow| #[trigger] holds(s.cond, params, id, row) <==> {
        &&& id > since_id
        &&& source is Some ==> row.source@ == source->Some_0
        &&& pid is Some ==> row.pid == pid->Some_0
    } by {
        reveal_with_fuel(holds, 4);
    }
}

/// A window picks the rows whose time lies in it, both ends among them, of the
/// source that is asked for, by their time.
pub proof fn window_picks_what_lies_in_it(from_ms: i64, to_ms: i64, source: Option<Seq<char>>,
    q: Query)
    requires
        raw_events::window_query(from_ms, to_ms, source, q),
    ensures
        exists|s: Select|
            {
                &&& proper(s.cond)
                &&& q.sql@ == #[trigger] select_text(s)
                &&& s.columns == all_columns()
                &&& s.order == Column::TimestampMs
                &&& s.limit is None
                &&& forall|id: int, row: EventRow| #[trigger]
                    holds(s.cond, raw_events::params_of(q.values@), id, row) <==> {
                        &&& from_ms <= row.timestamp_ms <= to_ms
                        &&& source is Some ==> row.source@ == source->Some_0
                    }
            },
{
    let within = Cond::Between(Column::TimestampMs, 1, 2);
    let cond = match source {
        None => within,
        Some(_) => Cond::And(Box::new(within), Box::new(Cond::Equals(Column::Source, 3))),
    };
    let s = Select { columns: all_columns(), cond, order: Column::TimestampMs, limit: None };
    reveal_with_fuel(proper, 4);
    reveal_with_fuel(cond_text, 4);
    lemma_place_texts();
    lemma_all_list();
    assert(q.sql@ =~= select_text(s)) by {
        reveal_strlit("SELECT id, timestamp_ms, source, pid, ppid, tid, uid, comm, cgroup_id, op, ret, data_json, count FROM raw_events WHERE timestamp_ms BETWEEN ?1 AND ?2");
        reveal_strlit(" AND source = ?3");
        reveal_strlit(" ORDER BY timestamp_ms ASC");
        reveal_strlit("SELECT ");
        reveal_strlit(" FROM raw_events WHERE ");
        reveal_strlit(" ORDER BY ");
        reveal_strlit(" ASC");
        reveal_strlit(" LIMIT ");
        reveal_strlit(" AND ");
        reveal_strlit(" BETWEEN ");
        reveal_strlit(" > ");
        reveal_strlit(" = ");
        reveal_strlit("id");
        reveal_strlit("timestamp_ms");
        reveal_strlit("source");
        reveal_strlit("pid");
        reveal_strlit("cgroup_id");
        reveal_strlit("?1");
        reveal_strlit("?2");
        reveal_strlit("?3");
        reveal_strlit("?4");
        reveal_strlit("?5");
        reveal_strlit("id, timestamp_ms, source, pid, ppid, tid, uid, comm, cgroup_id, op, ret, data_json, count");
    }
    let params = raw_events::params_of(q.values@);
    assert forall|id: int, row: EventRow| #[trigger] holds(s.cond, params, id, row) <==> {
        &&& from_ms <= row.timestamp_ms <= to_ms
        &&& source is Some ==> row.source@ == source->Some_0
    } by {
        reveal_with_fuel(holds, 4);
    }
}

/// The rows of a container are those with its number whose time lies in the
/// window, of the source that is asked for, by their time and up to the limit.
pub proof fn container_picks_its_own(
    cgroup_id: u64,
    from_ms: i64,
    to_ms: i64,
    source: Option<Seq<char>>,
    limit: u32,
    q: Query,
)
    requires
        raw_events::cgroup_query(cgroup_id, from_ms, to_ms, source, limit, q),
    ensures
        exists|s: Select|
            {
                &&& proper(s.cond)
                &&& q.sql@ == #[trigger] select_text(s)
                &&& s.columns == all_columns()
                &&& s.order == Column::TimestampMs
                &&& s.limit is Some
                &&& raw_events::params_of(q.values@)[s.limit->Some_0 - 1] == SqlParam::Integer(
                    limit as int,
                )
                &&& forall|id: int, row: EventRow| #[trigger]
                    holds(s.cond, raw_events::params_of(q.values@), id, row) <==> {
                        &&& (row.cgroup_id - cgroup_id) % 0x1_0000_0000_0000_0000 == 0
                        &&& from_ms <= row.timestamp_ms <= to_ms
                        &&& source is Some ==> row.source@ == source->Some_0
                    }
            },
{
    let own = Cond::And(
        Box::new(Cond::Equals(Column::CgroupId, 1)),
        Box::new(Cond::Between(Column::TimestampMs, 2, 3)),
    );
    let cond = match source {
        None => own,
        Some(_) => Cond::And(Box::new(own), Box::new(Cond::Equals(Column::Source, 4))),
    };
    let limited = if source is Some {
        5nat
    } else {
        4
    };
    let s = Select {
        columns: all_columns(),
        cond,
        order: Column::TimestampMs,
        limit: Some(limited),
    };
    reveal_with_fuel(proper, 4);
    reveal_with_fuel(cond_text, 4);
    lemma_place_texts();
    lemma_all_list();
    assert(q.sql@ =~= select_text(s)) by {
        reveal_strlit("SELECT id, timestamp_ms, source, pid, ppid, tid, uid, comm, cgroup_id, op, ret, data_json, count FROM raw_events WHERE cgroup_id = ?1 AND timestamp_ms BETWEEN ?2 AND ?3");
        reveal_strlit(" AND source = ?4");
        reveal_strlit(" ORDER BY timestamp_ms ASC LIMIT ?4");
        reveal_strlit(" ORDER BY timestamp_ms ASC LIMIT ?5");
        reveal_strlit("SELECT ");
        reveal_strlit(" FROM raw_events WHERE ");
        reveal_strlit(" ORDER BY ");
        reveal_strlit(" ASC");
        reveal_strlit(" LIMIT ");
        reveal_strlit(" AND ");
        reveal_strlit(" BETWEEN ");
        reveal_strlit(" > ");
        reveal_strlit(" = ");
        reveal_strlit("id");
        reveal_strlit("timestamp_ms");
        reveal_strlit("source");
        reveal_strlit("pid");
        reveal_strlit("cgroup_id");
        reveal_strlit("?1");
        reveal_strlit("?2");
        reveal_strlit("?3");
        reveal_strlit("?4");
        reveal_strlit("?5");
        reveal_strlit("id, timestamp_ms, source, pid, ppid, tid, uid, comm, cgroup_id, op, ret, data_json, count");
    }
    let params = raw_events::params_of(q.values@);
    assert forall|id: int, row: EventRow| #[trigger] holds(s.cond, params, id, row) <==> {
        &&& (row.cgroup_id - cgroup_id) % 0x1_0000_0000_0000_0000 == 0
        &&& from_ms <= row.timestamp_ms <= to_ms
        &&& source is Some ==> row.source@ == source->Some_0
    } by {
        reveal_with_fuel(holds, 4);
        lemma_same_word(row.cgroup_id, cgroup_id);
    }
}

/// What has expired is deleted by its time: the rows below the time that is given.
pub proof fn deletion_goes_by_time()
    ensures
        raw_events::DELETE_EXPIRED@ == "DELETE FROM raw_events WHERE "@ + column_text(
            Column::TimestampMs,
        ) + " < "@ + place_text(1),
{
    lemma_place_texts();
    reveal_strlit("DELETE FROM raw_events WHERE timestamp_ms < ?1");
    reveal_strlit("DELETE FROM raw_events WHERE ");
    reveal_strlit("timestamp_ms");
    reveal_strlit(" < ");
    reveal_strlit("?1");
    assert(raw_events::DELETE_EXPIRED@ =~= "DELETE FROM raw_events WHERE "@ + "timestamp_ms"@
        + " < "@
        + "?1"@);
}

/// A line of descent from `root` to `pid`: rows within a window, of which the
/// first names `root` as the parent, each further one the process of the one
/// before it, and the last is of `pid`.
pub open spec fn line_of_descent(
    table: Seq<(int, EventRow)>,
    from_ms: i64,
    to_ms: i64,
    line: Seq<int>,
    root: int,
    pid: int,
) -> bool {
    &&& forall|k: int| #![trigger line[k]] 0 <= k < line.len() ==> 0 <= line[k] < table.len()
    &&& forall|k: int|
        #![trigger line[k]]
        0 <= k < line.len() ==> from_ms <= table[line[k]].1.timestamp_ms <= to_ms
    &&& line.len() > 0 ==> table[line[0]].1.ppid == root
    &&& forall|k: int, m: int|
        #![trigger line[k], line[m]]
        0 <= k && k + 1 == m && m < line.len() ==> table[line[m]].1.ppid == table[line[k]].1.pid
    &&& pid == (if line.len() == 0 {
        root
    } else {
        table[line[line.len() - 1]].1.pid as int
    })
}

/// The rows of a tree are those within the window whose process descends from the
/// root, by any number of steps, none among them.
pub proof fn tree_reads_what_descends(root_pid: u32, from_ms: i64, to_ms: i64, q: Query)
    requires
        raw_events::tree_query(root_pid, from_ms, to_ms, q),
    ensures
        exists|t: Tree|
            {
                &&& q.sql@ == #[trigger] tree_text(t)
                &&& t.columns == all_columns()
                &&& t.order == Column::TimestampMs
                &&& forall|table: Seq<(int, EventRow)>, i: int|
                    0 <= i < table.len() ==> (#[trigger] tree_reads(
                        t,
                        raw_events::params_of(q.values@),
                        table,
                        i,
                    ) <==> {
                        &&& from_ms <= table[i].1.timestamp_ms <= to_ms
                        &&& exists|line: Seq<int>| #[trigger]
                            line_of_descent(
                                table,
                                from_ms,
                                to_ms,
                                line,
                                root_pid as int,
                                table[i].1.pid as int,
                            )
                    })
            },
{
    let t = Tree {
        columns: all_columns(),
        root: 1,
        child: Column::Pid,
        parent: Column::Ppid,
        member: Column::Pid,
        time: Column::TimestampMs,
        from: 2,
        to: 3,
        order: Column::TimestampMs,
    };
    lemma_tree_text(t);
    assert(q.sql@ == tree_text(t));
    assert(process_tree(t, raw_events::params_of(q.values@), from_ms, to_ms, root_pid as int));
    lemma_tree_reads(t, raw_events::params_of(q.values@), from_ms, to_ms, root_pid as int);
}

proof fn lemma_tree_reads(t: Tree, params: Seq<SqlParam>, from_ms: i64, to_ms: i64, root: int)
    requires
        process_tree(t, params, from_ms, to_ms, root),
    ensures
        forall|table: Seq<(int, EventRow)>, i: int|
            0 <= i < table.len() ==> (#[trigger] tree_reads(t, params, table, i) <==> {
                &&& from_ms <= table[i].1.timestamp_ms <= to_ms
                &&& exists|line: Seq<int>| #[trigger]
                    line_of_descent(table, from_ms, to_ms, line, root, table[i].1.pid as int)
            }),
{
    assert forall|table: Seq<(int, EventRow)>, i: int| 0 <= i < table.len() implies (
    #[trigger] tree_reads(t, params, table, i) <==> {
        &&& from_ms <= table[i].1.timestamp_ms <= to_ms
        &&& exists|line: Seq<int>| #[trigger]
            line_of_descent(
                table,
                from_ms,
                to_ms,
                line,
                root,
                table[i].1.pid as int,
            )
    }) by {
        lemma_tree_reads_row(t, params, table, i, from_ms, to_ms, root);
    }
}

proof fn lemma_tree_reads_row(
    t: Tree,
    params: Seq<SqlParam>,
    table: Seq<(int, EventRow)>,
    i: int,
    from_ms: i64,
    to_ms: i64,
    root: int,
)
    requires
        process_tree(t, params, from_ms, to_ms, root),
        0 <= i < table.len(),
    ensures
        tree_reads(t, params, table, i) <==> {
            &&& from_ms <= table[i].1.timestamp_ms <= to_ms
            &&& exists|line: Seq<int>| #[trigger]
                line_of_descent(table, from_ms, to_ms, line, root, table[i].1.pid as int)
        },
{
    let v = table[i].1.pid as int;
    if exists|n: nat| #[trigger] gathered(t, params, table, n, SqlParam::Integer(v)) {
        let n = choose|n: nat| #[trigger] gathered(t, params, table, n, SqlParam::Integer(v));
        lemma_gathered_descends(t, params, table, from_ms, to_ms, root, n, v);
    }
    if exists|line: Seq<int>| #[trigger]
        line_of_descent(table, from_ms, to_ms, line, root, v) {
        let line = choose|line: Seq<int>| #[trigger]
            line_of_descent(table, from_ms, to_ms, line, root, v);
        lemma_descent_is_gathered(t, params, table, from_ms, to_ms, root, line, v);
    }
}

#[verifier::rlimit(80)]
#[verifier::spinoff_prover]
proof fn lemma_tree_text(t: Tree)
    requires
        t.columns == all_columns(),
        t.root == 1 && t.from == 2 && t.to == 3,
        t.child is Pid && t.parent is Ppid && t.member is Pid,
        t.time is TimestampMs && t.order is TimestampMs,
    ensures
        tree_text(t) == "WITH RECURSIVE descendant_pids(pid) AS (
                SELECT ?1
                UNION
                SELECT r.pid
                FROM raw_events r
                INNER JOIN descendant_pids d ON r.ppid = d.pid
                WHERE r.timestamp_ms BETWEEN ?2 AND ?3
            )
            SELECT DISTINCT id, timestamp_ms, source, pid, ppid, tid, uid, comm, cgroup_id, op, ret, data_json, count
            FROM raw_events
            WHERE pid IN (SELECT pid FROM descendant_pids)
            AND timestamp_ms BETWEEN ?2 AND ?3
            ORDER BY timestamp_ms ASC"@,
{
    lemma_place_texts();
    lemma_all_list();
    let q = "WITH RECURSIVE descendant_pids(pid) AS (
                SELECT ?1
                UNION
                SELECT r.pid
                FROM raw_events r
                INNER JOIN descendant_pids d ON r.ppid = d.pid
                WHERE r.timestamp_ms BETWEEN ?2 AND ?3
            )
            SELECT DISTINCT id, timestamp_ms, source, pid, ppid, tid, uid, comm, cgroup_id, op, ret, data_json, count
            FROM raw_events
            WHERE pid IN (SELECT pid FROM descendant_pids)
            AND timestamp_ms BETWEEN ?2 AND ?3
            ORDER BY timestamp_ms ASC"@;
    assert(q =~= tree_text(t)) by {
        reveal_strlit("WITH RECURSIVE descendant_pids(pid) AS (
                SELECT ?1
                UNION
                SELECT r.pid
                FROM raw_events r
                INNER JOIN descendant_pids d ON r.ppid = d.pid
                WHERE r.timestamp_ms BETWEEN ?2 AND ?3
            )
            SELECT DISTINCT id, timestamp_ms, source, pid, ppid, tid, uid, comm, cgroup_id, op, ret, data_json, count
            FROM raw_events
            WHERE pid IN (SELECT pid FROM descendant_pids)
            AND timestamp_ms BETWEEN ?2 AND ?3
            ORDER BY timestamp_ms ASC");
        reveal_strlit("WITH RECURSIVE descendant_pids(pid) AS (
                SELECT ");
        reveal_strlit("
                UNION
                SELECT r.");
        reveal_strlit("
                FROM raw_events r
                INNER JOIN descendant_pids d ON r.");
        reveal_strlit(" = d.pid
                WHERE r.");
        reveal_strlit(" BETWEEN ");
        reveal_strlit(" AND ");
        reveal_strlit("
            )
            SELECT DISTINCT ");
        reveal_strlit("
            FROM raw_events
            WHERE ");
        reveal_strlit(" IN (SELECT pid FROM descendant_pids)
            AND ");
        reveal_strlit("
            ORDER BY ");
        reveal_strlit(" ASC");
        reveal_strlit("pid");
        reveal_strlit("ppid");
        reveal_strlit("timestamp_ms");
        reveal_strlit("?1");
        reveal_strlit("?2");
        reveal_strlit("?3");
        reveal_strlit(
            "id, timestamp_ms, source, pid, ppid, tid, uid, comm, cgroup_id, op, ret, data_json, count",
        );
    }
}

/// The tree of processes and its parameters.
spec fn process_tree(t: Tree, params: Seq<SqlParam>, from_ms: i64, to_ms: i64, root: int) -> bool {
    &&& t.root == 1 && t.from == 2 && t.to == 3
    &&& t.child is Pid && t.parent is Ppid && t.member is Pid && t.time is TimestampMs
    &&& params.len() == 3
    &&& params[0] == SqlParam::Integer(root)
    &&& params[1] == SqlParam::Integer(from_ms as int)
    &&& params[2] == SqlParam::Integer(to_ms as int)
}

proof fn lemma_gathered_descends(
    t: Tree,
    params: Seq<SqlParam>,
    table: Seq<(int, EventRow)>,
    from_ms: i64,
    to_ms: i64,
    root: int,
    n: nat,
    v: int,
)
    requires
        process_tree(t, params, from_ms, to_ms, root),
        gathered(t, params, table, n, SqlParam::Integer(v)),
    ensures
        exists|line: Seq<int>| #[trigger] line_of_descent(table, from_ms, to_ms, line, root, v),
    decreases n,
{
    if n == 0 {
        assert(line_of_descent(table, from_ms, to_ms, Seq::empty(), root, v));
    } else if gathered(t, params, table, (n - 1) as nat, SqlParam::Integer(v)) {
        lemma_gathered_descends(t, params, table, from_ms, to_ms, root, (n - 1) as nat, v);
    } else {
        let i = choose|i: int|
            {
                &&& 0 <= i < table.len()
                &&& SqlParam::Integer(v) == value_of(t.child, table[i].0, (#[trigger] table[i]).1)
                &&& tree_time(t, params, table[i].0, table[i].1)
                &&& gathered(
                    t,
                    params,
                    table,
                    (n - 1) as nat,
                    value_of(t.parent, table[i].0, table[i].1),
                )
            };
        let p = table[i].1.ppid as int;
        lemma_gathered_descends(t, params, table, from_ms, to_ms, root, (n - 1) as nat, p);
        let line = choose|line: Seq<int>| #[trigger]
            line_of_descent(table, from_ms, to_ms, line, root, p);
        let longer = line.push(i);
        assert forall|k: int| #![trigger longer[k]] 0 <= k < longer.len() implies {
            &&& 0 <= longer[k] < table.len()
            &&& from_ms <= table[longer[k]].1.timestamp_ms <= to_ms
        } by {
            if k < line.len() {
                assert(longer[k] == line[k]);
            }
        }
        assert forall|k: int, m: int|
            #![trigger longer[k], longer[m]]
            0 <= k && k + 1 == m && m < longer.len() implies table[longer[m]].1.ppid
            == table[longer[k]].1.pid by {
            assert(longer[k] == line[k]);
            if m < line.len() {
                assert(longer[m] == line[m]);
            }
        }
        if line.len() > 0 {
            assert(longer[0] == line[0]);
        }
        assert(line_of_descent(table, from_ms, to_ms, longer, root, v));
    }
}

proof fn lemma_descent_is_gathered(
    t: Tree,
    params: Seq<SqlParam>,
    table: Seq<(int, EventRow)>,
    from_ms: i64,
    to_ms: i64,
    root: int,
    line: Seq<int>,
    v: int,
)
    requires
        process_tree(t, params, from_ms, to_ms, root),
        line_of_descent(table, from_ms, to_ms, line, root, v),
    ensures
        gathered(t, params, table, line.len(), SqlParam::Integer(v)),
    decreases line.len(),
{
    if line.len() > 0 {
        let shorter = line.drop_last();
        let i = line[line.len() - 1];
        let p = table[i].1.ppid as int;
        assert forall|k: int| #![trigger shorter[k]] 0 <= k < shorter.len() implies {
            &&& 0 <= shorter[k] < table.len()
            &&& from_ms <= table[shorter[k]].1.timestamp_ms <= to_ms
        } by {
            assert(shorter[k] == line[k]);
        }
        assert forall|k: int, m: int|
            #![trigger shorter[k], shorter[m]]
            0 <= k && k + 1 == m && m < shorter.len() implies table[shorter[m]].1.ppid
            == table[shorter[k]].1.pid by {
            assert(shorter[k] == line[k] && shorter[m] == line[m]);
        }
        if shorter.len() > 0 {
            assert(shorter[0] == line[0]);
            assert(line[line.len() - 2] == shorter[shorter.len() - 1]);
        }
        assert(line_of_descent(table, from_ms, to_ms, shorter, root, p));
        lemma_descent_is_gathered(t, params, table, from_ms, to_ms, root, shorter, p);
        assert(table[i] == table[i]);
    }
}

/// The table is created with every column that is written and read.
pub proof fn the_table_has_every_column(c: Column)
    ensures
        text::mentions(raw_events::DDL@, "\n    "@ + column_text(c) + " "@),
{
    let ddl = raw_events::DDL@;
    let part = "\n    "@ + column_text(c) + " "@;
    reveal_strlit("
CREATE TABLE IF NOT EXISTS raw_events (
    id           INTEGER PRIMARY KEY AUTOINCREMENT,
    timestamp_ms INTEGER NOT NULL,
    source       TEXT    NOT NULL,
    pid          INTEGER NOT NULL,
    ppid         INTEGER NOT NULL DEFAULT 0,
    tid          INTEGER NOT NULL DEFAULT 0,
    uid          INTEGER NOT NULL DEFAULT 0,
    comm         TEXT    NOT NULL DEFAULT '',
    cgroup_id    INTEGER NOT NULL DEFAULT 0,
    op           TEXT    NOT NULL,
    ret          INTEGER NOT NULL DEFAULT 0,
    data_json    TEXT    NOT NULL DEFAULT '{}',
    count        INTEGER NOT NULL DEFAULT 1
);
CREATE INDEX IF NOT EXISTS idx_raw_ts     ON raw_events(timestamp_ms);
CREATE INDEX IF NOT EXISTS idx_raw_source ON raw_events(source);
CREATE INDEX IF NOT EXISTS idx_raw_pid    ON raw_events(pid);
CREATE INDEX IF NOT EXISTS idx_raw_ppid   ON raw_events(ppid);
CREATE INDEX IF NOT EXISTS idx_raw_cgroup ON raw_events(cgroup_id);
CREATE INDEX IF NOT EXISTS idx_raw_cgroup_ts ON raw_events(cgroup_id, timestamp_ms);
");
    reveal_strlit("\n    ");
    reveal_strlit(" ");
    match c {
        Column::Id => {
            reveal_strlit("id");
            assert(ddl.subrange(40, 40int + part.len()) =~= part);
        },
        Column::TimestampMs => {
            reveal_strlit("timestamp_ms");
            assert(ddl.subrange(92, 92int + part.len()) =~= part);
        },
        Column::Source => {
            reveal_strlit("source");
            assert(ddl.subrange(127, 127int + part.len()) =~= part);
        },
        Column::Pid => {
            reveal_strlit("pid");
            assert(ddl.subrange(162, 162int + part.len()) =~= part);
        },
        Column::Ppid => {
            reveal_strlit("ppid");
            assert(ddl.subrange(197, 197int + part.len()) =~= part);
        },
        Column::Tid => {
            reveal_strlit("tid");
            assert(ddl.subrange(242, 242int + part.len()) =~= part);
        },
        Column::Uid => {
            reveal_strlit("uid");
            assert(ddl.subrange(287, 287int + part.len()) =~= part);
        },
        Column::Comm => {
            reveal_strlit("comm");
            assert(ddl.subrange(332, 332int + part.len()) =~= part);
        },
        Column::CgroupId => {
            reveal_strlit("cgroup_id");
            assert(ddl.subrange(378, 378int + part.len()) =~= part);
        },
        Column::Op => {
            reveal_strlit("op");
            assert(ddl.subrange(423, 423int + part.len()) =~= part);
        },
        Column::Ret => {
            reveal_strlit("ret");
            assert(ddl.subrange(458, 458int + part.len()) =~= part);
        },
        Column::DataJson => {
            reveal_strlit("data_json");
            assert(ddl.subrange(503, 503int + part.len()) =~= part);
        },
        Column::Count => {
            reveal_strlit("count");
            assert(ddl.subrange(551, 551int + part.len()) =~= part);
        },
    }
}

/// A list of names with one more at its end.
proof fn lemma_joined_push(parts: Seq<Seq<char>>, part: Seq<char>, sep: Seq<char>)
    ensures
        text::joined(parts.push(part), sep) == (if parts.len() == 0 {
            part
        } else {
            text::joined(parts, sep) + sep + part
        }),
{
    assert(parts.push(part).drop_last() =~= parts);
}

proof fn lemma_list_push(columns: Seq<Column>, c: Column)
    ensures
        list_text(columns.push(c)) == (if columns.len() == 0 {
            column_text(c)
        } else {
            list_text(columns) + ", "@ + column_text(c)
        }),
{
    let f = |c: Column| column_text(c);
    assert(columns.push(c).map_values(f) =~= columns.map_values(f).push(column_text(c)));
    lemma_joined_push(columns.map_values(f), column_text(c), ", "@);
}

/// The names of the columns of an event.
pub proof fn lemma_event_list()
    ensures
        list_text(event_columns())
            == "timestamp_ms, source, pid, ppid, tid, uid, comm, cgroup_id, op, ret, data_json, count"@,
{
    let cs = event_columns();
    lemma_list_steps(cs);
    reveal_strlit("timestamp_ms");
    reveal_strlit("source");
    reveal_strlit("pid");
    reveal_strlit("ppid");
    reveal_strlit("tid");
    reveal_strlit("uid");
    reveal_strlit("comm");
    reveal_strlit("cgroup_id");
    reveal_strlit("op");
    reveal_strlit("ret");
    reveal_strlit("data_json");
    reveal_strlit("count");
    reveal_strlit(", ");
    reveal_strlit(
        "timestamp_ms, source, pid, ppid, tid, uid, comm, cgroup_id, op, ret, data_json, count",
    );
    assert(list_text(cs)
        =~= "timestamp_ms, source, pid, ppid, tid, uid, comm, cgroup_id, op, ret, data_json, count"@);
}

proof fn lemma_list_steps(cs: Seq<Column>)
    requires
        cs.len() == 12,
    ensures
        list_text(cs) == column_text(cs[0]) + ", "@ + column_text(cs[1]) + ", "@ + column_text(
            cs[2],
        ) + ", "@ + column_text(cs[3]) + ", "@ + column_text(cs[4]) + ", "@ + column_text(cs[5])
            + ", "@ + column_text(cs[6]) + ", "@ + column_text(cs[7]) + ", "@ + column_text(cs[8])
            + ", "@ + column_text(cs[9]) + ", "@ + column_text(cs[10]) + ", "@ + column_text(
            cs[11],
        ),
{
    lemma_list_push(cs.take(0), cs[0]);
    assert(cs.take(0).push(cs[0]) =~= cs.take(1));
    lemma_list_push(cs.take(1), cs[1]);
    assert(cs.take(1).push(cs[1]) =~= cs.take(2));
    lemma_list_push(cs.take(2), cs[2]);
    assert(cs.take(2).push(cs[2]) =~= cs.take(3));
    lemma_list_push(cs.take(3), cs[3]);
    assert(cs.take(3).push(cs[3]) =~= cs.take(4));
    lemma_list_push(cs.take(4), cs[4]);
    assert(cs.take(4).push(cs[4]) =~= cs.take(5));
    lemma_list_push(cs.take(5), cs[5]);
    assert(cs.take(5).push(cs[5]) =~= cs.take(6));
    lemma_list_push(cs.take(6), cs[6]);
    assert(cs.take(6).push(cs[6]) =~= cs.take(7));
    lemma_list_push(cs.take(7), cs[7]);
    assert(cs.take(7).push(cs[7]) =~= cs.take(8));
    lemma_list_push(cs.take(8), cs[8]);
    assert(cs.take(8).push(cs[8]) =~= cs.take(9));
    lemma_list_push(cs.take(9), cs[9]);
    assert(cs.take(9).push(cs[9]) =~= cs.take(10));
    lemma_list_push(cs.take(10), cs[10]);
    assert(cs.take(10).push(cs[10]) =~= cs.take(11));
    lemma_list_push(cs.take(11), cs[11]);
    assert(cs.take(11).push(cs[11]) =~= cs);
}

/// The names of all columns.
pub proof fn lemma_all_list()
    ensures
        list_text(all_columns())
            == "id, timestamp_ms, source, pid, ppid, tid, uid, comm, cgroup_id, op, ret, data_json, count"@,
{
    let cs = all_columns();
    let f = |c: Column| column_text(c);
    lemma_event_list();
    lemma_list_front(Column::Id, event_columns());
    reveal_strlit("id");
    reveal_strlit(", ");
    reveal_strlit(
        "timestamp_ms, source, pid, ppid, tid, uid, comm, cgroup_id, op, ret, data_json, count",
    );
    reveal_strlit(
        "id, timestamp_ms, source, pid, ppid, tid, uid, comm, cgroup_id, op, ret, data_json, count",
    );
    assert(list_text(cs)
        =~= "id, timestamp_ms, source, pid, ppid, tid, uid, comm, cgroup_id, op, ret, data_json, count"@);
}

proof fn lemma_list_front(c: Column, rest: Seq<Column>)
    requires
        rest.len() > 0,
    ensures
        list_text(seq![c] + rest) == column_text(c) + ", "@ + list_text(rest),
    decreases rest.len(),
{
    let all = seq![c] + rest;
    lemma_list_push(all.drop_last(), all.last());
    assert(all.drop_last().push(all.last()) =~= all);
    lemma_list_push(rest.drop_last(), rest.last());
    assert(rest.drop_last().push(rest.last()) =~= rest);
    if rest.len() > 1 {
        lemma_list_front(c, rest.drop_last());
        assert(all.drop_last() =~= seq![c] + rest.drop_last());
        assert(list_text(all) =~= column_text(c) + ", "@ + list_text(rest));
    } else {
        assert(all.drop_last() =~= Seq::empty().push(c));
        lemma_list_push(Seq::empty(), c);
    }
}

/// The places of parameters in a statement.
pub proof fn lemma_place_texts()
    ensures
        place_text(1) == "?1"@,
        place_text(2) == "?2"@,
        place_text(3) == "?3"@,
        place_text(4) == "?4"@,
        place_text(5) == "?5"@,
        place_text(6) == "?6"@,
        place_text(7) == "?7"@,
        place_text(8) == "?8"@,
        place_text(9) == "?9"@,
        place_text(10) == "?10"@,
        place_text(11) == "?11"@,
        place_text(12) == "?12"@,
{
    reveal_with_fuel(text::decimal, 3);
    reveal_strlit("?");
    reveal_strlit("?1");
    reveal_strlit("?2");
    reveal_strlit("?3");
    reveal_strlit("?4");
    reveal_strlit("?5");
    reveal_strlit("?6");
    reveal_strlit("?7");
    reveal_strlit("?8");
    reveal_strlit("?9");
    reveal_strlit("?10");
    reveal_strlit("?11");
    reveal_strlit("?12");
    assert(place_text(1) =~= "?1"@);
    assert(place_text(2) =~= "?2"@);
    assert(place_text(3) =~= "?3"@);
    assert(place_text(4) =~= "?4"@);
    assert(place_text(5) =~= "?5"@);
    assert(place_text(6) =~= "?6"@);
    assert(place_text(7) =~= "?7"@);
    assert(place_text(8) =~= "?8"@);
    assert(place_text(9) =~= "?9"@);
    assert(place_text(10) =~= "?10"@);
    assert(place_text(11) =~= "?11"@);
    assert(place_text(12) =~= "?12"@);
}

proof fn lemma_places()
    ensures
        text::joined(Seq::new(12, |i: int| place_text((i + 1) as nat)), ", "@)
            == "?1, ?2, ?3, ?4, ?5, ?6, ?7, ?8, ?9, ?10, ?11, ?12"@,
{
    lemma_place_texts();
    let ps = Seq::new(12, |i: int| place_text((i + 1) as nat));
    let sep = ", "@;
    lemma_joined_push(ps.take(0), ps[0], sep);
    assert(ps.take(0).push(ps[0]) =~= ps.take(1));
    lemma_joined_push(ps.take(1), ps[1], sep);
    assert(ps.take(1).push(ps[1]) =~= ps.take(2));
    lemma_joined_push(ps.take(2), ps[2], sep);
    assert(ps.take(2).push(ps[2]) =~= ps.take(3));
    lemma_joined_push(ps.take(3), ps[3], sep);
    assert(ps.take(3).push(ps[3]) =~= ps.take(4));
    lemma_joined_push(ps.take(4), ps[4], sep);
    assert(ps.take(4).push(ps[4]) =~= ps.take(5));
    lemma_joined_push(ps.take(5), ps[5], sep);
    assert(ps.take(5).push(ps[5]) =~= ps.take(6));
    lemma_joined_push(ps.take(6), ps[6], sep);
    assert(ps.take(6).push(ps[6]) =~= ps.take(7));
    lemma_joined_push(ps.take(7), ps[7], sep);
    assert(ps.take(7).push(ps[7]) =~= ps.take(8));
    lemma_joined_push(ps.take(8), ps[8], sep);
    assert(ps.take(8).push(ps[8]) =~= ps.take(9));
    lemma_joined_push(ps.take(9), ps[9], sep);
    assert(ps.take(9).push(ps[9]) =~= ps.take(10));
    lemma_joined_push(ps.take(10), ps[10], sep);
    assert(ps.take(10).push(ps[10]) =~= ps.take(11));
    lemma_joined_push(ps.take(11), ps[11], sep);
    assert(ps.take(11).push(ps[11]) =~= ps);
    reveal_strlit(", ");
    reveal_strlit("?1");
    reveal_strlit("?2");
    reveal_strlit("?3");
    reveal_strlit("?4");
    reveal_strlit("?5");
    reveal_strlit("?6");
    reveal_strlit("?7");
    reveal_strlit("?8");
    reveal_strlit("?9");
    reveal_strlit("?10");
    reveal_strlit("?11");
    reveal_strlit("?12");
    reveal_strlit("?1, ?2, ?3, ?4, ?5, ?6, ?7, ?8, ?9, ?10, ?11, ?12");
    assert(text::joined(ps, sep) =~= "?1, ?2, ?3, ?4, ?5, ?6, ?7, ?8, ?9, ?10, ?11, ?12"@);
}

} // verus!
