use std::collections::HashMap;

use sqlite_bridge::bind::{InternalSqliteBindValue, SqliteBindCollector, SqliteType};
use sqlite_bridge::connection::{Release, SqliteConnection};
use sqlite_bridge::error::{last_error, DatabaseErrorKind, Error};
use sqlite_bridge::row::{SqliteRow, StatementIterator};
use sqlite_bridge::statement::{StatementState, StepResult, SQLITE_DONE, SQLITE_ROW};
use sqlite_bridge::types::{from_sql_bool, from_sql_i32, from_sql_i64, from_sql_text};
use sqlite_bridge::value::SqlValue;
use sqlite_bridge::wire::encode_row;

/// An in-memory stand-in for the host: one table of rows appended by
/// `INSERT` statements and read back by any `SELECT`, unless a scripted
/// result is registered for the exact SQL text.
struct Host {
    next_id: u64,
    sql: HashMap<u64, String>,
    binds: HashMap<u64, Vec<Vec<u8>>>,
    cursor: HashMap<u64, usize>,
    table: Vec<Vec<SqlValue>>,
    columns: Vec<String>,
    scripted: HashMap<String, Vec<Vec<SqlValue>>>,
    unique_first_column: bool,
    error: Vec<u8>,
    prepares: usize,
    finalizes: usize,
}

fn value_of_bind_payload(p: &[u8]) -> SqlValue {
    // count (8), key tag (4), key (8), then the value
    let v = &p[20..];
    let tag = u32::from_le_bytes(v[0..4].try_into().unwrap());
    match tag {
        0 => SqlValue::Null,
        2 => {
            let n = u64::from_le_bytes(v[4..12].try_into().unwrap()) as usize;
            SqlValue::Text(String::from_utf8(v[12..12 + n].to_vec()).unwrap())
        }
        4 => SqlValue::Int64(i32::from_le_bytes(v[4..8].try_into().unwrap()) as i64),
        5 => SqlValue::Int64(i64::from_le_bytes(v[4..12].try_into().unwrap())),
        _ => panic!("unsupported tag {}", tag),
    }
}

fn copy(v: &SqlValue) -> SqlValue {
    match v {
        SqlValue::Null => SqlValue::Null,
        SqlValue::Blob(b) => SqlValue::Blob(b.clone()),
        SqlValue::Text(t) => SqlValue::Text(t.clone()),
        SqlValue::Double(d) => SqlValue::Double(*d),
        SqlValue::Int(i) => SqlValue::Int(*i),
        SqlValue::Int64(i) => SqlValue::Int64(*i),
    }
}

impl Host {
    fn new(columns: &[&str]) -> Host {
        Host {
            next_id: 1,
            sql: HashMap::new(),
            binds: HashMap::new(),
            cursor: HashMap::new(),
            table: Vec::new(),
            columns: columns.iter().map(|c| c.to_string()).collect(),
            scripted: HashMap::new(),
            unique_first_column: false,
            error: Vec::new(),
            prepares: 0,
            finalizes: 0,
        }
    }

    fn prepare(&mut self, sql: &str) -> u64 {
        let id = self.next_id;
        self.next_id += 1;
        self.prepares += 1;
        self.sql.insert(id, sql.to_string());
        self.binds.insert(id, Vec::new());
        self.cursor.insert(id, 0);
        id
    }

    fn bind(&mut self, id: u64, payload: Vec<u8>) {
        self.binds.get_mut(&id).unwrap().push(payload);
    }

    fn rows_for(&self, id: u64) -> Vec<Vec<SqlValue>> {
        let sql = &self.sql[&id];
        match self.scripted.get(sql) {
            Some(rows) => rows.iter().map(|r| r.iter().map(copy).collect()).collect(),
            None => {
                let bound: Vec<SqlValue> =
                    self.binds[&id].iter().map(|p| value_of_bind_payload(p)).collect();
                if sql.contains("WHERE") {
                    self.table
                        .iter()
                        .filter(|r| matches!((&r[0], &bound[0]), (SqlValue::Int64(a), SqlValue::Int64(b)) if a == b))
                        .map(|r| r.iter().map(copy).collect())
                        .collect()
                } else {
                    self.table.iter().map(|r| r.iter().map(copy).collect()).collect()
                }
            }
        }
    }

    fn step(&mut self, id: u64) -> u32 {
        let sql = self.sql[&id].clone();
        if sql.starts_with("INSERT") {
            let row: Vec<SqlValue> =
                self.binds[&id].iter().map(|p| value_of_bind_payload(p)).collect();
            if self.unique_first_column {
                if let Some(SqlValue::Int64(k)) = row.first() {
                    if self.table.iter().any(|r| matches!(r[0], SqlValue::Int64(x) if x == *k)) {
                        self.error = vec![1, 0x13, 0x08, 0, 0, 0];
                        return 19;
                    }
                }
            }
            self.table.push(row);
            return SQLITE_DONE;
        }
        let pos = self.cursor[&id];
        if pos < self.rows_for(id).len() {
            self.cursor.insert(id, pos + 1);
            SQLITE_ROW
        } else {
            SQLITE_DONE
        }
    }

    fn read_row(&self, id: u64) -> Vec<u8> {
        let rows = self.rows_for(id);
        encode_row(&rows[self.cursor[&id] - 1])
    }

    fn column_names(&self) -> Vec<u8> {
        let mut out = (self.columns.len() as u64).to_le_bytes().to_vec();
        for n in &self.columns {
            out.extend_from_slice(&(n.len() as u64).to_le_bytes());
            out.extend_from_slice(n.as_bytes());
        }
        out
    }

    fn reset(&mut self, id: u64) {
        self.cursor.insert(id, 0);
        self.binds.insert(id, Vec::new());
    }

    fn finalize(&mut self, id: u64) {
        self.finalizes += 1;
        self.sql.remove(&id);
    }
}

fn bind_all(values: Vec<SqlValue>) -> Vec<sqlite_bridge::wire::BindPair> {
    let mut collector = SqliteBindCollector::new();
    for v in values {
        let inner = match v {
            SqlValue::Null => InternalSqliteBindValue::Null,
            SqlValue::Blob(b) => InternalSqliteBindValue::Binary(b),
            SqlValue::Text(t) => InternalSqliteBindValue::String(t),
            SqlValue::Double(d) => InternalSqliteBindValue::F64(d),
            SqlValue::Int(i) => InternalSqliteBindValue::I32(i),
            SqlValue::Int64(i) => InternalSqliteBindValue::I64(i),
        };
        collector.push_bound_value(
            sqlite_bridge::bind::SqliteBindValue { inner },
            false,
            SqliteType::Long,
        );
    }
    collector.into_bind_pairs()
}

fn drain(host: &mut Host, it: &mut StatementIterator) -> Result<Vec<SqliteRow>, Error> {
    let mut rows = Vec::new();
    while it.needs_step() {
        let code = host.step(it.statement_id());
        match it.on_step(code) {
            StepResult::NoMoreRows => break,
            StepResult::Failed(_) => return Err(last_error(&host.error)),
            StepResult::RowAvailable => {
                if it.needs_column_names() {
                    it.set_column_names(&host.column_names())?;
                }
                rows.push(it.read_row(&host.read_row(it.statement_id()))?);
            }
        }
    }
    Ok(rows)
}

/// Runs one query through the cache, the bind collector and the cursor.
fn run(
    conn: &mut SqliteConnection,
    host: &mut Host,
    sql: &str,
    is_cacheable: bool,
    params: Vec<SqlValue>,
) -> Result<Vec<SqliteRow>, Error> {
    let sql = sql.to_string();
    let mut statement = match conn.cached_statement(&sql, is_cacheable) {
        Some(s) => s,
        None => {
            let id = host.prepare(&sql);
            conn.on_prepared(sql, is_cacheable, id)
        }
    };
    for pair in bind_all(params) {
        let payload = statement.bind(pair);
        host.bind(statement.statement_id(), payload);
    }
    let mut it = StatementIterator::new(statement);
    let result = drain(host, &mut it);
    match conn.release(it.into_statement()) {
        Release::Reset(id) => host.reset(id),
        Release::Finalize(id) => host.finalize(id),
    }
    result
}

fn first_i32(rows: &[SqliteRow]) -> i32 {
    from_sql_i32(rows[0].get(0).unwrap().value().unwrap()).unwrap()
}

#[test]
fn sql_literal_nodes_are_not_cached() {
    let connection = &mut SqliteConnection::establish(1);
    let host = &mut Host::new(&["1"]);
    host.scripted.insert("SELECT 1".to_string(), vec![vec![SqlValue::Int64(1)]]);
    let rows = run(connection, host, "SELECT 1", false, vec![]).unwrap();

    assert_eq!(1, first_i32(&rows));
    assert_eq!(0, connection.cache_len());
}

#[test]
fn queries_containing_sql_literal_nodes_are_not_cached() {
    let connection = &mut SqliteConnection::establish(1);
    let host = &mut Host::new(&["x"]);
    let sql = "SELECT ? = 1";
    host.scripted.insert(sql.to_string(), vec![vec![SqlValue::Int64(1)]]);
    let rows = run(connection, host, sql, false, vec![SqlValue::Int(1)]).unwrap();

    assert_eq!(Some(true), from_sql_bool(rows[0].get(0).unwrap().value().unwrap()));
    assert_eq!(0, connection.cache_len());
}

#[test]
fn queries_containing_in_with_vec_are_not_cached() {
    let connection = &mut SqliteConnection::establish(1);
    let host = &mut Host::new(&["x"]);
    let sql = "SELECT ? IN (?, ?, ?)";
    host.scripted.insert(sql.to_string(), vec![vec![SqlValue::Int64(1)]]);
    let params = vec![SqlValue::Int(1), SqlValue::Int(1), SqlValue::Int(2), SqlValue::Int(3)];
    let rows = run(connection, host, sql, false, params).unwrap();

    assert_eq!(Some(true), from_sql_bool(rows[0].get(0).unwrap().value().unwrap()));
    assert_eq!(0, connection.cache_len());
}

#[test]
fn queries_containing_in_with_subselect_are_cached() {
    let connection = &mut SqliteConnection::establish(1);
    let host = &mut Host::new(&["x"]);
    let sql = "SELECT ? IN (SELECT ?)";
    host.scripted.insert(sql.to_string(), vec![vec![SqlValue::Int64(1)]]);
    let rows = run(connection, host, sql, true, vec![SqlValue::Int(1), SqlValue::Int(1)]).unwrap();

    assert_eq!(Some(true), from_sql_bool(rows[0].get(0).unwrap().value().unwrap()));
    assert_eq!(1, connection.cache_len());
}

#[test]
fn literal_query_twice_prepares_and_finalizes_twice() {
    let connection = &mut SqliteConnection::establish(1);
    let host = &mut Host::new(&["1"]);
    host.scripted.insert("SELECT 1".to_string(), vec![vec![SqlValue::Int64(1)]]);
    run(connection, host, "SELECT 1", false, vec![]).unwrap();
    assert_eq!(0, connection.cache_len());
    run(connection, host, "SELECT 1", false, vec![]).unwrap();
    assert_eq!(0, connection.cache_len());
    assert_eq!(2, host.prepares);
    assert_eq!(2, host.finalizes);
}

#[test]
fn literal_query_does_not_hit_a_cached_query_with_the_same_text() {
    let connection = &mut SqliteConnection::establish(1);
    let host = &mut Host::new(&["1"]);
    host.scripted.insert("SELECT 1".to_string(), vec![vec![SqlValue::Int64(1)]]);
    run(connection, host, "SELECT 1", true, vec![]).unwrap();
    assert_eq!(1, connection.cache_len());
    run(connection, host, "SELECT 1", false, vec![]).unwrap();
    assert_eq!(2, host.prepares);
    assert_eq!(1, host.finalizes);
    run(connection, host, "SELECT 1", true, vec![]).unwrap();
    assert_eq!(2, host.prepares);
    assert_eq!(1, connection.cache_len());
    assert_eq!(vec![1u64], connection.close());
    assert_eq!(0, connection.cache_len());
}

#[test]
fn end_to_end_three_rows() {
    let connection = &mut SqliteConnection::establish(1);
    let host = &mut Host::new(&["id", "name"]);
    let names = ["ann", "bob", "cy"];
    for (i, n) in names.iter().enumerate() {
        run(
            connection,
            host,
            "INSERT INTO t (id, name) VALUES (?, ?)",
            true,
            vec![SqlValue::Int64(i as i64 + 1), SqlValue::Text(n.to_string())],
        )
        .unwrap();
    }
    assert_eq!(1, host.prepares);

    let sql = "SELECT * FROM t".to_string();
    let id = host.prepare(&sql);
    let statement = connection.on_prepared(sql, true, id);
    let mut it = StatementIterator::new(statement);
    for pass in 0..2 {
        let mut seen = Vec::new();
        loop {
            let code = host.step(it.statement_id());
            match it.on_step(code) {
                StepResult::RowAvailable => {
                    if it.needs_column_names() {
                        it.set_column_names(&host.column_names()).unwrap();
                    }
                    let row = it.read_row(&host.read_row(it.statement_id())).unwrap();
                    assert_eq!(2, row.field_count());
                    let by_index = from_sql_i64(row.get(0).unwrap().value().unwrap()).unwrap();
                    let by_name = from_sql_i64(row.get_by_name("id").unwrap().value().unwrap()).unwrap();
                    assert_eq!(by_index, by_name);
                    assert_eq!(Some("id"), row.get(0).unwrap().field_name());
                    let name = from_sql_text(row.get_by_name("name").unwrap().value().unwrap()).unwrap();
                    seen.push((by_index, name));
                }
                StepResult::NoMoreRows => break,
                StepResult::Failed(c) => panic!("step failed with {}", c),
            }
        }
        assert_eq!(
            vec![(1, "ann".to_string()), (2, "bob".to_string()), (3, "cy".to_string())],
            seen,
            "pass {}",
            pass
        );
        assert!(!it.needs_step());
        let mut statement = it.into_statement();
        assert_eq!(StatementState::Exhausted, statement.state());
        statement.reset();
        host.reset(statement.statement_id());
        assert_eq!(StatementState::Prepared, statement.state());
        it = StatementIterator::new(statement);
    }
}

#[test]
fn statement_reuse_sees_only_the_new_bindings() {
    let connection = &mut SqliteConnection::establish(1);
    let host = &mut Host::new(&["id", "name"]);
    for i in 1..=3 {
        run(
            connection,
            host,
            "INSERT INTO t (id, name) VALUES (?, ?)",
            false,
            vec![SqlValue::Int64(i), SqlValue::Text(format!("n{}", i))],
        )
        .unwrap();
    }
    let sql = "SELECT * FROM t WHERE id = ?";
    let a = run(connection, host, sql, true, vec![SqlValue::Int64(1)]).unwrap();
    let b = run(connection, host, sql, true, vec![SqlValue::Int64(3)]).unwrap();
    assert_eq!(1, connection.cache_len());
    assert_eq!(1, a.len());
    assert_eq!(1, b.len());
    assert_eq!(Some(3), from_sql_i64(b[0].get(0).unwrap().value().unwrap()));
    let name = from_sql_text(b[0].get_by_name("name").unwrap().value().unwrap());
    assert_eq!(Some("n3".to_string()), name);
}

#[test]
fn unique_violation_surfaces_as_database_error() {
    let connection = &mut SqliteConnection::establish(1);
    let host = &mut Host::new(&["id"]);
    host.unique_first_column = true;
    let sql = "INSERT INTO t (id) VALUES (?)";
    run(connection, host, sql, true, vec![SqlValue::Int64(1)]).unwrap();
    let err = run(connection, host, sql, true, vec![SqlValue::Int64(1)]).err().unwrap();
    assert!(matches!(err, Error::Database { kind: DatabaseErrorKind::UniqueViolation, .. }));
}

#[test]
fn malformed_row_surfaces_as_protocol_error() {
    let statement = sqlite_bridge::statement::Statement::new(9, false);
    let mut it = StatementIterator::new(statement);
    assert_eq!(StepResult::RowAvailable, it.on_step(SQLITE_ROW));
    it.set_column_names(&[0u8; 8]).unwrap();
    let bad = vec![1u8, 0, 0, 0, 0, 0, 0, 0, 9, 0, 0, 0];
    assert!(matches!(it.read_row(&bad), Err(Error::ProtocolDecode)));
    assert!(matches!(it.set_column_names(&[1u8]), Err(Error::ProtocolDecode)));
}

#[test]
fn null_column_reads_as_no_value() {
    let statement = sqlite_bridge::statement::Statement::new(3, false);
    let mut it = StatementIterator::new(statement);
    assert!(it.needs_column_names());
    it.on_step(SQLITE_ROW);
    let mut names = 1u64.to_le_bytes().to_vec();
    names.extend_from_slice(&1u64.to_le_bytes());
    names.push(b'v');
    it.set_column_names(&names).unwrap();
    assert!(!it.needs_column_names());
    let row = it.read_row(&encode_row(&vec![SqlValue::Null])).unwrap();
    let field = row.get(0).unwrap();
    assert!(field.is_null());
    assert!(field.value().is_none());
    assert!(row.get(1).is_none());
    assert!(row.get_by_name("w").is_none());
    assert_eq!(Some(0), row.idx_by_name("v"));
}
