use sqlite_bridge::bind::{InternalSqliteBindValue, SqliteBindCollector, SqliteBindValue, SqliteType};
use sqlite_bridge::connection::{decimal, Release, SqliteConnection};
use sqlite_bridge::error::Error;
use sqlite_bridge::statement::{Statement, StatementState, StepResult, SQLITE_DONE, SQLITE_ROW};
use sqlite_bridge::types::{
    from_sql_blob, from_sql_bool, from_sql_double_bits, from_sql_i16, from_sql_i32, from_sql_i64,
    from_sql_text, to_sql_bool, to_sql_bytes, to_sql_double_bits, to_sql_i16, to_sql_i32,
    to_sql_i64, to_sql_str, to_sql_string,
};
use sqlite_bridge::value::SqlValue;
use sqlite_bridge::wire::{decode_row, encode_bind_list, encode_row, BindKey, BindPair};

/// The value the host hands back for a bound one: integers come back as 64-bit.
fn stored(v: SqliteBindValue<'_>) -> SqlValue {
    let pair = InternalSqliteBindValue::to_ffi_struct(1, v.inner);
    let column = match pair.value {
        SqlValue::Int(i) => SqlValue::Int64(i as i64),
        other => other,
    };
    let mut row = decode_row(&encode_row(&vec![column])).unwrap();
    row.pop().unwrap()
}

#[test]
fn scalars_round_trip() {
    assert_eq!(Some(true), from_sql_bool(&stored(to_sql_bool(true))));
    assert_eq!(Some(false), from_sql_bool(&stored(to_sql_bool(false))));
    assert_eq!(Some(-300i16), from_sql_i16(&stored(to_sql_i16(-300))));
    assert_eq!(Some(i32::MIN), from_sql_i32(&stored(to_sql_i32(i32::MIN))));
    assert_eq!(Some(i64::MIN), from_sql_i64(&stored(to_sql_i64(i64::MIN))));
    assert_eq!(Some(0.1f64.to_bits()), from_sql_double_bits(&stored(to_sql_double_bits(0.1f64.to_bits()))));
    assert_eq!(Some("naïve".to_string()), from_sql_text(&stored(to_sql_str("naïve"))));
    assert_eq!(Some("owned".to_string()), from_sql_text(&stored(to_sql_string("owned".to_string()))));
    assert_eq!(Some(vec![9u8, 8, 7]), from_sql_blob(&stored(to_sql_bytes(&[9, 8, 7]))));
}

#[test]
fn narrow_integers_take_the_low_bits() {
    assert_eq!(Some(1i16), from_sql_i16(&SqlValue::Int64(65537)));
    assert_eq!(Some(-1i32), from_sql_i32(&SqlValue::Int64(0xffff_ffff)));
    assert_eq!(Some(true), from_sql_bool(&SqlValue::Int64(1 << 40)));
    assert_eq!(Some(7i64), from_sql_i64(&SqlValue::Int(7)));
}

#[test]
fn null_and_other_classes_read_as_no_value() {
    assert_eq!(None, from_sql_i32(&SqlValue::Null));
    assert_eq!(None, from_sql_i64(&SqlValue::Null));
    assert_eq!(None, from_sql_bool(&SqlValue::Null));
    assert_eq!(None, from_sql_text(&SqlValue::Null));
    assert_eq!(None, from_sql_blob(&SqlValue::Null));
    assert_eq!(None, from_sql_double_bits(&SqlValue::Null));
    assert_eq!(None, from_sql_i32(&SqlValue::Text("1".to_string())));
    assert_eq!(None, from_sql_text(&SqlValue::Int64(1)));
}

#[test]
fn none_binds_as_null() {
    let v = SqliteBindValue::from_option(None);
    assert!(matches!(v.inner, InternalSqliteBindValue::Null));
    let v = SqliteBindValue::from_option(Some(SqliteBindValue::from(5i32)));
    assert!(matches!(v.inner, InternalSqliteBindValue::I32(5)));
    let pair = InternalSqliteBindValue::to_ffi_struct(1, SqliteBindValue::null().inner);
    assert!(matches!(pair.value, SqlValue::Null));
    let payload = encode_bind_list(&vec![pair]);
    assert_eq!(payload[20..].to_vec(), vec![0u8, 0, 0, 0]);
}

#[test]
fn collector_keys_are_one_based_and_null_wins() {
    let mut c = SqliteBindCollector::new();
    c.push_bound_value(SqliteBindValue::from(10i64), false, SqliteType::Long);
    c.push_bound_value(SqliteBindValue::from("x"), true, SqliteType::Text);
    c.push_bound_value(SqliteBindValue::from(vec![1u8]), false, SqliteType::Binary);
    assert_eq!(SqliteType::Text, c.binds[1].1);
    let pairs = c.into_bind_pairs();
    assert_eq!(3, pairs.len());
    assert!(matches!(pairs[0], BindPair { key: BindKey::Numeric(1), value: SqlValue::Int64(10) }));
    assert!(matches!(pairs[1], BindPair { key: BindKey::Numeric(2), value: SqlValue::Null }));
    assert!(matches!(&pairs[2], BindPair { key: BindKey::Numeric(3), value: SqlValue::Blob(b) } if b == &vec![1u8]));
}

#[test]
fn to_ffi_struct_copies_borrowed_values() {
    let text = String::from("borrowed");
    let pair = InternalSqliteBindValue::to_ffi_struct(4, InternalSqliteBindValue::BorrowedString(&text));
    assert!(matches!(&pair.key, BindKey::Numeric(4)));
    assert!(matches!(&pair.value, SqlValue::Text(t) if t == "borrowed"));
    let bytes = [1u8, 2];
    let pair = InternalSqliteBindValue::to_ffi_struct(0, InternalSqliteBindValue::BorrowedBinary(&bytes));
    assert!(matches!(&pair.value, SqlValue::Blob(b) if b == &vec![1u8, 2]));
    let pair = InternalSqliteBindValue::to_ffi_struct(2, InternalSqliteBindValue::F64(2.5f64.to_bits()));
    assert!(matches!(pair.value, SqlValue::Double(d) if f64::from_bits(d) == 2.5));
}

#[test]
fn storage_class_names() {
    assert_eq!("Text", InternalSqliteBindValue::BorrowedString("a").storage_class());
    assert_eq!("Text", InternalSqliteBindValue::String("a".to_string()).storage_class());
    assert_eq!("Binary", InternalSqliteBindValue::Binary(vec![]).storage_class());
    assert_eq!("Integer", InternalSqliteBindValue::I32(1).storage_class());
    assert_eq!("Integer", InternalSqliteBindValue::I64(1).storage_class());
    assert_eq!("Float", InternalSqliteBindValue::F64(0).storage_class());
    assert_eq!("Null", InternalSqliteBindValue::Null.storage_class());
}

#[test]
fn statement_lifecycle() {
    let mut s = Statement::new(5, false);
    assert_eq!(StatementState::Prepared, s.state());
    let payload = s.bind(BindPair { key: BindKey::Numeric(1), value: SqlValue::Int(3) });
    assert_eq!(bincode::serialize(&(1u64, 1u32, 1u64, 4u32, 3i32)).unwrap(), payload);
    assert_eq!(StatementState::Bound, s.state());
    assert!(s.needs_step());
    assert_eq!(StepResult::RowAvailable, s.on_step(SQLITE_ROW));
    assert_eq!(StatementState::Stepping, s.state());
    assert_eq!(StepResult::NoMoreRows, s.on_step(SQLITE_DONE));
    assert_eq!(StatementState::Exhausted, s.state());
    assert!(!s.needs_step());
    s.reset();
    assert_eq!(StatementState::Prepared, s.state());
    let payload = s.bind(BindPair { key: BindKey::Numeric(1), value: SqlValue::Int(4) });
    assert_eq!(bincode::serialize(&(1u64, 1u32, 1u64, 4u32, 4i32)).unwrap(), payload);
    assert_eq!(StepResult::Failed(1), s.on_step(1));
    assert!(!s.needs_step());
    assert_eq!(5, s.finalize());
}

#[test]
fn release_resets_cached_and_finalizes_others() {
    let mut conn = SqliteConnection::establish(2);
    assert_eq!(2, conn.connection_id());
    let s = conn.on_prepared("SELECT ?".to_string(), true, 11);
    assert!(s.is_cached());
    assert_eq!(Release::Reset(11), conn.release(s));
    let again = conn.cached_statement(&"SELECT ?".to_string(), true).unwrap();
    assert_eq!(11, again.statement_id());
    assert!(conn.cached_statement(&"SELECT ?".to_string(), false).is_none());
    let dup = conn.on_prepared("SELECT ?".to_string(), true, 12);
    assert!(!dup.is_cached());
    assert_eq!(Release::Finalize(12), conn.release(dup));
    assert_eq!(1, conn.cache_len());
}

#[test]
fn transaction_sql_nests_with_savepoints() {
    let mut conn = SqliteConnection::establish(1);
    assert_eq!(None, conn.transaction_sql(true));
    assert_eq!(Ok("BEGIN IMMEDIATE".to_string()), conn.immediate_transaction());
    assert_eq!(Ok("BEGIN EXCLUSIVE".to_string()), conn.exclusive_transaction());
    assert_eq!("BEGIN", conn.begin_transaction_sql("BEGIN"));
    conn.on_transaction_begun();
    assert_eq!("SAVEPOINT diesel_savepoint_1", conn.begin_transaction_sql("BEGIN"));
    assert_eq!(Err(Error::AlreadyInTransaction), conn.immediate_transaction());
    assert_eq!(Err(Error::AlreadyInTransaction), conn.exclusive_transaction());
    conn.on_transaction_begun();
    assert_eq!(2, conn.transaction_depth());
    assert_eq!(Some("RELEASE SAVEPOINT diesel_savepoint_1".to_string()), conn.transaction_sql(true));
    assert_eq!(
        Some("ROLLBACK TO SAVEPOINT diesel_savepoint_1".to_string()),
        conn.transaction_sql(false)
    );
    conn.on_transaction_ended();
    assert_eq!(Some("COMMIT".to_string()), conn.transaction_sql(true));
    assert_eq!(Some("ROLLBACK".to_string()), conn.transaction_sql(false));
    conn.on_transaction_ended();
    assert_eq!(0, conn.transaction_depth());
    for _ in 0..12 {
        conn.on_transaction_begun();
    }
    assert_eq!("SAVEPOINT diesel_savepoint_12", conn.begin_transaction_sql("BEGIN"));
}

#[test]
fn decimal_digits() {
    assert_eq!("0", decimal(0));
    assert_eq!("7", decimal(7));
    assert_eq!("10", decimal(10));
    assert_eq!("4294967295", decimal(u32::MAX));
}

#[test]
fn cached_statement_is_the_one_cached_under_the_text() {
    let mut conn = SqliteConnection::establish(1);
    let a = conn.on_prepared("SELECT a".to_string(), true, 21);
    let b = conn.on_prepared("SELECT b".to_string(), true, 22);
    conn.release(a);
    conn.release(b);
    assert_eq!(22, conn.cached_statement(&"SELECT b".to_string(), true).unwrap().statement_id());
    assert_eq!(21, conn.cached_statement(&"SELECT a".to_string(), true).unwrap().statement_id());
    assert!(conn.cached_statement(&"SELECT c".to_string(), true).is_none());
}
