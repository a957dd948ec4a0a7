//! Execution engine behaviour: creation, insertion, selection, and the
//! typed errors.

use sql_mini::ast::SqlQuery;
use sql_mini::create::SqlTypeInfo;
use sql_mini::engine::{ExecResponse, Execution};
use sql_mini::error::QueryExecutionError;
use sql_mini::value::{Numeric, Value};

fn parse(text: &str) -> SqlQuery {
    SqlQuery::parse_from_raw(text).unwrap().1
}

fn number(text: &str) -> Value {
    Value::Number(Numeric::from_decimal_str(text).unwrap())
}

#[test]
fn empty_select_returns_no_rows() {
    let mut exec = Execution::new();
    exec.run(parse("CREATE TABLE t (a int, b string);")).unwrap();
    match exec.run(parse("SELECT a, b FROM t;")).unwrap() {
        ExecResponse::Select(table_iter) => {
            assert_eq!(table_iter.rows.len(), 0);
            assert_eq!(table_iter.columns.len(), 2);
        }
        other => panic!("expected a selection, got {other:?}"),
    }
}

#[test]
fn scenario_one_row() {
    let mut exec = Execution::new();
    exec.run(parse("CREATE TABLE users (name string, age int);"))
        .unwrap();
    exec.run(parse("INSERT INTO users VALUES 'john', 42;"))
        .unwrap();
    match exec.run(parse("SELECT name, age FROM users;")).unwrap() {
        ExecResponse::Select(table_iter) => {
            assert_eq!(table_iter.rows.len(), 1);
            let row = &table_iter.rows[0];
            assert_eq!(
                row.get(&String::from("name")).unwrap(),
                Value::String(String::from("john"))
            );
            assert_eq!(row.get(&String::from("age")).unwrap(), number("42"));
        }
        other => panic!("expected a selection, got {other:?}"),
    }
}

#[test]
fn insert_then_select_returns_values_in_order() {
    let mut exec = Execution::new();
    exec.run(parse("CREATE TABLE t (a int, b string, c int);"))
        .unwrap();
    exec.run(parse("INSERT INTO t VALUES 1, 'x', 2;")).unwrap();
    exec.run(parse("INSERT INTO t VALUES 3, 'y', 4;")).unwrap();
    match exec.run(parse("SELECT a, b, c FROM t;")).unwrap() {
        ExecResponse::Select(table_iter) => {
            assert_eq!(table_iter.rows.len(), 2);
            let last = &table_iter.rows[1];
            assert_eq!(last.id(), 1);
            assert_eq!(last.get(&String::from("a")).unwrap(), number("3"));
            assert_eq!(
                last.get(&String::from("b")).unwrap(),
                Value::String(String::from("y"))
            );
            assert_eq!(last.get(&String::from("c")).unwrap(), number("4"));
        }
        other => panic!("expected a selection, got {other:?}"),
    }
}

#[test]
fn insert_type_mismatch_leaves_rows_unchanged() {
    let mut exec = Execution::new();
    exec.run(parse("CREATE TABLE t (a int);")).unwrap();
    let err = exec
        .run(parse("INSERT INTO t VALUES 'oops';"))
        .unwrap_err();
    assert_eq!(
        err,
        QueryExecutionError::InsertTypeMismatch(
            SqlTypeInfo::Int,
            Value::String(String::from("oops"))
        )
    );
    match exec.run(parse("SELECT a FROM t;")).unwrap() {
        ExecResponse::Select(table_iter) => assert_eq!(table_iter.rows.len(), 0),
        other => panic!("expected a selection, got {other:?}"),
    }
}

#[test]
fn insert_arity_mismatch_fails() {
    let mut exec = Execution::new();
    exec.run(parse("CREATE TABLE t (a int, b string);")).unwrap();
    let err = exec.run(parse("INSERT INTO t VALUES 1;")).unwrap_err();
    assert_eq!(err, QueryExecutionError::InsertArityMismatch(2, 1));
    let err = exec
        .run(parse("INSERT INTO t VALUES 1, 'x', 2;"))
        .unwrap_err();
    assert_eq!(err, QueryExecutionError::InsertArityMismatch(2, 3));
}

#[test]
fn select_unknown_column_fails() {
    let mut exec = Execution::new();
    exec.run(parse("CREATE TABLE t (a int);")).unwrap();
    exec.run(parse("INSERT INTO t VALUES 7;")).unwrap();
    let err = exec.run(parse("SELECT a, nope FROM t;")).unwrap_err();
    assert_eq!(
        err,
        QueryExecutionError::ColumnDoesNotExist(String::from("nope"))
    );
}

#[test]
fn create_existing_table_fails_and_preserves_it() {
    let mut exec = Execution::new();
    exec.run(parse("CREATE TABLE t (a int);")).unwrap();
    exec.run(parse("INSERT INTO t VALUES 5;")).unwrap();
    let err = exec
        .run(parse("CREATE TABLE t (other string);"))
        .unwrap_err();
    assert_eq!(
        err,
        QueryExecutionError::TableAlreadyExists(String::from("t"))
    );
    match exec.run(parse("SELECT a FROM t;")).unwrap() {
        ExecResponse::Select(table_iter) => {
            assert_eq!(table_iter.rows.len(), 1);
            assert_eq!(
                table_iter.rows[0].get(&String::from("a")).unwrap(),
                number("5")
            );
        }
        other => panic!("expected a selection, got {other:?}"),
    }
}

#[test]
fn statements_on_missing_tables_fail() {
    let mut exec = Execution::new();
    let err = exec.run(parse("INSERT INTO ghost VALUES 1;")).unwrap_err();
    assert_eq!(
        err,
        QueryExecutionError::TableNotFound(String::from("ghost"))
    );
    let err = exec.run(parse("SELECT a FROM ghost;")).unwrap_err();
    assert_eq!(
        err,
        QueryExecutionError::TableNotFound(String::from("ghost"))
    );
}

#[test]
fn duplicate_column_names_rejected_at_create() {
    let mut exec = Execution::new();
    let err = exec
        .run(parse("CREATE TABLE t (a int, a string);"))
        .unwrap_err();
    assert_eq!(
        err,
        QueryExecutionError::DuplicateColumnName(String::from("a"))
    );
    let err = exec.run(parse("SELECT a FROM t;")).unwrap_err();
    assert_eq!(err, QueryExecutionError::TableNotFound(String::from("t")));
}

#[test]
fn row_projection_only_carries_requested_fields() {
    let mut exec = Execution::new();
    exec.run(parse("CREATE TABLE t (a int, b int);")).unwrap();
    exec.run(parse("INSERT INTO t VALUES 1, 2;")).unwrap();
    match exec.run(parse("SELECT b FROM t;")).unwrap() {
        ExecResponse::Select(table_iter) => {
            let row = &table_iter.rows[0];
            assert_eq!(row.get(&String::from("b")).unwrap(), number("2"));
            assert_eq!(
                row.get(&String::from("a")).unwrap_err(),
                QueryExecutionError::ColumnDoesNotExist(String::from("a"))
            );
        }
        other => panic!("expected a selection, got {other:?}"),
    }
}
