//! Parser behaviour, from single literals up to whole statements.

use sql_mini::ast::SqlQuery;
use sql_mini::create::{Column, CreateStatement, SqlTypeInfo};
use sql_mini::insert::InsertStatement;
use sql_mini::select::SelectStatement;
use sql_mini::value::{Numeric, Value};

#[test]
fn test_error() {
    let query = SqlQuery::parse_from_raw("select fart;");
    assert!(query.is_err(), "expected parse to fail, got {query:?}");
}

#[test]
fn ast_test_select() {
    let expected = SelectStatement {
        table: String::from("users"),
        fields: vec![String::from("name"), String::from("id")],
    };

    assert_eq!(
        SqlQuery::parse_from_raw("select name, id from users;")
            .unwrap()
            .1,
        SqlQuery::Select(expected)
    );
}

#[test]
fn ast_test_insert() {
    let expected = InsertStatement {
        table: String::from("users"),
        values: vec![
            Value::String(String::from("john")),
            Value::String(String::from("jane")),
        ],
    };

    assert_eq!(
        SqlQuery::parse_from_raw("insert into users values 'john', 'jane';")
            .unwrap()
            .1,
        SqlQuery::Insert(expected)
    );
}

#[test]
fn ast_test_create() {
    let expected = CreateStatement {
        table: String::from("users"),
        columns: vec![
            Column {
                name: String::from("name"),
                type_info: SqlTypeInfo::String,
            },
            Column {
                name: String::from("age"),
                type_info: SqlTypeInfo::Int,
            },
        ],
    };

    assert_eq!(
        SqlQuery::parse_from_raw("CREATE TABLE users (name string, age int);")
            .unwrap()
            .1,
        SqlQuery::Create(expected)
    );
}

#[test]
fn create_test_create() {
    let expeted = CreateStatement {
        table: "foo".into(),
        columns: vec![
            Column {
                name: "col1".into(),
                type_info: SqlTypeInfo::Int,
            },
            Column {
                name: "col2".into(),
                type_info: SqlTypeInfo::String,
            },
            Column {
                name: "col3".into(),
                type_info: SqlTypeInfo::String,
            },
        ],
    };

    assert_eq!(
        CreateStatement::parse_from_raw("CREATE TABLE foo (col1 int, col2 string, col3 string)")
            .unwrap()
            .1,
        expeted
    )
}

#[test]
fn insert_test_insert() {
    let expected = InsertStatement {
        table: String::from("users"),
        values: vec![
            Value::String(String::from("john")),
            Value::String(String::from("jane")),
        ],
    };

    let (_, command) =
        InsertStatement::parse_from_raw("insert into users values 'john', 'jane'").unwrap();

    assert_eq!(command, expected);
}

#[test]
fn select_test_select() {
    let expected = SelectStatement {
        table: String::from("users"),
        fields: vec![String::from("name"), String::from("id")],
    };

    let value = SelectStatement::parse_from_raw("SELECT name, id FROM users");

    assert_eq!(value.unwrap().1, expected);
}

#[test]
fn test_string() {
    let expected = Value::String(String::from("123 abc new"));
    let expected_remaining = String::from("random '123'");

    let (remaining_input, value) = Value::parse_from_raw("'123 abc new' random '123'").unwrap();

    assert_eq!(value, expected);

    assert_eq!(remaining_input.to_string(), expected_remaining);
}

#[test]
fn test_number() {
    let expected = Value::Number(Numeric::from_decimal_str(&String::from("10000")).unwrap());
    let expected_remaining = String::from("rest of string");

    let (remaining_input, value) = Value::parse_from_raw("10000 rest of string").unwrap();

    assert_eq!(value, expected);

    assert_eq!(remaining_input.to_string(), expected_remaining);
}

#[test]
fn number_literal_drops_leading_zeros() {
    let (_, value) = Value::parse_from_raw("007").unwrap();
    assert_eq!(value, Value::Number(Numeric::from_decimal_str("7").unwrap()));
    assert_eq!(
        Numeric::from_decimal_str("007"),
        Numeric::from_decimal_str("7")
    );
}

#[test]
fn number_literal_rejects_empty_and_non_digits() {
    assert!(Value::parse_from_raw("abc").is_err());
    assert!(Value::parse_from_raw("").is_err());
    assert_eq!(Numeric::from_decimal_str(""), None);
    assert_eq!(Numeric::from_decimal_str("12a"), None);
}

#[test]
fn string_literal_must_be_closed() {
    assert!(Value::parse_from_raw("'no closing quote").is_err());
    assert!(SqlQuery::parse_from_raw("insert into t values 'open;").is_err());
}

#[test]
fn keywords_are_case_insensitive_identifiers_are_not() {
    let (_, q) = SqlQuery::parse_from_raw("SeLeCt Name FrOm Users;").unwrap();
    let expected = SelectStatement {
        table: String::from("Users"),
        fields: vec![String::from("Name")],
    };
    assert_eq!(q, SqlQuery::Select(expected));
}

#[test]
fn trailing_semicolon_is_mandatory() {
    assert!(SqlQuery::parse_from_raw("select a from t").is_err());
    assert!(SqlQuery::parse_from_raw("  select a from t ; ").is_ok());
}

#[test]
fn unrecognized_statement_is_rejected() {
    assert!(SqlQuery::parse_from_raw("drop table t;").is_err());
    assert!(SqlQuery::parse_from_raw("").is_err());
}

#[test]
fn parse_error_reports_line_and_column() {
    let err = SqlQuery::parse_from_raw("select\nfart;").unwrap_err();
    assert_eq!(err.offset, 11);
    assert_eq!(err.line, 2);
    assert_eq!(err.column, 5);
    assert!(!err.contexts.is_empty());
}

#[test]
fn create_parse_and_reparse_are_stable() {
    let expected = CreateStatement {
        table: String::from("t"),
        columns: vec![
            Column {
                name: String::from("a"),
                type_info: SqlTypeInfo::Int,
            },
            Column {
                name: String::from("b"),
                type_info: SqlTypeInfo::String,
            },
        ],
    };
    let (_, query) = SqlQuery::parse_from_raw("CREATE TABLE t (a int, b string);").unwrap();
    assert_eq!(query, SqlQuery::Create(expected));

    let text = query.to_sql();
    assert_eq!(text, "create table t (a int, b string);");
    let (rest, again) = SqlQuery::parse_from_raw(&text).unwrap();
    assert_eq!(again, query);
    assert_eq!(rest, "");
}

#[test]
fn select_and_insert_reparse_are_stable() {
    let (_, select) = SqlQuery::parse_from_raw("SELECT name, id FROM users;").unwrap();
    let text = select.to_sql();
    assert_eq!(text, "select name, id from users;");
    assert_eq!(SqlQuery::parse_from_raw(&text).unwrap().1, select);

    let (_, insert) = SqlQuery::parse_from_raw("INSERT INTO users VALUES 'john', 0042;").unwrap();
    let text = insert.to_sql();
    assert_eq!(text, "insert into users values 'john', 42;");
    assert_eq!(SqlQuery::parse_from_raw(&text).unwrap().1, insert);
}

#[test]
fn create_requires_space_before_parenthesis() {
    assert!(CreateStatement::parse_from_raw("CREATE TABLE foo(col1 int)").is_err());
    assert!(CreateStatement::parse_from_raw("CREATE TABLE foo (col1 int )").is_err());
}
