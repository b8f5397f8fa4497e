use orm::error::{BackendFailure, Error, ErrorCtx, ErrorWithCtx};
use orm::storage::{
    convert_by_schema, create_table_sql, delete_sql, error_by_scheme, exists_sql, insert_sql,
    select_sql, update_sql,
};
use orm::{DataType, ObjectId, Schema, Value};

fn person_schema() -> Schema {
    Schema {
        table_name: String::from("Person"),
        record_name: String::from("Person"),
        columns: vec![
            (String::from("name"), DataType::String),
            (String::from("n"), DataType::Int64),
        ],
        attrs: vec![String::from("name"), String::from("n")],
    }
}

#[test]
fn generated_sql_text() {
    let s = person_schema();
    assert_eq!(
        create_table_sql(&s),
        "CREATE TABLE Person (id INTEGER PRIMARY KEY AUTOINCREMENT, name TEXT, n INTEGER)"
    );
    assert_eq!(insert_sql(&s, 2), "INSERT INTO Person (name, n) VALUES (?, ?)");
    assert_eq!(insert_sql(&s, 0), "INSERT INTO Person DEFAULT VALUES");
    assert_eq!(update_sql(&s), "UPDATE Person SET name = ?, n = ? WHERE id = ?");
    assert_eq!(select_sql(&s), "SELECT name, n FROM Person WHERE id = ?");
    assert_eq!(exists_sql(&s), "SELECT 1 FROM Person WHERE id = ?");
    assert_eq!(delete_sql(&s), "DELETE FROM Person WHERE id = ?");
}

#[test]
fn create_table_types_cover_every_tag() {
    let s = Schema {
        table_name: String::from("T"),
        record_name: String::from("T"),
        columns: vec![
            (String::from("a"), DataType::Bytes),
            (String::from("b"), DataType::Float64),
            (String::from("c"), DataType::Bool),
        ],
        attrs: vec![String::from("a"), String::from("b"), String::from("c")],
    };
    assert_eq!(
        create_table_sql(&s),
        "CREATE TABLE T (id INTEGER PRIMARY KEY AUTOINCREMENT, a BLOB, b REAL, c INTEGER)"
    );
}

#[test]
fn reconcile_accepts_matching_tags() {
    let s = person_schema();
    let row = convert_by_schema(
        vec![Some(Value::String(String::from("a"))), Some(Value::Int64(1))],
        &s,
    )
    .unwrap();
    assert!(matches!(&row[0], Value::String(x) if x == "a"));
    assert!(matches!(row[1], Value::Int64(1)));
}

#[test]
fn reconcile_coerces_narrow_integer_to_bool() {
    let s = Schema {
        table_name: String::from("Flags"),
        record_name: String::from("Flags"),
        columns: vec![(String::from("flag"), DataType::Bool)],
        attrs: vec![String::from("flag")],
    };
    let row = convert_by_schema(vec![Some(Value::Int64(0))], &s).unwrap();
    assert!(matches!(row[0], Value::Bool(false)));
    let row = convert_by_schema(vec![Some(Value::Int64(1))], &s).unwrap();
    assert!(matches!(row[0], Value::Bool(true)));
}

#[test]
fn reconcile_rejects_wide_integer_under_bool() {
    let s = Schema {
        table_name: String::from("Flags"),
        record_name: String::from("Flags"),
        columns: vec![(String::from("flag"), DataType::Bool)],
        attrs: vec![String::from("is_set")],
    };
    let e = convert_by_schema(vec![Some(Value::Int64(2))], &s).unwrap_err();
    match e {
        Error::UnexpectedType(u) => {
            assert_eq!(u.record_name, "Flags");
            assert_eq!(u.attr_name, "is_set");
            assert_eq!(u.table_name, "Flags");
            assert_eq!(u.column_name, "flag");
            assert_eq!(u.expected_type, DataType::Bool);
            assert_eq!(u.got_type, "Integer");
        }
        other => panic!("expected UnexpectedType, got {:?}", other),
    }
}

#[test]
fn reconcile_reports_null_storage_class() {
    let s = person_schema();
    let e = convert_by_schema(vec![Some(Value::String(String::from("a"))), None], &s).unwrap_err();
    match e {
        Error::UnexpectedType(u) => {
            assert_eq!(u.column_name, "n");
            assert_eq!(u.got_type, "Null");
            assert_eq!(u.expected_type, DataType::Int64);
        }
        other => panic!("expected UnexpectedType, got {:?}", other),
    }
}

#[test]
fn no_rows_becomes_not_found() {
    let s = person_schema();
    let e = error_by_scheme(&s, BackendFailure::NoRows, ObjectId::new(9));
    match e {
        Error::NotFound(nf) => {
            assert_eq!(nf.object_id.into_i64(), 9);
            assert_eq!(nf.record_name, "Person");
        }
        other => panic!("expected NotFound, got {:?}", other),
    }
}

#[test]
fn busy_becomes_lock_conflict() {
    let s = person_schema();
    let e = error_by_scheme(&s, BackendFailure::Busy, ObjectId::new(1));
    assert!(matches!(e, Error::LockConflict));
}

#[test]
fn bad_column_type_carries_column_context() {
    let s = person_schema();
    let f = BackendFailure::BadColumnType { index: 1, got: String::from("Text") };
    let e = error_by_scheme(&s, f, ObjectId::new(1));
    match e {
        Error::UnexpectedType(u) => {
            assert_eq!(u.column_name, "n");
            assert_eq!(u.attr_name, "n");
            assert_eq!(u.expected_type, DataType::Int64);
            assert_eq!(u.got_type, "Text");
        }
        other => panic!("expected UnexpectedType, got {:?}", other),
    }
}

#[test]
fn unknown_column_message_is_parsed_and_resolved() {
    let s = person_schema();
    let f = BackendFailure::Failed { message: Some(String::from("no such column: n")) };
    let e = error_by_scheme(&s, f, ObjectId::new(1));
    match e {
        Error::MissingColumn(mc) => {
            assert_eq!(mc.column_name, "n");
            assert_eq!(mc.attr_name, "n");
            assert_eq!(mc.table_name, "Person");
            assert_eq!(mc.record_name, "Person");
        }
        other => panic!("expected MissingColumn, got {:?}", other),
    }
}

#[test]
fn insert_style_unknown_column_message_is_parsed() {
    let s = person_schema();
    let f = BackendFailure::Failed {
        message: Some(String::from("table Person has no column named name")),
    };
    let e = error_by_scheme(&s, f, ObjectId::new(1));
    match e {
        Error::MissingColumn(mc) => {
            assert_eq!(mc.column_name, "name");
            assert_eq!(mc.attr_name, "name");
        }
        other => panic!("expected MissingColumn, got {:?}", other),
    }
}

#[test]
fn unknown_column_message_with_statement_context_is_parsed() {
    let s = person_schema();
    let f = BackendFailure::Failed {
        message: Some(String::from(
            "no such column: n in SELECT name, n FROM Person WHERE id = ? at offset 13",
        )),
    };
    let e = error_by_scheme(&s, f, ObjectId::new(1));
    match e {
        Error::MissingColumn(mc) => {
            assert_eq!(mc.column_name, "n");
            assert_eq!(mc.attr_name, "n");
        }
        other => panic!("expected MissingColumn, got {:?}", other),
    }
}

#[test]
fn unknown_column_outside_descriptor_is_storage() {
    let s = person_schema();
    let f = BackendFailure::Failed { message: Some(String::from("no such column: zzz")) };
    let e = error_by_scheme(&s, f, ObjectId::new(1));
    match e {
        Error::Storage(Some(m)) => assert_eq!(m, "no such column: zzz"),
        other => panic!("expected Storage, got {:?}", other),
    }
}

#[test]
fn plain_failure_is_storage_with_message() {
    let s = person_schema();
    let f = BackendFailure::Failed { message: Some(String::from("disk I/O error")) };
    let e = error_by_scheme(&s, f, ObjectId::new(1));
    assert!(matches!(e, Error::Storage(Some(m)) if m == "disk I/O error"));
    let e = error_by_scheme(&s, BackendFailure::Failed { message: None }, ObjectId::new(1));
    assert!(matches!(e, Error::Storage(None)));
}

#[test]
fn context_translator_builds_not_found() {
    let ctx = ErrorCtx::not_found(ObjectId::new(3), String::from("Person"));
    let e = Error::from_backend(ErrorWithCtx::new(BackendFailure::NoRows, ctx));
    match e {
        Error::NotFound(nf) => {
            assert_eq!(nf.object_id.into_i64(), 3);
            assert_eq!(nf.record_name, "Person");
        }
        other => panic!("expected NotFound, got {:?}", other),
    }
}

#[test]
fn scan_trims_and_finds() {
    assert_eq!(orm::scan::trim("  a b \t\n"), "a b");
    assert_eq!(orm::scan::trim(""), "");
    assert_eq!(orm::scan::trim("x"), "x");
    assert!(orm::scan::contains("abcabc", "cab"));
    assert!(!orm::scan::contains("abcabc", "cba"));
    assert_eq!(orm::scan::find_last("abcabc", "abc"), Some(3));
    assert_eq!(orm::scan::find_last("abcabc", "zz"), None);
}
