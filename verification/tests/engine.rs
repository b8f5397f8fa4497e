use orm::data::ValueConvert;
use orm::{DataType, Error, ObjectId, ObjectState, Schema, Transaction, Value};
use rusqlite::Connection;

fn person_schema() -> Schema {
    Schema {
        table_name: String::from("Person"),
        record_name: String::from("Person"),
        columns: vec![
            (String::from("name"), DataType::String),
            (String::from("n"), DataType::Int64),
        ],
        attrs: vec![String::from("name"), String::from("n")],
    }
}

fn person_row(name: &str, n: i64) -> Vec<Value> {
    vec![Value::String(String::from(name)), Value::Int64(n)]
}

#[test]
fn scenario_create_read_update_commit() {
    let conn = Connection::open_in_memory().unwrap();
    let schema = person_schema();

    let mut tx = Transaction::new(&conn).unwrap();
    let h = tx.create(&schema, person_row("a", 1)).unwrap();
    assert_eq!(h.id().into_i64(), 1);

    let h2 = tx.get(&schema, ObjectId::new(1)).unwrap();
    let row = h2.borrow(&tx).unwrap();
    assert_eq!(row[0].convert::<String>(), "a");
    assert_eq!(row[1].convert::<i64>(), 1);

    h2.update(&mut tx, person_row("b", 1)).unwrap();
    assert_eq!(h2.state(&tx), ObjectState::Modified);
    tx.commit().unwrap();

    let mut tx = Transaction::new(&conn).unwrap();
    let h3 = tx.get(&schema, ObjectId::new(1)).unwrap();
    let row = h3.borrow(&tx).unwrap();
    assert_eq!(row[0].convert::<String>(), "b");
    assert_eq!(row[1].convert::<i64>(), 1);
    tx.rollback().unwrap();
}

#[test]
fn identity_map_uniqueness() {
    let conn = Connection::open_in_memory().unwrap();
    let schema = person_schema();

    let mut tx = Transaction::new(&conn).unwrap();
    let h = tx.create(&schema, person_row("a", 1)).unwrap();
    let id = h.id();

    let h1 = tx.get(&schema, id).unwrap();
    let h2 = tx.get(&schema, id).unwrap();

    h1.update(&mut tx, person_row("edited", 7)).unwrap();

    let row = h2.borrow(&tx).unwrap();
    assert_eq!(row[0].convert::<String>(), "edited");
    assert_eq!(row[1].convert::<i64>(), 7);
    assert_eq!(h2.state(&tx), ObjectState::Modified);
    tx.rollback().unwrap();
}

#[test]
fn borrow_mut_edits_are_visible_through_every_handle() {
    let conn = Connection::open_in_memory().unwrap();
    let schema = person_schema();

    let mut tx = Transaction::new(&conn).unwrap();
    let h1 = tx.create(&schema, person_row("a", 1)).unwrap();
    let h2 = tx.get(&schema, h1.id()).unwrap();
    assert_eq!(h2.state(&tx), ObjectState::Clean);

    {
        let row = h1.borrow_mut(&mut tx);
        row[0] = Value::String(String::from("in place"));
    }
    assert_eq!(h1.state(&tx), ObjectState::Modified);
    let row = h2.borrow(&tx).unwrap();
    assert_eq!(row[0].convert::<String>(), "in place");
    tx.commit().unwrap();

    let mut tx = Transaction::new(&conn).unwrap();
    let h = tx.get(&schema, h1.id()).unwrap();
    assert_eq!(h.borrow(&tx).unwrap()[0].convert::<String>(), "in place");
    tx.rollback().unwrap();
}

#[test]
fn fresh_entries_are_clean_and_get_does_not_reread() {
    let conn = Connection::open_in_memory().unwrap();
    let schema = person_schema();

    let mut tx = Transaction::new(&conn).unwrap();
    let h = tx.create(&schema, person_row("a", 1)).unwrap();
    assert_eq!(h.state(&tx), ObjectState::Clean);

    let h1 = tx.get(&schema, h.id()).unwrap();
    h1.update(&mut tx, person_row("memory only", 2)).unwrap();

    let h2 = tx.get(&schema, h.id()).unwrap();
    let row = h2.borrow(&tx).unwrap();
    assert_eq!(row[0].convert::<String>(), "memory only");
    tx.rollback().unwrap();
}

#[test]
fn removed_is_terminal() {
    let conn = Connection::open_in_memory().unwrap();
    let schema = person_schema();

    let mut tx = Transaction::new(&conn).unwrap();
    let h = tx.create(&schema, person_row("a", 1)).unwrap();
    let id = h.id();
    let witness = tx.get(&schema, id).unwrap();

    h.delete(&mut tx);
    assert_eq!(witness.state(&tx), ObjectState::Removed);

    match tx.get(&schema, id) {
        Err(Error::NotFound(nf)) => {
            assert_eq!(nf.object_id, id);
            assert_eq!(nf.record_name, "Person");
        }
        other => panic!("expected NotFound, got {:?}", other),
    }
    assert!(matches!(witness.borrow(&tx), Err(Error::NotFound(_))));
    tx.rollback().unwrap();
}

#[test]
fn scenario_delete_then_rollback() {
    let conn = Connection::open_in_memory().unwrap();
    let schema = person_schema();

    let mut tx = Transaction::new(&conn).unwrap();
    let h = tx.create(&schema, person_row("keep me", 5)).unwrap();
    let id = h.id();
    tx.commit().unwrap();

    let mut tx = Transaction::new(&conn).unwrap();
    let h = tx.get(&schema, id).unwrap();
    h.delete(&mut tx);
    tx.rollback().unwrap();

    let mut tx = Transaction::new(&conn).unwrap();
    let h = tx.get(&schema, id).unwrap();
    let row = h.borrow(&tx).unwrap();
    assert_eq!(row[0].convert::<String>(), "keep me");
    assert_eq!(row[1].convert::<i64>(), 5);
    tx.rollback().unwrap();
}

#[test]
fn scenario_missing_column() {
    let conn = Connection::open_in_memory().unwrap();
    conn.execute(
        "CREATE TABLE Person (id INTEGER PRIMARY KEY AUTOINCREMENT, name TEXT)",
        [],
    )
    .unwrap();
    conn.execute("INSERT INTO Person (name) VALUES ('a')", []).unwrap();

    let schema = person_schema();
    let mut tx = Transaction::new(&conn).unwrap();
    match tx.get(&schema, ObjectId::new(1)) {
        Err(Error::MissingColumn(mc)) => {
            assert_eq!(mc.column_name, "n");
            assert_eq!(mc.attr_name, "n");
            assert_eq!(mc.table_name, "Person");
            assert_eq!(mc.record_name, "Person");
        }
        other => panic!("expected MissingColumn, got {:?}", other),
    }
    tx.rollback().unwrap();
}

#[test]
fn dirty_flush_precision() {
    let conn = Connection::open_in_memory().unwrap();
    let schema = person_schema();

    let mut tx = Transaction::new(&conn).unwrap();
    let h1 = tx.create(&schema, person_row("a", 1)).unwrap();
    let h2 = tx.create(&schema, person_row("b", 2)).unwrap();
    let h3 = tx.create(&schema, person_row("c", 3)).unwrap();
    assert!(tx.flush_plan().is_empty());

    h2.update(&mut tx, person_row("b2", 2)).unwrap();
    let id3 = h3.id();
    h3.delete(&mut tx);

    let plan = tx.flush_plan();
    assert_eq!(plan.len(), 2);
    assert!(plan.contains(&(h2.id(), ObjectState::Modified)));
    assert!(plan.contains(&(id3, ObjectState::Removed)));
    assert!(!plan.iter().any(|(id, _)| *id == h1.id()));

    let before = conn.total_changes();
    tx.commit().unwrap();
    let written = conn.total_changes() - before;
    assert_eq!(written, 2);
}

#[test]
fn bool_reconciliation_through_the_store() {
    let conn = Connection::open_in_memory().unwrap();
    conn.execute(
        "CREATE TABLE Flags (id INTEGER PRIMARY KEY AUTOINCREMENT, flag INTEGER)",
        [],
    )
    .unwrap();
    conn.execute("INSERT INTO Flags (flag) VALUES (1)", []).unwrap();
    conn.execute("INSERT INTO Flags (flag) VALUES (0)", []).unwrap();
    conn.execute("INSERT INTO Flags (flag) VALUES (5)", []).unwrap();

    let schema = Schema {
        table_name: String::from("Flags"),
        record_name: String::from("Flags"),
        columns: vec![(String::from("flag"), DataType::Bool)],
        attrs: vec![String::from("flag")],
    };

    let mut tx = Transaction::new(&conn).unwrap();
    let h = tx.get(&schema, ObjectId::new(1)).unwrap();
    assert!(h.borrow(&tx).unwrap()[0].convert::<bool>());
    let h = tx.get(&schema, ObjectId::new(2)).unwrap();
    assert!(!h.borrow(&tx).unwrap()[0].convert::<bool>());
    match tx.get(&schema, ObjectId::new(3)) {
        Err(Error::UnexpectedType(u)) => {
            assert_eq!(u.column_name, "flag");
            assert_eq!(u.expected_type, DataType::Bool);
            assert_eq!(u.got_type, "Integer");
        }
        other => panic!("expected UnexpectedType, got {:?}", other),
    }
    tx.rollback().unwrap();
}

#[test]
fn update_of_missing_row_is_not_found() {
    let conn = Connection::open_in_memory().unwrap();
    let schema = person_schema();
    orm::storage::create_table(&conn, &schema).unwrap();
    assert_eq!(orm::storage::table_exists(&conn, &schema.table_name).unwrap(), true);
    assert_eq!(
        orm::storage::table_exists(&conn, &String::from("Absent")).unwrap(),
        false
    );

    let e = orm::storage::update_row(&conn, ObjectId::new(5), &schema, &person_row("x", 1))
        .unwrap_err();
    match e {
        Error::NotFound(nf) => {
            assert_eq!(nf.object_id.into_i64(), 5);
            assert_eq!(nf.record_name, "Person");
        }
        other => panic!("expected NotFound, got {:?}", other),
    }
}

#[test]
fn get_of_absent_identity_is_not_found() {
    let conn = Connection::open_in_memory().unwrap();
    let schema = person_schema();

    let mut tx = Transaction::new(&conn).unwrap();
    match tx.get(&schema, ObjectId::new(77)) {
        Err(Error::NotFound(nf)) => {
            assert_eq!(nf.object_id.into_i64(), 77);
            assert_eq!(nf.record_name, "Person");
        }
        other => panic!("expected NotFound, got {:?}", other),
    }
    tx.rollback().unwrap();
}

#[test]
fn every_value_tag_survives_a_round_trip_through_the_store() {
    let conn = Connection::open_in_memory().unwrap();
    let schema = Schema {
        table_name: String::from("Mixed"),
        record_name: String::from("Mixed"),
        columns: vec![
            (String::from("s"), DataType::String),
            (String::from("b"), DataType::Bytes),
            (String::from("i"), DataType::Int64),
            (String::from("f"), DataType::Float64),
            (String::from("t"), DataType::Bool),
        ],
        attrs: vec![
            String::from("s"),
            String::from("b"),
            String::from("i"),
            String::from("f"),
            String::from("t"),
        ],
    };
    let row = vec![
        Value::String(String::from("text")),
        Value::Bytes(vec![1, 2, 3]),
        Value::Int64(-9),
        Value::Float64((-1.5f64).to_bits()),
        Value::Bool(true),
    ];

    let mut tx = Transaction::new(&conn).unwrap();
    let h = tx.create(&schema, row).unwrap();
    let id = h.id();
    tx.commit().unwrap();

    let mut tx = Transaction::new(&conn).unwrap();
    let h = tx.get(&schema, id).unwrap();
    let row = h.borrow(&tx).unwrap();
    assert_eq!(row[0].convert::<String>(), "text");
    assert_eq!(row[1].convert::<Vec<u8>>(), vec![1, 2, 3]);
    assert_eq!(row[2].convert::<i64>(), -9);
    assert!(matches!(row[3], Value::Float64(bits) if f64::from_bits(bits) == -1.5));
    assert!(row[4].convert::<bool>());
    tx.rollback().unwrap();
}

#[test]
fn stored_reals_keep_their_exact_bits() {
    let conn = Connection::open_in_memory().unwrap();
    let schema = Schema {
        table_name: String::from("Reals"),
        record_name: String::from("Reals"),
        columns: vec![(String::from("x"), DataType::Float64)],
        attrs: vec![String::from("x")],
    };

    // The backend normalizes reals with an integral value (so the sign
    // of a negative zero is not kept); every other pattern survives.
    let samples: Vec<f64> = vec![
        0.0,
        1.5,
        -123456.789,
        f64::MIN_POSITIVE,
        f64::MIN_POSITIVE / 4.0,
        f64::MAX,
        f64::MIN,
        5e-324,
        f64::INFINITY,
        f64::NEG_INFINITY,
    ];

    let mut tx = Transaction::new(&conn).unwrap();
    let mut ids: Vec<(ObjectId, f64)> = Vec::new();
    for x in samples {
        let h = tx.create(&schema, vec![Value::Float64(x.to_bits())]).unwrap();
        ids.push((h.id(), x));
    }
    tx.commit().unwrap();

    let mut tx = Transaction::new(&conn).unwrap();
    for (id, x) in ids {
        let h = tx.get(&schema, id).unwrap();
        let row = h.borrow(&tx).unwrap();
        match row[0] {
            Value::Float64(bits) => assert_eq!(bits, x.to_bits(), "for sample {x}"),
            ref other => panic!("expected a real, got {:?}", other),
        }
    }
    tx.rollback().unwrap();
}

#[test]
fn empty_descriptor_degrades_to_existence_checks() {
    let conn = Connection::open_in_memory().unwrap();
    let schema = Schema {
        table_name: String::from("Unit"),
        record_name: String::from("Unit"),
        columns: vec![],
        attrs: vec![],
    };

    let mut tx = Transaction::new(&conn).unwrap();
    let h = tx.create(&schema, vec![]).unwrap();
    let id = h.id();
    tx.commit().unwrap();

    let mut tx = Transaction::new(&conn).unwrap();
    let h = tx.get(&schema, id).unwrap();
    assert!(h.borrow(&tx).unwrap().is_empty());
    assert!(matches!(
        tx.get(&schema, ObjectId::new(99)),
        Err(Error::NotFound(_))
    ));
    tx.rollback().unwrap();
}
