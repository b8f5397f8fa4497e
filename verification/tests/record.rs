use orm::object::Object;
use orm::record::Counter;
use orm::Transaction;
use rusqlite::Connection;

#[test]
fn record_row_round_trip() {
    let c = Counter { name: String::from("a"), count: 1 };
    let back = Counter::from_row(c.to_row());
    assert_eq!(back.name, "a");
    assert_eq!(back.count, 1);

    let c = Counter { name: String::new(), count: i64::MIN };
    let back = Counter::from_row(c.to_row());
    assert_eq!(back.name, "");
    assert_eq!(back.count, i64::MIN);
}

#[test]
fn record_schema_is_well_formed() {
    let s = Counter::schema();
    assert_eq!(s.table_name, "Counter");
    assert_eq!(s.record_name, "Counter");
    assert_eq!(s.columns.len(), 2);
    assert_eq!(s.attrs, vec!["name", "count"]);
}

#[test]
fn record_through_the_engine() {
    let conn = Connection::open_in_memory().unwrap();
    let schema = Counter::schema();

    let mut tx = Transaction::new(&conn).unwrap();
    let c = Counter { name: String::from("hits"), count: 7 };
    let h = tx.create(&schema, c.to_row()).unwrap();
    let id = h.id();
    tx.commit().unwrap();

    let mut tx = Transaction::new(&conn).unwrap();
    let h = tx.get(&schema, id).unwrap();
    let back = Counter::from_row(h.borrow(&tx).unwrap());
    assert_eq!(back.name, "hits");
    assert_eq!(back.count, 7);
    tx.rollback().unwrap();
}
