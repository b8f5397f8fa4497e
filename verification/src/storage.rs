//! The row execution layer: SQL text generated from a descriptor, the
//! type reconciliation pass over read rows, and the schema-aware
//! classification of backend failures.

use rusqlite::types::Value as SqliteValue;
use rusqlite::Error as SqliteError;
use vstd::prelude::*;
use vstd::string::StrSliceExecFns;
use vstd::string::StringExecFns;

use crate::data::{DataType, ObjectId, Value, ValueModel};
use crate::error::{
    is_missing_column, is_not_found, is_storage, is_unexpected_type, mentions_missing_column,
    missing_column_name, BackendFailure, Error, ErrorCtx, ErrorWithCtx, UnexpectedTypeError,
};
use crate::object::{Row, Schema};
use crate::scan::{find_last, trim};

verus! {

// ---------------------------------------------------------------------------
// SQL text generation
// ---------------------------------------------------------------------------
/// The backend column type a declared value type is stored as.
pub open spec fn spec_decl_type(ty: DataType) -> Seq<char> {
    match ty {
        DataType::String => "TEXT"@,
        DataType::Bytes => "BLOB"@,
        DataType::Int64 => "INTEGER"@,
        DataType::Float64 => "REAL"@,
        DataType::Bool => "INTEGER"@,
    }
}

/// The column definitions of a CREATE statement, one `, name TYPE` piece
/// per declared column, following the implicit identity column.
pub open spec fn spec_create_columns(cols: Seq<(String, DataType)>) -> Seq<char>
    decreases cols.len(),
{
    if cols.len() == 0 {
        Seq::empty()
    } else {
        spec_create_columns(cols.drop_last()) + ", "@ + cols.last().0@ + " "@ + spec_decl_type(
            cols.last().1,
        )
    }
}

/// The complete CREATE statement for a descriptor.
pub open spec fn spec_create_table_sql(s: Schema) -> Seq<char> {
    "CREATE TABLE "@ + s.table_name@ + " (id INTEGER PRIMARY KEY AUTOINCREMENT"@
        + spec_create_columns(s.columns@) + ")"@
}

/// The declared column names joined by commas.
pub open spec fn spec_column_list(cols: Seq<(String, DataType)>) -> Seq<char>
    decreases cols.len(),
{
    if cols.len() == 0 {
        Seq::empty()
    } else if cols.len() == 1 {
        cols[0].0@
    } else {
        spec_column_list(cols.drop_last()) + ", "@ + cols.last().0@
    }
}

/// `n` positional parameter marks joined by commas.
pub open spec fn spec_placeholders(n: int) -> Seq<char>
    decreases n,
{
    if n <= 0 {
        Seq::empty()
    } else if n == 1 {
        "?"@
    } else {
        spec_placeholders(n - 1) + ", ?"@
    }
}

/// The `name = ?` assignments of an UPDATE, joined by commas.
pub open spec fn spec_set_list(cols: Seq<(String, DataType)>) -> Seq<char>
    decreases cols.len(),
{
    if cols.len() == 0 {
        Seq::empty()
    } else if cols.len() == 1 {
        cols[0].0@ + " = ?"@
    } else {
        spec_set_list(cols.drop_last()) + ", "@ + cols.last().0@ + " = ?"@
    }
}

/// The INSERT statement for a row of `n` values; an empty row inserts
/// the backend's default values.
pub open spec fn spec_insert_sql(s: Schema, n: int) -> Seq<char> {
    if n == 0 {
        "INSERT INTO "@ + s.table_name@ + " DEFAULT VALUES"@
    } else {
        "INSERT INTO "@ + s.table_name@ + " ("@ + spec_column_list(s.columns@) + ") VALUES ("@
            + spec_placeholders(n) + ")"@
    }
}

/// The UPDATE statement setting every declared column, keyed by identity.
pub open spec fn spec_update_sql(s: Schema) -> Seq<char> {
    "UPDATE "@ + s.table_name@ + " SET "@ + spec_set_list(s.columns@) + " WHERE id = ?"@
}

/// The SELECT statement reading every declared column, keyed by identity.
pub open spec fn spec_select_sql(s: Schema) -> Seq<char> {
    "SELECT "@ + spec_column_list(s.columns@) + " FROM "@ + s.table_name@ + " WHERE id = ?"@
}

/// The existence check for one identity.
pub open spec fn spec_exists_sql(s: Schema) -> Seq<char> {
    "SELECT 1 FROM "@ + s.table_name@ + " WHERE id = ?"@
}

/// The DELETE statement for one identity.
pub open spec fn spec_delete_sql(s: Schema) -> Seq<char> {
    "DELETE FROM "@ + s.table_name@ + " WHERE id = ?"@
}

fn decl_sql_type(ty: DataType) -> (r: &'static str)
    ensures
        r@ == spec_decl_type(ty),
{
    match ty {
        DataType::String => "TEXT",
        DataType::Bytes => "BLOB",
        DataType::Int64 => "INTEGER",
        DataType::Float64 => "REAL",
        DataType::Bool => "INTEGER",
    }
}

fn append_column_list(sql: &mut String, cols: &Vec<(String, DataType)>)
    ensures
        final(sql)@ == old(sql)@ + spec_column_list(cols@),
{
    let ghost base = sql@;
    let mut j: usize = 0;
    while j < cols.len()
        invariant
            j <= cols@.len(),
            sql@ == base + spec_column_list(cols@.subrange(0, j as int)),
        decreases cols@.len() - j,
    {
        if j > 0 {
            sql.append(", ");
        }
        sql.append(cols[j].0.as_str());
        j += 1;
        proof {
            let pre = cols@.subrange(0, j - 1);
            let cur = cols@.subrange(0, j as int);
            assert(cur.drop_last() =~= pre);
            assert(cur.last() == cols@[j - 1]);
            assert(cur[0] == cols@[0]);
            assert(sql@ =~= base + spec_column_list(cur));
        }
    }
    proof {
        assert(cols@.subrange(0, cols@.len() as int) =~= cols@);
    }
}

fn append_set_list(sql: &mut String, cols: &Vec<(String, DataType)>)
    ensures
        final(sql)@ == old(sql)@ + spec_set_list(cols@),
{
    let ghost base = sql@;
    let mut j: usize = 0;
    while j < cols.len()
        invariant
            j <= cols@.len(),
            sql@ == base + spec_set_list(cols@.subrange(0, j as int)),
        decreases cols@.len() - j,
    {
        if j > 0 {
            sql.append(", ");
        }
        sql.append(cols[j].0.as_str());
        sql.append(" = ?");
        j += 1;
        proof {
            let pre = cols@.subrange(0, j - 1);
            let cur = cols@.subrange(0, j as int);
            assert(cur.drop_last() =~= pre);
            assert(cur.last() == cols@[j - 1]);
            assert(cur[0] == cols@[0]);
            assert(sql@ =~= base + spec_set_list(cur));
        }
    }
    proof {
        assert(cols@.subrange(0, cols@.len() as int) =~= cols@);
    }
}

fn append_placeholders(sql: &mut String, n: usize)
    ensures
        final(sql)@ == old(sql)@ + spec_placeholders(n as int),
{
    let ghost base = sql@;
    let mut j: usize = 0;
    while j < n
        invariant
            j <= n,
            sql@ == base + spec_placeholders(j as int),
        decreases n - j,
    {
        if j > 0 {
            sql.append(", ?");
        } else {
            sql.append("?");
        }
        j += 1;
        proof {
            assert(sql@ =~= base + spec_placeholders(j as int));
        }
    }
}

/// The CREATE statement of a descriptor's table: the implicit identity
/// column followed by one typed column per descriptor entry.
pub fn create_table_sql(schema: &Schema) -> (r: String)
    ensures
        r@ == spec_create_table_sql(*schema),
{
    let mut sql = String::from_str("CREATE TABLE ");
    sql.append(schema.table_name.as_str());
    sql.append(" (id INTEGER PRIMARY KEY AUTOINCREMENT");
    let ghost base = sql@;
    let mut j: usize = 0;
    while j < schema.columns.len()
        invariant
            j <= schema.columns@.len(),
            sql@ == base + spec_create_columns(schema.columns@.subrange(0, j as int)),
        decreases schema.columns@.len() - j,
    {
        sql.append(", ");
        sql.append(schema.columns[j].0.as_str());
        sql.append(" ");
        sql.append(decl_sql_type(schema.columns[j].1));
        j += 1;
        proof {
            let pre = schema.columns@.subrange(0, j - 1);
            let cur = schema.columns@.subrange(0, j as int);
            assert(cur.drop_last() =~= pre);
            assert(cur.last() == schema.columns@[j - 1]);
            assert(sql@ =~= base + spec_create_columns(cur));
        }
    }
    sql.append(")");
    proof {
        assert(schema.columns@.subrange(0, schema.columns@.len() as int) =~= schema.columns@);
        assert(sql@ =~= spec_create_table_sql(*schema));
    }
    sql
}

/// The INSERT statement for a row of `n` values.
pub fn insert_sql(schema: &Schema, n: usize) -> (r: String)
    ensures
        r@ == spec_insert_sql(*schema, n as int),
{
    let mut sql = String::from_str("INSERT INTO ");
    sql.append(schema.table_name.as_str());
    if n == 0 {
        sql.append(" DEFAULT VALUES");
        proof {
            assert(sql@ =~= spec_insert_sql(*schema, 0));
        }
    } else {
        sql.append(" (");
        append_column_list(&mut sql, &schema.columns);
        sql.append(") VALUES (");
        append_placeholders(&mut sql, n);
        sql.append(")");
        proof {
            assert(sql@ =~= spec_insert_sql(*schema, n as int));
        }
    }
    sql
}

/// The UPDATE statement setting every declared column of one identity.
pub fn update_sql(schema: &Schema) -> (r: String)
    ensures
        r@ == spec_update_sql(*schema),
{
    let mut sql = String::from_str("UPDATE ");
    sql.append(schema.table_name.as_str());
    sql.append(" SET ");
    append_set_list(&mut sql, &schema.columns);
    sql.append(" WHERE id = ?");
    proof {
        assert(sql@ =~= spec_update_sql(*schema));
    }
    sql
}

/// The SELECT statement reading every declared column of one identity.
pub fn select_sql(schema: &Schema) -> (r: String)
    ensures
        r@ == spec_select_sql(*schema),
{
    let mut sql = String::from_str("SELECT ");
    append_column_list(&mut sql, &schema.columns);
    sql.append(" FROM ");
    sql.append(schema.table_name.as_str());
    sql.append(" WHERE id = ?");
    proof {
        assert(sql@ =~= spec_select_sql(*schema));
    }
    sql
}

/// The existence check for one identity of a descriptor's table.
pub fn exists_sql(schema: &Schema) -> (r: String)
    ensures
        r@ == spec_exists_sql(*schema),
{
    let mut sql = String::from_str("SELECT 1 FROM ");
    sql.append(schema.table_name.as_str());
    sql.append(" WHERE id = ?");
    proof {
        assert(sql@ =~= spec_exists_sql(*schema));
    }
    sql
}

/// The DELETE statement for one identity of a descriptor's table.
pub fn delete_sql(schema: &Schema) -> (r: String)
    ensures
        r@ == spec_delete_sql(*schema),
{
    let mut sql = String::from_str("DELETE FROM ");
    sql.append(schema.table_name.as_str());
    sql.append(" WHERE id = ?");
    proof {
        assert(sql@ =~= spec_delete_sql(*schema));
    }
    sql
}

// ---------------------------------------------------------------------------
// Type reconciliation
// ---------------------------------------------------------------------------
/// The model of one value as the backend handed it back: the value, or
/// nothing where the backend stored a NULL.
pub open spec fn opt_value_model(v: Option<Value>) -> Option<ValueModel> {
    match v {
        Some(x) => Some(x@),
        None => None,
    }
}

/// The backend storage class a read value reports in a mismatch, the
/// absence of a value reading as the NULL class.
pub open spec fn spec_storage_class(v: Option<ValueModel>) -> Seq<char> {
    match v {
        None => "Null"@,
        Some(m) => match m {
            ValueModel::VString(_) => "Text"@,
            ValueModel::VBytes(_) => "Blob"@,
            ValueModel::VInt64(_) => "Integer"@,
            ValueModel::VFloat64(_) => "Real"@,
            ValueModel::VBool(_) => "Integer"@,
        },
    }
}

/// A row whose values carry exactly the declared column types.
pub open spec fn row_typed(rm: Seq<ValueModel>, s: Schema) -> bool {
    rm.len() == s.columns@.len() && forall|i: int|
        0 <= i < rm.len() ==> (#[trigger] rm[i]).data_type() == s.columns@[i].1
}

/// A stored value is acceptable for a declared column type: either its
/// tag already matches, or the column is boolean and the store holds the
/// narrow integer 0 or 1.
pub open spec fn can_reconcile(stored: ValueModel, declared: DataType) -> bool {
    stored.data_type() == declared || (declared == DataType::Bool && match stored {
        ValueModel::VInt64(i) => 0 <= i <= 1,
        _ => false,
    })
}

/// The value a stored value reconciles to: itself on a matching tag, and
/// the boolean reading of a narrow integer under a boolean column.
pub open spec fn reconciled(stored: ValueModel, declared: DataType) -> ValueModel {
    if stored.data_type() == declared {
        stored
    } else {
        ValueModel::VBool(stored == ValueModel::VInt64(1))
    }
}

/// Every read value is acceptable for its column.
pub open spec fn row_can_reconcile(vals: Seq<Option<Value>>, cols: Seq<(String, DataType)>) -> bool {
    forall|i: int|
        0 <= i < cols.len() ==> vals[i] is Some && can_reconcile(vals[i]->Some_0@, cols[i].1)
}

/// The position of the first column whose read value is unacceptable.
pub open spec fn first_mismatch(
    vals: Seq<Option<Value>>,
    cols: Seq<(String, DataType)>,
    i: int,
) -> bool {
    &&& 0 <= i < cols.len()
    &&& !(vals[i] is Some && can_reconcile(vals[i]->Some_0@, cols[i].1))
    &&& forall|k: int| 0 <= k < i ==> vals[k] is Some && can_reconcile(vals[k]->Some_0@, cols[k].1)
}

/// Runs a read row through the type reconciliation pass: a value whose
/// tag matches its declared column type is accepted as it is; a narrow
/// integer under a boolean column is coerced to the boolean it encodes;
/// any other mismatch is an `UnexpectedType` error naming the offending
/// column, its attribute, the table, and both types involved.
pub fn convert_by_schema(vals: Vec<Option<Value>>, schema: &Schema) -> (r: Result<Row, Error>)
    requires
        schema.wf(),
        vals@.len() == schema.columns@.len(),
    ensures
        r is Ok <==> row_can_reconcile(vals@, schema.columns@),
        r matches Ok(row) ==> {
            &&& row.deep_view().len() == schema.columns@.len()
            &&& forall|i: int|
                0 <= i < schema.columns@.len() ==> row.deep_view()[i] == reconciled(
                    vals@[i]->Some_0@,
                    schema.columns@[i].1,
                )
        },
        r matches Err(e) ==> exists|i: int|
            #[trigger] first_mismatch(vals@, schema.columns@, i) && is_unexpected_type(
                e,
                schema.record_name@,
                schema.attrs@[i]@,
                schema.table_name@,
                schema.columns@[i].0@,
                schema.columns@[i].1,
                spec_storage_class(opt_value_model(vals@[i])),
            ),
{
    let mut out: Vec<Value> = Vec::new();
    let n = schema.columns.len();
    let mut i: usize = 0;
    while i < n
        invariant
            0 <= i <= n,
            n == schema.columns@.len(),
            schema.wf(),
            vals@.len() == n,
            out@.len() == i,
            forall|k: int|
                0 <= k < i ==> vals@[k] is Some && can_reconcile(
                    vals@[k]->Some_0@,
                    schema.columns@[k].1,
                ),
            forall|k: int|
                0 <= k < i ==> (#[trigger] out@[k])@ == reconciled(
                    vals@[k]->Some_0@,
                    schema.columns@[k].1,
                ),
        decreases n - i,
    {
        let declared = schema.columns[i].1;
        let stored: &Option<Value> = &vals[i];
        match stored {
            Some(v) => {
                let tag = v.data_type();
                if tag == declared {
                    out.push(v.clone_value());
                    proof {
                        assert(out@[i as int]@ == v@);
                        assert(out@[i as int]@ == reconciled(
                            vals@[i as int]->Some_0@,
                            schema.columns@[i as int].1,
                        ));
                    }
                } else {
                    match (declared, v) {
                        (DataType::Bool, Value::Int64(x)) if 0 <= *x && *x <= 1 => {
                            out.push(Value::Bool(*x == 1));
                            proof {
                                assert(out@[i as int]@ == ValueModel::VBool(*x == 1));
                                assert(out@[i as int]@ == reconciled(
                                    vals@[i as int]->Some_0@,
                                    schema.columns@[i as int].1,
                                ));
                            }
                        },
                        _ => {
                            proof {
                                assert(!can_reconcile(v@, declared));
                                assert(first_mismatch(vals@, schema.columns@, i as int));
                            }
                            return Err(mismatch_error(schema, i, v.sql_type()));
                        },
                    }
                }
            },
            None => {
                proof {
                    assert(first_mismatch(vals@, schema.columns@, i as int));
                }
                return Err(mismatch_error(schema, i, "Null"));
            },
        }
        i += 1;
    }
    proof {
        assert(forall|k: int| 0 <= k < n ==> out.deep_view()[k] == (#[trigger] out@[k])@);
    }
    Ok(out)
}

/// The `UnexpectedType` error for the column at `i`, whose stored value
/// belongs to the storage class named by `got`.
fn mismatch_error(schema: &Schema, i: usize, got: &str) -> (e: Error)
    requires
        schema.wf(),
        i < schema.columns@.len(),
    ensures
        is_unexpected_type(
            e,
            schema.record_name@,
            schema.attrs@[i as int]@,
            schema.table_name@,
            schema.columns@[i as int].0@,
            schema.columns@[i as int].1,
            got@,
        ),
{
    Error::UnexpectedType(UnexpectedTypeError {
        record_name: schema.record_name.clone(),
        attr_name: schema.attrs[i].clone(),
        table_name: schema.table_name.clone(),
        column_name: schema.columns[i].0.clone(),
        expected_type: schema.columns[i].1,
        got_type: got.to_owned(),
    })
}

// ---------------------------------------------------------------------------
// Schema-aware failure classification
// ---------------------------------------------------------------------------
/// Position `j` holds the first declared column the extracted message
/// text reports: the text is the column's name, possibly followed by
/// whitespace and more of the backend's message.
pub open spec fn found_col(schema: Schema, name: Seq<char>, j: int) -> bool {
    &&& 0 <= j < schema.columns@.len()
    &&& crate::scan::reports_name(name, schema.columns@[j].0@)
    &&& forall|k: int| 0 <= k < j ==> !crate::scan::reports_name(name, schema.columns@[k].0@)
}

/// The position of the first declared column the extracted message text
/// reports.
fn find_column(schema: &Schema, name: &String) -> (r: Option<usize>)
    ensures
        match r {
            Some(j) => found_col(*schema, name@, j as int),
            None => forall|k: int|
                0 <= k < schema.columns@.len() ==> !crate::scan::reports_name(
                    name@,
                    schema.columns@[k].0@,
                ),
        },
{
    let mut j: usize = 0;
    while j < schema.columns.len()
        invariant
            0 <= j <= schema.columns@.len(),
            forall|k: int|
                0 <= k < j ==> !crate::scan::reports_name(name@, schema.columns@[k].0@),
        decreases schema.columns@.len() - j,
    {
        if crate::scan::reported_matches(name.as_str(), schema.columns[j].0.as_str()) {
            return Some(j);
        }
        j += 1;
    }
    None
}

/// A failure already classified without any identity or descriptor at
/// hand: a lock conflict keeps its kind, everything else is wrapped as a
/// storage error carrying whatever message text there was.
pub fn plain_error(f: BackendFailure) -> (e: Error)
    ensures
        f is Busy ==> e is LockConflict,
        f matches BackendFailure::Failed { message } ==> is_storage(
            e,
            crate::error::opt_str_view(message),
        ),
        f matches BackendFailure::BadColumnType { index, got } ==> is_storage(e, Some(got@)),
        f is NoRows ==> is_storage(e, None),
    {
    match f {
        BackendFailure::Busy => Error::LockConflict,
        BackendFailure::Failed { message } => Error::Storage(message),
        BackendFailure::BadColumnType { index: _, got } => Error::Storage(Some(got)),
        BackendFailure::NoRows => Error::Storage(None),
    }
}

/// Classifies a backend failure in the context of one operation: the
/// descriptor it ran under and the identity it addressed. A missed read
/// becomes `NotFound`; a column type mismatch becomes `UnexpectedType`
/// with the full column context; an unknown-column message has the
/// column name parsed out and matched against the descriptor to become
/// `MissingColumn`; a busy backend becomes `LockConflict`; everything
/// else is wrapped as `Storage`.
pub fn error_by_scheme(schema: &Schema, f: BackendFailure, id: ObjectId) -> (e: Error)
    requires
        schema.wf(),
    ensures
        f is NoRows ==> is_not_found(e, id, schema.record_name@),
        f matches BackendFailure::BadColumnType { index, got } ==> (if index
            < schema.columns@.len() {
            is_unexpected_type(
                e,
                schema.record_name@,
                schema.attrs@[index as int]@,
                schema.table_name@,
                schema.columns@[index as int].0@,
                schema.columns@[index as int].1,
                got@,
            )
        } else {
            is_storage(e, Some(got@))
        }),
        f is Busy ==> e is LockConflict,
        f matches BackendFailure::Failed { message: Some(m) } ==> (if mentions_missing_column(m@) {
            if exists|j: int| found_col(*schema, missing_column_name(m@), j) {
                exists|j: int|
                    #[trigger] found_col(*schema, missing_column_name(m@), j)
                        && is_missing_column(
                        e,
                        schema.record_name@,
                        schema.attrs@[j]@,
                        schema.table_name@,
                        schema.columns@[j].0@,
                    )
            } else {
                is_storage(e, Some(m@))
            }
        } else {
            is_storage(e, Some(m@))
        }),
        f matches BackendFailure::Failed { message: None } ==> is_storage(e, None),
{
    match f {
        BackendFailure::NoRows => Error::from_backend(
            ErrorWithCtx::new(
                BackendFailure::NoRows,
                ErrorCtx::not_found(id, schema.record_name.clone()),
            ),
        ),
        BackendFailure::BadColumnType { index, got } => {
            if index < schema.columns.len() {
                Error::UnexpectedType(UnexpectedTypeError {
                    record_name: schema.record_name.clone(),
                    attr_name: schema.attrs[index].clone(),
                    table_name: schema.table_name.clone(),
                    column_name: schema.columns[index].0.clone(),
                    expected_type: schema.columns[index].1,
                    got_type: got,
                })
            } else {
                Error::Storage(Some(got))
            }
        },
        BackendFailure::Busy => Error::LockConflict,
        BackendFailure::Failed { message } => match message {
            None => Error::Storage(None),
            Some(m) => {
                let extracted: Option<String> = extract_missing_column(&m);
                match extracted {
                    None => Error::Storage(Some(m)),
                    Some(name) => match find_column(schema, &name) {
                        Some(j) => Error::MissingColumn(
                            crate::error::MissingColumnError {
                                record_name: schema.record_name.clone(),
                                attr_name: schema.attrs[j].clone(),
                                table_name: schema.table_name.clone(),
                                column_name: schema.columns[j].0.clone(),
                            },
                        ),
                        None => Error::Storage(Some(m)),
                    },
                }
            },
        },
    }
}

// ---------------------------------------------------------------------------
// The trusted backend boundary
// ---------------------------------------------------------------------------
#[verifier::external_type_specification]
#[verifier::external_body]
pub struct ExConnection(rusqlite::Connection);

#[verifier::external_type_specification]
#[verifier::external_body]
pub struct ExSqlError(SqliteError);

#[verifier::external_type_specification]
#[verifier::external_body]
pub struct ExSqlValue(SqliteValue);

/// Relies on rusqlite::Connection::execute: prepares and runs one SQL
/// statement with positional parameters and returns the changed-row
/// count, or the backend's error.
#[verifier::external_body]
fn db_execute(
    conn: &rusqlite::Connection,
    sql: &String,
    params: Vec<SqliteValue>,
) -> Result<usize, SqliteError> {
    conn.execute(sql.as_str(), rusqlite::params_from_iter(params.into_iter()))
}

/// Relies on rusqlite::Connection::query_row: runs the query with
/// positional parameters, demands one row, and reads its first `n`
/// columns back raw, in column order.
#[verifier::external_body]
fn db_query_row(
    conn: &rusqlite::Connection,
    sql: &String,
    params: Vec<SqliteValue>,
    n: usize,
) -> (r: Result<Vec<SqliteValue>, SqliteError>)
    ensures
        r matches Ok(vals) ==> vals@.len() == n,
{
    conn.query_row(sql.as_str(), rusqlite::params_from_iter(params.into_iter()), |row| {
        let mut out = Vec::with_capacity(n);
        for i in 0..n {
            out.push(row.get(i)?);
        }
        Ok(out)
    })
}

/// Relies on rusqlite::Connection::last_insert_rowid: the rowid of the
/// most recent successful insert on this connection.
#[verifier::external_body]
fn db_last_insert_rowid(conn: &rusqlite::Connection) -> i64 {
    conn.last_insert_rowid()
}

/// Relies on rusqlite::Error: tells its variants apart, one arm each,
/// keeping what classification needs — the no-rows kind, a column type
/// mismatch's index and found storage class, the busy code, and any
/// other failure's message text (rendered through the error's Display).
#[verifier::external_body]
fn classify_failure(e: SqliteError) -> BackendFailure {
    match e {
        SqliteError::QueryReturnedNoRows => BackendFailure::NoRows,
        SqliteError::InvalidColumnType(index, _, ty) => BackendFailure::BadColumnType {
            index,
            got: ty.to_string(),
        },
        SqliteError::SqliteFailure(f, message) => match f.code {
            rusqlite::ErrorCode::DatabaseBusy => BackendFailure::Busy,
            _ => BackendFailure::Failed { message },
        },
        other => BackendFailure::Failed { message: Some(format!("{other}")) },
    }
}

/// Relies on rusqlite's tagged parameter values: wraps a text parameter.
#[verifier::external_body]
fn sql_text(s: String) -> SqliteValue {
    SqliteValue::Text(s)
}

/// Relies on rusqlite's tagged parameter values: wraps a blob parameter.
#[verifier::external_body]
fn sql_blob(b: Vec<u8>) -> SqliteValue {
    SqliteValue::Blob(b)
}

/// Relies on rusqlite's tagged parameter values: wraps an integer
/// parameter.
#[verifier::external_body]
fn sql_integer(i: i64) -> SqliteValue {
    SqliteValue::Integer(i)
}

/// Relies on rusqlite's tagged parameter values: the NULL parameter.
#[verifier::external_body]
fn sql_null() -> SqliteValue {
    SqliteValue::Null
}

/// Relies on rusqlite's tagged parameter values: wraps the real
/// parameter `(-1)^neg * (hi * 2^32 + lo) * 2^e`, every factor exactly
/// representable — the crate's only floating-point work.
#[verifier::external_body]
fn sql_real_from_parts(neg: bool, e: i32, hi: u32, lo: u32) -> SqliteValue {
    let two = match SqliteValue::Real(From::from(2u32)) {
        SqliteValue::Real(z) => z,
        v => return v,
    };
    let hif = match SqliteValue::Real(From::from(hi)) {
        SqliteValue::Real(z) => z,
        v => return v,
    };
    let lof = match SqliteValue::Real(From::from(lo)) {
        SqliteValue::Real(z) => z,
        v => return v,
    };
    let frac = hif * two.powi(32) + lof;
    let v = frac * two.powi(e / 2) * two.powi(e - e / 2);
    SqliteValue::Real(if neg { -v } else { v })
}

/// The raw biased exponent field of a stored real's bit pattern.
pub open spec fn real_raw_exp(bits: u64) -> u64 {
    (bits >> 52) & 0x7FF
}

/// The raw fraction field of a stored real's bit pattern.
pub open spec fn real_raw_frac(bits: u64) -> u64 {
    bits & 0xF_FFFF_FFFF_FFFF
}

/// Whether the bit pattern encodes no number at all.
pub open spec fn real_is_nan(bits: u64) -> bool {
    real_raw_exp(bits) == 0x7FF && real_raw_frac(bits) != 0
}

/// Whether the bit pattern carries the negative sign.
pub open spec fn real_negative(bits: u64) -> bool {
    (bits >> 63) & 1 == 1
}

/// The integer significand the bit pattern encodes: the fraction field,
/// with the implicit leading bit added for a normal number. An infinity
/// reads as the significand 1, paired below with an exponent large
/// enough to overflow back into the infinity it is.
pub open spec fn real_significand(bits: u64) -> u64 {
    if real_raw_exp(bits) == 0x7FF {
        1
    } else if real_raw_exp(bits) == 0 {
        real_raw_frac(bits)
    } else {
        (real_raw_frac(bits) + 0x10_0000_0000_0000) as u64
    }
}

/// The binary exponent paired with [`real_significand`], such that the
/// encoded number is `significand * 2^exponent`.
pub open spec fn real_exponent(bits: u64) -> int {
    if real_raw_exp(bits) == 0x7FF {
        2000
    } else if real_raw_exp(bits) == 0 {
        -1074
    } else {
        real_raw_exp(bits) - 1075
    }
}

/// The sign, scaled fraction and binary exponent a stored bit pattern
/// encodes, such that the number is `(-1)^neg * (hi * 2^32 + lo) * 2^e`;
/// the first component reports the pattern that encodes no number at
/// all.
fn float_parts(bits: u64) -> (r: (bool, bool, i32, u32, u32))
    ensures
        r.0 == real_is_nan(bits),
        r.1 == real_negative(bits),
        r.2 == real_exponent(bits),
        r.3 * 0x1_0000_0000 + r.4 == real_significand(bits),
{
    proof {
        assert((bits >> 52) & 0x7FF < 0x800) by (bit_vector);
        assert(bits & 0xF_FFFF_FFFF_FFFF < 0x10_0000_0000_0000) by (bit_vector);
    }
    let neg: bool = (bits >> 63) & 1 == 1;
    let exp: u32 = ((bits >> 52) & 0x7FF) as u32;
    let mant: u64 = bits & 0xF_FFFF_FFFF_FFFF;
    let nan: bool = exp == 2047 && mant != 0;
    let (mant_full, e): (u64, i32) = if exp == 2047 {
        (1, 2000)
    } else if exp == 0 {
        (mant, -1074)
    } else {
        (mant + 0x10_0000_0000_0000, (exp as i32) - 1075)
    };
    proof {
        assert(mant_full >> 32 < 0x20_0000 && mant_full & 0xFFFF_FFFF < 0x1_0000_0000
            && (mant_full >> 32) * 0x1_0000_0000 + (mant_full & 0xFFFF_FFFF) == mant_full)
            by (bit_vector)
            requires
                mant_full < 0x20_0000_0000_0000,
        ;
    }
    let hi: u32 = (mant_full >> 32) as u32;
    let lo: u32 = (mant_full & 0xFFFF_FFFF) as u32;
    (nan, neg, e, hi, lo)
}

/// The backend parameter one library value is bound as: text, blob,
/// integer, the integer a boolean encodes, or the real number a bit
/// pattern encodes — the pattern that encodes no number binds NULL, as
/// the backend itself has no value for it.
fn to_sql_param(v: &Value) -> SqliteValue {
    match v {
        Value::String(s) => sql_text(s.clone()),
        Value::Bytes(b) => sql_blob(b.clone()),
        Value::Int64(i) => sql_integer(*i),
        Value::Bool(b) => sql_integer(
            if *b {
                1
            } else {
                0
            },
        ),
        Value::Float64(bits) => {
            let (nan, neg, e, hi, lo) = float_parts(*bits);
            if nan {
                sql_null()
            } else {
                sql_real_from_parts(neg, e, hi, lo)
            }
        },
    }
}

/// Relies on rusqlite's tagged values: converts one value read from the
/// backend into the library's own, one arm per tag — a float becomes its
/// bit pattern, and a stored NULL, which has no counterpart, becomes
/// nothing.
#[verifier::external_body]
fn value_from_sql(v: SqliteValue) -> Option<Value> {
    match v {
        SqliteValue::Null => None,
        SqliteValue::Integer(i) => Some(Value::Int64(i)),
        SqliteValue::Real(f) => Some(Value::Float64(f.to_bits())),
        SqliteValue::Text(s) => Some(Value::String(s)),
        SqliteValue::Blob(b) => Some(Value::Bytes(b)),
    }
}

// ---------------------------------------------------------------------------
// The execution operations
// ---------------------------------------------------------------------------
/// An error scoped to the descriptor it arose under: whatever names it
/// carries are the descriptor's own, and a named column stands in the
/// descriptor with its attribute beside it.
pub open spec fn schema_scoped_error(e: Error, s: Schema) -> bool {
    match e {
        Error::NotFound(nf) => nf.record_name@ == s.record_name@,
        Error::UnexpectedType(u) => {
            &&& u.record_name@ == s.record_name@
            &&& u.table_name@ == s.table_name@
            &&& exists|j: int|
                {
                    &&& 0 <= j < s.columns@.len()
                    &&& u.column_name@ == (#[trigger] s.columns@[j]).0@
                    &&& u.attr_name@ == s.attrs@[j]@
                    &&& u.expected_type == s.columns@[j].1
                }
        },
        Error::MissingColumn(mc) => {
            &&& mc.record_name@ == s.record_name@
            &&& mc.table_name@ == s.table_name@
            &&& exists|j: int|
                {
                    &&& 0 <= j < s.columns@.len()
                    &&& mc.column_name@ == (#[trigger] s.columns@[j]).0@
                    &&& mc.attr_name@ == s.attrs@[j]@
                }
        },
        Error::LockConflict => true,
        Error::Storage(_) => true,
    }
}

/// The parameter list binding one identity.
fn id_params(id: ObjectId) -> Vec<SqliteValue> {
    let mut params: Vec<SqliteValue> = Vec::new();
    params.push(to_sql_param(&Value::Int64(id.into_i64())));
    params
}

/// The parameter list binding every value of a row, in row order.
fn row_params(row: &Row) -> Vec<SqliteValue> {
    let mut params: Vec<SqliteValue> = Vec::new();
    let mut i: usize = 0;
    while i < row.len()
        decreases row@.len() - i,
    {
        params.push(to_sql_param(&row[i]));
        i += 1;
    }
    params
}

/// The existence verdict a catalog probe's outcome decides: a hit means
/// the table exists, a missed row means it does not, a busy backend is
/// a lock conflict, and anything else is wrapped as a storage error
/// with its message.
pub open spec fn exists_decision(probe: Result<(), BackendFailure>, out: Result<
    bool,
    Error,
>) -> bool {
    match probe {
        Ok(_) => out == Ok::<bool, Error>(true),
        Err(f) => match f {
            BackendFailure::NoRows => out == Ok::<bool, Error>(false),
            BackendFailure::Busy => out matches Err(e) && e is LockConflict,
            BackendFailure::BadColumnType { index, got } => out matches Err(e) && is_storage(
                e,
                Some(got@),
            ),
            BackendFailure::Failed { message } => out matches Err(e) && is_storage(
                e,
                crate::error::opt_str_view(message),
            ),
        },
    }
}

/// Decides table existence from the catalog probe's outcome.
fn exists_outcome(probe: Result<(), BackendFailure>) -> (out: Result<bool, Error>)
    ensures
        exists_decision(probe, out),
{
    match probe {
        Ok(_) => Ok(true),
        Err(BackendFailure::NoRows) => Ok(false),
        Err(f) => Err(plain_error(f)),
    }
}

/// Whether the backend already holds a table of the given name. The
/// catalog probe's outcome is decided by [`exists_outcome`]: a missed
/// lookup means the table is absent, not an error.
pub fn table_exists(conn: &rusqlite::Connection, table: &String) -> (r: Result<bool, Error>)
    ensures
        r matches Err(e) ==> e is LockConflict || e is Storage,
{
    let sql = String::from_str("SELECT 1 FROM sqlite_master WHERE type = 'table' AND name = ?");
    let mut params: Vec<SqliteValue> = Vec::new();
    params.push(to_sql_param(&Value::String(table.clone())));
    let probe: Result<(), BackendFailure> = match db_query_row(conn, &sql, params, 0) {
        Ok(_) => Ok(()),
        Err(e) => Err(classify_failure(e)),
    };
    exists_outcome(probe)
}

/// Creates the descriptor's table: the implicit auto-incrementing
/// identity column followed by one column per descriptor entry.
pub fn create_table(conn: &rusqlite::Connection, schema: &Schema) -> (r: Result<(), Error>)
    requires
        schema.wf(),
    ensures
        r matches Err(e) ==> e is LockConflict || e is Storage,
{
    let sql = create_table_sql(schema);
    match db_execute(conn, &sql, Vec::new()) {
        Ok(_) => Ok(()),
        Err(e) => Err(plain_error(classify_failure(e))),
    }
}

/// Checks that a row with the given identity exists.
fn row_exists(conn: &rusqlite::Connection, id: ObjectId, schema: &Schema) -> (r: Result<(), Error>)
    requires
        schema.wf(),
    ensures
        r matches Err(e) ==> schema_scoped_error(e, *schema),
        r matches Err(e) ==> (e matches Error::NotFound(nf) ==> nf.object_id == id),
{
    let sql = exists_sql(schema);
    match db_query_row(conn, &sql, id_params(id), 0) {
        Ok(_) => Ok(()),
        Err(e) => Err(error_by_scheme(schema, classify_failure(e), id)),
    }
}

/// Inserts a row aligned with the descriptor's columns and returns the
/// backend-assigned identity; an empty row inserts default values.
pub fn insert_row(conn: &rusqlite::Connection, schema: &Schema, row: &Row) -> (r: Result<
    ObjectId,
    Error,
>)
    requires
        schema.wf(),
        row@.len() == schema.columns@.len(),
    ensures
        r matches Err(e) ==> schema_scoped_error(e, *schema),
{
    let sql = insert_sql(schema, row.len());
    match db_execute(conn, &sql, row_params(row)) {
        Ok(_) => Ok(ObjectId::new(db_last_insert_rowid(conn))),
        Err(e) => {
            let f = classify_failure(e);
            let id = ObjectId::new(db_last_insert_rowid(conn));
            Err(error_by_scheme(schema, f, id))
        },
    }
}

/// Decides an update's result from its changed-row count: an identity
/// no row matched leaves the count at zero and is owed `NotFound`
/// naming it; a matched row means success.
fn update_outcome(changed: usize, id: ObjectId, schema: &Schema) -> (out: Result<(), Error>)
    ensures
        changed == 0 ==> (out matches Err(e) && is_not_found(e, id, schema.record_name@)),
        changed != 0 ==> out is Ok,
{
    if changed == 0 {
        Err(
            Error::from_backend(
                ErrorWithCtx::new(
                    BackendFailure::NoRows,
                    ErrorCtx::not_found(id, schema.record_name.clone()),
                ),
            ),
        )
    } else {
        Ok(())
    }
}

/// Sets every declared column of the row with the given identity; a
/// descriptor with no columns degrades to an existence check. The
/// changed-row count is decided by [`update_outcome`]: an identity no
/// row matches is reported as `NotFound`.
pub fn update_row(
    conn: &rusqlite::Connection,
    id: ObjectId,
    schema: &Schema,
    row: &Row,
) -> (r: Result<(), Error>)
    requires
        schema.wf(),
        row@.len() == schema.columns@.len(),
    ensures
        r matches Err(e) ==> schema_scoped_error(e, *schema),
        r matches Err(e) ==> (e matches Error::NotFound(nf) ==> nf.object_id == id
            && nf.record_name@ == schema.record_name@),
{
    if schema.columns.len() == 0 {
        return row_exists(conn, id, schema);
    }
    let sql = update_sql(schema);
    let mut params = row_params(row);
    params.push(to_sql_param(&Value::Int64(id.into_i64())));
    match db_execute(conn, &sql, params) {
        Ok(changed) => update_outcome(changed, id, schema),
        Err(e) => Err(error_by_scheme(schema, classify_failure(e), id)),
    }
}

/// Reads the row with the given identity into values and runs it
/// through the type reconciliation pass; a descriptor with no columns
/// degrades to an existence check returning an empty row.
pub fn select_row(conn: &rusqlite::Connection, id: ObjectId, schema: &Schema) -> (r: Result<
    Row,
    Error,
>)
    requires
        schema.wf(),
    ensures
        r matches Ok(row) ==> row_typed(row.deep_view(), *schema),
        r matches Err(e) ==> schema_scoped_error(e, *schema),
        r matches Err(e) ==> (e matches Error::NotFound(nf) ==> nf.object_id == id
            && nf.record_name@ == schema.record_name@),
{
    let n = schema.columns.len();
    if n == 0 {
        return match row_exists(conn, id, schema) {
            Ok(_) => Ok(Vec::new()),
            Err(e) => Err(e),
        };
    }
    let sql = select_sql(schema);
    match db_query_row(conn, &sql, id_params(id), n) {
        Ok(raw) => {
            let mut raw = raw;
            let mut vals: Vec<Option<Value>> = Vec::new();
            while raw.len() > 0
                invariant
                    vals@.len() + raw@.len() == n,
                decreases raw@.len(),
            {
                vals.push(value_from_sql(raw.remove(0)));
            }
            match convert_by_schema(vals, schema) {
                Ok(row) => {
                    proof {
                        assert forall|i: int| 0 <= i < schema.columns@.len() implies (
                        #[trigger] row.deep_view()[i]).data_type() == schema.columns@[i].1 by {}
                    }
                    Ok(row)
                },
                Err(e) => Err(e),
            }
        },
        Err(e) => Err(error_by_scheme(schema, classify_failure(e), id)),
    }
}

/// Deletes the row with the given identity.
pub fn delete_row(conn: &rusqlite::Connection, id: ObjectId, schema: &Schema) -> (r: Result<
    (),
    Error,
>)
    requires
        schema.wf(),
    ensures
        r matches Err(e) ==> schema_scoped_error(e, *schema),
{
    let sql = delete_sql(schema);
    match db_execute(conn, &sql, id_params(id)) {
        Ok(_) => Ok(()),
        Err(e) => Err(error_by_scheme(schema, classify_failure(e), id)),
    }
}

/// Opens a transaction on the backend session.
pub fn begin(conn: &rusqlite::Connection) -> (r: Result<(), Error>)
    ensures
        r matches Err(e) ==> e is LockConflict || e is Storage,
{
    run_plain(conn, String::from_str("BEGIN"))
}

/// Commits the open backend transaction.
pub fn commit(conn: &rusqlite::Connection) -> (r: Result<(), Error>)
    ensures
        r matches Err(e) ==> e is LockConflict || e is Storage,
{
    run_plain(conn, String::from_str("COMMIT"))
}

/// Rolls the open backend transaction back.
pub fn rollback(conn: &rusqlite::Connection) -> (r: Result<(), Error>)
    ensures
        r matches Err(e) ==> e is LockConflict || e is Storage,
{
    run_plain(conn, String::from_str("ROLLBACK"))
}

/// Runs one parameterless statement whose failures carry no row or
/// column context.
fn run_plain(conn: &rusqlite::Connection, sql: String) -> (r: Result<(), Error>)
    ensures
        r matches Err(e) ==> e is LockConflict || e is Storage,
{
    match db_execute(conn, &sql, Vec::new()) {
        Ok(_) => Ok(()),
        Err(e) => Err(plain_error(classify_failure(e))),
    }
}

/// The column name an unknown-column message reports, when the message
/// is one: what follows the last occurrence of the needle, trimmed.
fn extract_missing_column(m: &String) -> (r: Option<String>)
    ensures
        match r {
            Some(name) => mentions_missing_column(m@) && name@ == missing_column_name(m@),
            None => !mentions_missing_column(m@),
        },
{
    let needle_resolve = "no such column:";
    let needle_insert = "has no column named";
    let s = m.as_str();
    let ml = s.unicode_len();
    match find_last(s, needle_resolve) {
        Some(p) => {
            let nl = needle_resolve.unicode_len();
            proof {
                crate::scan::lemma_last_match_unique(m@, needle_resolve@, p as int);
                assert(p + nl <= ml);
            }
            let tail = s.substring_char(p + nl, ml);
            Some(trim(tail))
        },
        None => match find_last(s, needle_insert) {
            Some(p) => {
                let nl = needle_insert.unicode_len();
                proof {
                    crate::scan::lemma_last_match_unique(m@, needle_insert@, p as int);
                    assert(p + nl <= ml);
                }
                let tail = s.substring_char(p + nl, ml);
                Some(trim(tail))
            },
            None => None,
        },
    }
}

} // verus!
