//! The closed set of domain errors, and the translation of raw backend
//! failures plus contextual metadata into exactly one of them.

use vstd::prelude::*;

use crate::data::{DataType, ObjectId};
use crate::scan::{extracted_after, has_match};

verus! {

/// A record was looked up by identity and no row matched.
#[derive(Clone, Debug)]
pub struct NotFoundError {
    pub object_id: ObjectId,
    pub record_name: String,
}

/// A stored column value carries a different type than the descriptor
/// declares for that column.
#[derive(Clone, Debug)]
pub struct UnexpectedTypeError {
    pub record_name: String,
    pub attr_name: String,
    pub table_name: String,
    pub column_name: String,
    pub expected_type: DataType,
    pub got_type: String,
}

/// The descriptor declares a column that the stored table does not have.
#[derive(Clone, Debug)]
pub struct MissingColumnError {
    pub record_name: String,
    pub attr_name: String,
    pub table_name: String,
    pub column_name: String,
}

/// The closed error taxonomy every failure is classified into.
#[derive(Clone, Debug)]
pub enum Error {
    NotFound(NotFoundError),
    UnexpectedType(UnexpectedTypeError),
    MissingColumn(MissingColumnError),
    LockConflict,
    /// Any other backend failure, with its message text when one exists.
    Storage(Option<String>),
}

/// A raw backend failure, reduced to the discriminable kinds the
/// execution interface can report.
#[derive(Debug)]
pub enum BackendFailure {
    /// A read expected a row and none matched.
    NoRows,
    /// The value of the column at `index` could not be read as requested;
    /// `got` describes the storage class actually found.
    BadColumnType { index: usize, got: String },
    /// The backend is transiently busy or locked.
    Busy,
    /// Any other failure, with the backend's message when one exists.
    Failed { message: Option<String> },
}

/// The needle the backend puts in front of an unknown column it had to
/// resolve.
pub open spec fn missing_needle_resolve() -> Seq<char> {
    "no such column:"@
}

/// The needle the backend puts in front of an unknown column named in an
/// insert.
pub open spec fn missing_needle_insert() -> Seq<char> {
    "has no column named"@
}

/// Whether a backend message reports an unknown column.
pub open spec fn mentions_missing_column(msg: Seq<char>) -> bool {
    has_match(msg, missing_needle_resolve()) || has_match(msg, missing_needle_insert())
}

/// The column name a backend message reports as unknown: what follows
/// the last occurrence of the needle, trimmed.
pub open spec fn missing_column_name(msg: Seq<char>) -> Seq<char> {
    if has_match(msg, missing_needle_resolve()) {
        extracted_after(msg, missing_needle_resolve())
    } else {
        extracted_after(msg, missing_needle_insert())
    }
}

pub open spec fn opt_str_view(o: Option<String>) -> Option<Seq<char>> {
    match o {
        Some(s) => Some(s@),
        None => None,
    }
}

/// The error is NotFound and names the given identity and record.
pub open spec fn is_not_found(e: Error, id: ObjectId, record: Seq<char>) -> bool {
    match e {
        Error::NotFound(nf) => nf.object_id == id && nf.record_name@ == record,
        _ => false,
    }
}

/// The error is UnexpectedType and carries the full column context.
pub open spec fn is_unexpected_type(
    e: Error,
    record: Seq<char>,
    attr: Seq<char>,
    table: Seq<char>,
    column: Seq<char>,
    expected: DataType,
    got: Seq<char>,
) -> bool {
    match e {
        Error::UnexpectedType(u) => u.record_name@ == record && u.attr_name@ == attr
            && u.table_name@ == table && u.column_name@ == column && u.expected_type == expected
            && u.got_type@ == got,
        _ => false,
    }
}

/// The error is MissingColumn and carries the full column context.
pub open spec fn is_missing_column(
    e: Error,
    record: Seq<char>,
    attr: Seq<char>,
    table: Seq<char>,
    column: Seq<char>,
) -> bool {
    match e {
        Error::MissingColumn(m) => m.record_name@ == record && m.attr_name@ == attr
            && m.table_name@ == table && m.column_name@ == column,
        _ => false,
    }
}

/// The error is the Storage catch-all wrapping the given message.
pub open spec fn is_storage(e: Error, msg: Option<Seq<char>>) -> bool {
    match e {
        Error::Storage(m) => opt_str_view(m) == msg,
        _ => false,
    }
}

/// Contextual metadata attached to a backend failure before translation:
/// which identity, record, attribute, table, column and types were
/// involved, as far as the failing operation knows them.
pub struct ErrorCtx {
    pub object_id: Option<ObjectId>,
    pub record_name: Option<String>,
    pub attr_name: Option<String>,
    pub table_name: Option<String>,
    pub column_name: Option<String>,
    pub expected_type: Option<DataType>,
    pub got_type: Option<String>,
}

impl Default for ErrorCtx {
    /// A context with nothing attached.
    fn default() -> (r: Self)
        ensures
            r.object_id is None,
            r.record_name is None,
            r.attr_name is None,
            r.table_name is None,
            r.column_name is None,
            r.expected_type is None,
            r.got_type is None,
    {
        ErrorCtx {
            object_id: None,
            record_name: None,
            attr_name: None,
            table_name: None,
            column_name: None,
            expected_type: None,
            got_type: None,
        }
    }
}

impl ErrorCtx {
    /// The context a failed lookup attaches: identity and record name.
    pub fn not_found(object_id: ObjectId, record_name: String) -> (r: Self)
        ensures
            r.object_id == Some(object_id),
            r.record_name == Some(record_name),
            r.attr_name is None,
            r.table_name is None,
            r.column_name is None,
            r.expected_type is None,
            r.got_type is None,
    {
        ErrorCtx {
            object_id: Some(object_id),
            record_name: Some(record_name),
            attr_name: None,
            table_name: None,
            column_name: None,
            expected_type: None,
            got_type: None,
        }
    }
}

/// A raw backend failure together with its attached context.
pub struct ErrorWithCtx<E> {
    pub error: E,
    pub ctx: ErrorCtx,
}

impl<E> ErrorWithCtx<E> {
    pub fn new(error: E, ctx: ErrorCtx) -> (r: Self)
        ensures
            r.error == error,
            r.ctx == ctx,
    {
        ErrorWithCtx { error, ctx }
    }
}

impl Error {
    /// Classifies a raw backend failure, given the context the failing
    /// operation attached, into exactly one member of the taxonomy.
    ///
    /// The context must hold whatever the failure kind needs: identity
    /// and record name for a missed read, the full column context for a
    /// column type mismatch or an unknown-column message.
    pub fn from_backend(err: ErrorWithCtx<BackendFailure>) -> (e: Error)
        requires
            err.error is NoRows ==> err.ctx.object_id is Some && err.ctx.record_name is Some,
            err.error is BadColumnType ==> err.ctx.record_name is Some
                && err.ctx.attr_name is Some && err.ctx.table_name is Some
                && err.ctx.column_name is Some && err.ctx.expected_type is Some
                && err.ctx.got_type is Some,
            (err.error matches BackendFailure::Failed { message: Some(m) }
                && mentions_missing_column(m@)) ==> err.ctx.record_name is Some
                && err.ctx.attr_name is Some && err.ctx.table_name is Some
                && err.ctx.column_name is Some,
        ensures
            err.error is NoRows ==> is_not_found(
                e,
                err.ctx.object_id->Some_0,
                err.ctx.record_name->Some_0@,
            ),
            err.error is BadColumnType ==> is_unexpected_type(
                e,
                err.ctx.record_name->Some_0@,
                err.ctx.attr_name->Some_0@,
                err.ctx.table_name->Some_0@,
                err.ctx.column_name->Some_0@,
                err.ctx.expected_type->Some_0,
                err.ctx.got_type->Some_0@,
            ),
            err.error is Busy ==> e is LockConflict,
            (err.error matches BackendFailure::Failed { message: Some(m) }
                && mentions_missing_column(m@)) ==> is_missing_column(
                e,
                err.ctx.record_name->Some_0@,
                err.ctx.attr_name->Some_0@,
                err.ctx.table_name->Some_0@,
                err.ctx.column_name->Some_0@,
            ),
            err.error matches BackendFailure::Failed { message } ==> (if !(
            message matches Some(m)
                && mentions_missing_column(m@)) {
                is_storage(e, opt_str_view(message))
            } else {
                true
            }),
    {
        let ErrorWithCtx { error, ctx } = err;
        match error {
            BackendFailure::NoRows => Error::NotFound(NotFoundError {
                object_id: ctx.object_id.unwrap(),
                record_name: ctx.record_name.unwrap(),
            }),
            BackendFailure::BadColumnType { index: _, got: _ } => Error::UnexpectedType(
                UnexpectedTypeError {
                    record_name: ctx.record_name.unwrap(),
                    attr_name: ctx.attr_name.unwrap(),
                    table_name: ctx.table_name.unwrap(),
                    column_name: ctx.column_name.unwrap(),
                    expected_type: ctx.expected_type.unwrap(),
                    got_type: ctx.got_type.unwrap(),
                },
            ),
            BackendFailure::Busy => Error::LockConflict,
            BackendFailure::Failed { message } => match message {
                Some(m) => {
                    if crate::scan::contains(m.as_str(), "no such column:") || crate::scan::contains(
                        m.as_str(),
                        "has no column named",
                    ) {
                        Error::MissingColumn(MissingColumnError {
                            record_name: ctx.record_name.unwrap(),
                            attr_name: ctx.attr_name.unwrap(),
                            table_name: ctx.table_name.unwrap(),
                            column_name: ctx.column_name.unwrap(),
                        })
                    } else {
                        Error::Storage(Some(m))
                    }
                },
                None => Error::Storage(None),
            },
        }
    }
}

} // verus!
