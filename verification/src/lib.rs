//! A lightweight object-persistence layer: typed records are stored as rows
//! of tagged values in a relational backend, edited through handles inside a
//! transaction, and flushed to the store only at commit time.

pub mod data;
pub mod error;
pub mod object;
pub mod record;
pub mod scan;
pub mod storage;
pub mod transaction;

pub use data::DataType;
pub use data::ObjectId;
pub use data::Value;
pub use data::ValueConvert;
pub use error::Error;
pub use object::Object;
pub use object::Row;
pub use object::Schema;
pub use transaction::ObjectState;
pub use transaction::Transaction;
pub use transaction::Tx;
