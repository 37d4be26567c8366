//! An object-relational layer's verified core: its data model, its schema
//! description, and the translation of storage errors into its own error
//! kinds. The storage calls themselves are I/O and live with the caller.

pub mod data;
pub mod error;
pub mod object;
pub mod query;

pub use data::{AsDataType, DataType, IntoDataType, ObjectId, SqlType};
pub use error::{MapErr, MissingColumnError, NotFoundError, OrmError, UnexpectedTypeError};
pub use object::{Attribute, ObjectState, Schema};
