//! The error kinds, and the translation of storage-level failures into
//! them.
//! The storage engine's error values are opaque here: one boundary
//! function sorts them into plain classes, and everything after that is
//! verified against an exact specification.

use vstd::prelude::*;
use vstd::slice::slice_subrange;
use vstd::string::StringSliceAdditionalSpecFns;
use crate::orm::data::{DataType, ObjectId};
use crate::orm::object::{attr_index_by_col, lemma_attr_index_by_col, Schema};
use crate::search::{find_from, find_subslice, trim_bytes, trim_slice};

verus! {

/// A stored object was not found.
pub struct NotFoundError {
    pub object_id: ObjectId,
    pub type_label: &'static str,
}

/// A column held a value of an unexpected type.
pub struct UnexpectedTypeError {
    pub type_label: &'static str,
    pub attr_name: &'static str,
    pub table_name: &'static str,
    pub column_name: &'static str,
    pub expected_type: DataType,
    pub got_type: String,
}

/// A column that the schema expects is missing from the table.
pub struct MissingColumnError {
    pub type_label: &'static str,
    pub attr_name: &'static str,
    pub table_name: &'static str,
    pub column_name: &'static str,
}

/// Why a storage operation failed.
pub enum OrmError {
    NotFound(Box<NotFoundError>),
    UnexpectedType(Box<UnexpectedTypeError>),
    MissingColumn(Box<MissingColumnError>),
    LockConflict,
    Storage(String),
}

/// The storage engine's failures, sorted into plain classes: a low-level
/// failure with its message, a column whose value had the wrong type (with
/// the column index and the name of the type found), a query that returned
/// no rows, or anything else with its message.
pub enum SqliteErrorKind {
    Failure(Option<String>),
    InvalidColumnType(usize, String),
    NoRows,
    Other(String),
}

#[verifier::external_type_specification]
#[verifier::external_body]
pub struct ExRusqliteError(rusqlite::Error);

/// Relies on `rusqlite::Error`: each arm tells one variant of that enum
/// apart and moves its fields out, rendering `rusqlite::types::Type` and
/// unclassified errors through their display text.
#[verifier::external_body]
fn classify_sqlite_error(err: rusqlite::Error) -> SqliteErrorKind {
    match err {
        rusqlite::Error::SqliteFailure(_, msg) => SqliteErrorKind::Failure(msg),
        rusqlite::Error::InvalidColumnType(i, _, ty) => SqliteErrorKind::InvalidColumnType(
            i,
            ty.to_string(),
        ),
        rusqlite::Error::QueryReturnedNoRows => SqliteErrorKind::NoRows,
        other => SqliteErrorKind::Other(format!("{other}")),
    }
}

/// The missing-column report extracted from one prefix: the column name is
/// whatever follows the prefix's first occurrence, trimmed, looked up in
/// the schema.
pub open spec fn spec_attr_from_prefix(
    bytes: Seq<u8>,
    prefix: Seq<u8>,
    schema: Schema,
) -> Option<MissingColumnError> {
    let pos = find_from(bytes, prefix, 0);
    let col = trim_bytes(bytes.subrange(pos + prefix.len(), bytes.len() as int));
    let i = attr_index_by_col(schema.attrs@, col);
    if i >= 0 {
        Some(
            MissingColumnError {
                type_label: schema.type_label,
                attr_name: schema.attrs@[i].name,
                table_name: schema.table_name,
                column_name: schema.attrs@[i].col_name,
            },
        )
    } else {
        None
    }
}

/// What a missing-column message means against a schema: the first of the
/// two known message shapes that occurs decides, and the named column must
/// belong to the schema.
pub open spec fn spec_try_from_msg(bytes: Seq<u8>, schema: Schema) -> Option<MissingColumnError> {
    if find_from(bytes, ("no such column: ").spec_bytes(), 0) >= 0 {
        spec_attr_from_prefix(bytes, ("no such column: ").spec_bytes(), schema)
    } else if find_from(bytes, ("has no column named").spec_bytes(), 0) >= 0 {
        spec_attr_from_prefix(bytes, ("has no column named").spec_bytes(), schema)
    } else {
        None
    }
}

/// The attribute lookup behind `spec_attr_from_prefix`, executable form.
fn attr_from_suffix(bytes: &[u8], start: usize, schema: &Schema) -> (r: Option<
    MissingColumnError,
>)
    requires
        start <= bytes@.len(),
    ensures
        ({
            let col = trim_bytes(bytes@.subrange(start as int, bytes@.len() as int));
            let i = attr_index_by_col(schema.attrs@, col);
            &&& i >= 0 ==> (r matches Some(e) && e.type_label == schema.type_label && e.attr_name
                == schema.attrs@[i].name && e.table_name == schema.table_name && e.column_name
                == schema.attrs@[i].col_name)
            &&& i < 0 ==> r is None
        }),
{
    let suffix = slice_subrange(bytes, start, bytes.len());
    let col = trim_slice(suffix);
    proof {
        lemma_attr_index_by_col(schema.attrs@, col@);
    }
    let n = schema.attrs.len();
    let mut i: usize = 0;
    while i < n
        invariant
            n == schema.attrs@.len(),
            i <= n,
            start <= bytes@.len(),
            col@ == trim_bytes(bytes@.subrange(start as int, bytes@.len() as int)),
            forall|j: int| 0 <= j < i ==> (#[trigger] schema.attrs@[j]).col_name.spec_bytes()
                != col@,
            ({
                let idx = attr_index_by_col(schema.attrs@, col@);
                &&& idx >= 0 ==> 0 <= idx < n && schema.attrs@[idx].col_name.spec_bytes() == col@
                    && (forall|j: int|
                    0 <= j < idx ==> (#[trigger] schema.attrs@[j]).col_name.spec_bytes() != col@)
                &&& idx < 0 ==> forall|j: int|
                    0 <= j < n ==> (#[trigger] schema.attrs@[j]).col_name.spec_bytes() != col@
            }),
        decreases n - i,
    {
        if crate::search::eq_bytes(schema.attrs[i].col_name.as_bytes(), col) {
            return Some(
                MissingColumnError {
                    type_label: schema.type_label,
                    attr_name: schema.attrs[i].name,
                    table_name: schema.table_name,
                    column_name: schema.attrs[i].col_name,
                },
            );
        }
        i += 1;
    }
    None
}

impl MissingColumnError {
    /// Read a missing-column report out of a storage error message, if the
    /// message has one of the two known shapes and names a column of the
    /// schema.
    pub fn try_from_msg(msg: &str, schema: &Schema) -> (r: Option<MissingColumnError>)
        ensures
            match spec_try_from_msg(msg.spec_bytes(), *schema) {
                Some(e) => r matches Some(e2) && e2.type_label == e.type_label && e2.attr_name
                    == e.attr_name && e2.table_name == e.table_name && e2.column_name
                    == e.column_name,
                None => r is None,
            },
    {
        let bytes = msg.as_bytes();
        let total = bytes.len();
        let p1 = "no such column: ".as_bytes();
        let p2 = "has no column named".as_bytes();
        match find_subslice(bytes, p1) {
            Some(pos) => {
                proof {
                    assert(crate::search::is_match_at(bytes@, p1@, pos as int));
                    assert(pos + p1@.len() <= total);
                }
                attr_from_suffix(bytes, pos + p1.len(), schema)
            },
            None => match find_subslice(bytes, p2) {
                Some(pos) => {
                    proof {
                        assert(crate::search::is_match_at(bytes@, p2@, pos as int));
                        assert(pos + p2@.len() <= total);
                    }
                    attr_from_suffix(bytes, pos + p2.len(), schema)
                },
                None => None,
            },
        }
    }
}

/// The UTF-8 bytes of an owned string.
pub open spec fn string_bytes(s: String) -> Seq<u8> {
    vstd::utf8::encode_utf8(s@)
}

/// A wrong-typed column report against a schema position.
pub open spec fn spec_unexpected(schema: Schema, i: int, got: String) -> UnexpectedTypeError {
    UnexpectedTypeError {
        type_label: schema.type_label,
        attr_name: schema.attrs@[i].name,
        table_name: schema.table_name,
        column_name: schema.attrs@[i].col_name,
        expected_type: schema.attrs@[i].data_type,
        got_type: got,
    }
}

/// The library error that one classified column-access failure maps to: a
/// low-level failure with a recognizable missing-column message becomes a
/// missing-column report; a wrong-typed column within the schema's range
/// becomes an unexpected-type report; everything else is carried as a
/// storage message.
pub open spec fn column_error_matches(k: SqliteErrorKind, schema: Schema, r: OrmError) -> bool {
    match k {
        SqliteErrorKind::Failure(msg) => match msg {
            Some(m) => match spec_try_from_msg(string_bytes(m), schema) {
                Some(e) => r matches OrmError::MissingColumn(e2) && *e2 == e,
                None => r matches OrmError::Storage(m2) && m2@ == m@,
            },
            None => r matches OrmError::Storage(m2) && m2@ == Seq::<char>::empty(),
        },
        SqliteErrorKind::InvalidColumnType(i, got) => {
            if i < schema.attrs@.len() {
                r matches OrmError::UnexpectedType(e2) && *e2 == spec_unexpected(
                    schema,
                    i as int,
                    got,
                )
            } else {
                r matches OrmError::Storage(m2) && m2@ == got@
            }
        },
        SqliteErrorKind::NoRows => r matches OrmError::Storage(m2) && m2@ == (
        "query returned no rows")@,
        SqliteErrorKind::Other(m) => r matches OrmError::Storage(m2) && m2@ == m@,
    }
}

/// Translate one classified column-access failure.
pub fn column_error_from_kind(k: SqliteErrorKind, schema: &Schema) -> (r: OrmError)
    ensures
        column_error_matches(k, *schema, r),
{
    match k {
        SqliteErrorKind::Failure(msg) => match msg {
            Some(m) => match MissingColumnError::try_from_msg(m.as_str(), schema) {
                Some(e) => OrmError::MissingColumn(Box::new(e)),
                None => OrmError::Storage(m),
            },
            None => OrmError::Storage(String::new()),
        },
        SqliteErrorKind::InvalidColumnType(i, got) => {
            if i < schema.attrs.len() {
                OrmError::UnexpectedType(
                    Box::new(
                        UnexpectedTypeError {
                            type_label: schema.type_label,
                            attr_name: schema.attrs[i].name,
                            table_name: schema.table_name,
                            column_name: schema.attrs[i].col_name,
                            expected_type: schema.attrs[i].data_type,
                            got_type: got,
                        },
                    ),
                )
            } else {
                OrmError::Storage(got)
            }
        },
        SqliteErrorKind::NoRows => OrmError::Storage("query returned no rows".to_owned()),
        SqliteErrorKind::Other(m) => OrmError::Storage(m),
    }
}

/// The library error that one classified whole-row failure maps to: the
/// same as a column failure, except that a query returning no rows becomes
/// a not-found report for the requested object.
pub open spec fn table_error_matches(
    k: SqliteErrorKind,
    schema: Schema,
    id: ObjectId,
    r: OrmError,
) -> bool {
    match k {
        SqliteErrorKind::NoRows => r matches OrmError::NotFound(e2) && e2.object_id == id
            && e2.type_label == schema.type_label,
        _ => column_error_matches(k, schema, r),
    }
}

/// Translate one classified whole-row failure.
pub fn table_error_from_kind(k: SqliteErrorKind, schema: &Schema, id: ObjectId) -> (r: OrmError)
    ensures
        table_error_matches(k, *schema, id, r),
{
    match k {
        SqliteErrorKind::NoRows => OrmError::NotFound(
            Box::new(NotFoundError { object_id: id, type_label: schema.type_label }),
        ),
        other => column_error_from_kind(other, schema),
    }
}

/// Map storage-level results into the library's error kinds.
pub trait MapErr<T>: Sized {
    /// Translate the error of a column access.
    fn map_col_err(self, schema: &Schema) -> Result<T, OrmError>;

    /// Translate the error of a whole-row access against an object.
    fn map_table_err(self, schema: &Schema, id: ObjectId) -> Result<T, OrmError>;
}

impl<T> MapErr<T> for Result<T, rusqlite::Error> {
    /// A success passes through; a failure is classified and translated.
    fn map_col_err(self, schema: &Schema) -> (r: Result<T, OrmError>)
        ensures
            self matches Ok(v) ==> (r matches Ok(v2) && v2 == v),
            self is Err ==> (r matches Err(e) && exists|k: SqliteErrorKind|
                column_error_matches(k, *schema, e)),
    {
        match self {
            Ok(v) => Ok(v),
            Err(err) => {
                let kind = classify_sqlite_error(err);
                let ghost k = kind;
                let e = column_error_from_kind(kind, schema);
                proof {
                    assert(column_error_matches(k, *schema, e));
                }
                Err(e)
            },
        }
    }

    /// A success passes through; a failure is classified and translated,
    /// with a no-rows answer reported as the object not being found.
    fn map_table_err(self, schema: &Schema, id: ObjectId) -> (r: Result<T, OrmError>)
        ensures
            self matches Ok(v) ==> (r matches Ok(v2) && v2 == v),
            self is Err ==> (r matches Err(e) && exists|k: SqliteErrorKind|
                table_error_matches(k, *schema, id, e)),
    {
        match self {
            Ok(v) => Ok(v),
            Err(err) => {
                let kind = classify_sqlite_error(err);
                let ghost k = kind;
                let e = table_error_from_kind(kind, schema, id);
                proof {
                    assert(table_error_matches(k, *schema, id, e));
                }
                Err(e)
            },
        }
    }
}

} // verus!
