//! The SQL text the storage layer speaks, computed from a schema. Each
//! builder's output is pinned character by character; sending the text to
//! the database is the caller's business.

use vstd::prelude::*;
use vstd::string::StringExecFns;
use crate::orm::data::{spec_sql_type, DataType, SqlType};
use crate::orm::object::{Attribute, Schema};

verus! {

/// The SQL name of the column type a field type is stored as.
pub open spec fn sql_name_chars(d: DataType) -> Seq<char> {
    match spec_sql_type(d) {
        SqlType::Text => ("TEXT")@,
        SqlType::Blob => ("BLOB")@,
        SqlType::BigInt => ("BIGINT")@,
        SqlType::Real => ("REAL")@,
        SqlType::TinyInt => ("TINYINT")@,
    }
}

/// The column definitions of a table-creation statement, one `, name TYPE`
/// clause per attribute.
pub open spec fn ddl_cols(attrs: Seq<Attribute>) -> Seq<char>
    decreases attrs.len(),
{
    if attrs.len() == 0 {
        Seq::empty()
    } else {
        ddl_cols(attrs.drop_last()) + (", ")@ + attrs.last().col_name@ + (" ")@ + sql_name_chars(
            attrs.last().data_type,
        )
    }
}

/// The text of the table-creation statement for a schema.
pub open spec fn create_table_text(schema: Schema) -> Seq<char> {
    ("CREATE TABLE \"")@ + schema.table_name@ + ("\" (id INTEGER PRIMARY KEY AUTOINCREMENT")@
        + ddl_cols(schema.attrs@) + (")")@
}

/// The table-creation statement for a schema: one column per attribute,
/// after a self-incrementing `id` primary key.
pub fn create_table_query(schema: &Schema) -> (q: String)
    ensures
        q@ == create_table_text(*schema),
{
    let mut q = String::new();
    q.append("CREATE TABLE \"");
    q.append(schema.table_name);
    q.append("\" (id INTEGER PRIMARY KEY AUTOINCREMENT");
    let n = schema.attrs.len();
    let mut i: usize = 0;
    proof {
        assert(schema.attrs@.subrange(0, 0) =~= Seq::<Attribute>::empty());
        assert(q@ =~= ("CREATE TABLE \"")@ + schema.table_name@ + (
        "\" (id INTEGER PRIMARY KEY AUTOINCREMENT")@ + ddl_cols(schema.attrs@.subrange(0, 0)));
    }
    while i < n
        invariant
            n == schema.attrs@.len(),
            i <= n,
            q@ == ("CREATE TABLE \"")@ + schema.table_name@ + (
            "\" (id INTEGER PRIMARY KEY AUTOINCREMENT")@ + ddl_cols(
                schema.attrs@.subrange(0, i as int),
            ),
        decreases n - i,
    {
        let attr = &schema.attrs[i];
        q.append(", ");
        q.append(attr.col_name);
        q.append(" ");
        let ty = attr.data_type.to_sql_type();
        let ty_name = ty.sql_name();
        q.append(ty_name);
        proof {
            let pre = schema.attrs@.subrange(0, i as int);
            let cur = schema.attrs@.subrange(0, i + 1);
            assert(cur.drop_last() =~= pre);
            assert(cur.last() == schema.attrs@[i as int]);
            assert(ty_name@ == sql_name_chars(attr.data_type));
            assert(q@ =~= ("CREATE TABLE \"")@ + schema.table_name@ + (
            "\" (id INTEGER PRIMARY KEY AUTOINCREMENT")@ + ddl_cols(cur));
        }
        i += 1;
    }
    q.append(")");
    proof {
        assert(schema.attrs@.subrange(0, n as int) =~= schema.attrs@);
        assert(q@ =~= create_table_text(*schema));
    }
    q
}


/// The column names of an insertion statement, comma-separated.
pub open spec fn insert_cols(attrs: Seq<Attribute>) -> Seq<char>
    decreases attrs.len(),
{
    if attrs.len() == 0 {
        Seq::empty()
    } else if attrs.len() == 1 {
        attrs.last().col_name@
    } else {
        insert_cols(attrs.drop_last()) + (",")@ + attrs.last().col_name@
    }
}

/// `n` parameter placeholders, comma-separated.
pub open spec fn placeholders(n: int) -> Seq<char>
    decreases n,
{
    if n <= 0 {
        Seq::empty()
    } else if n == 1 {
        ("?")@
    } else {
        placeholders(n - 1) + (",")@ + ("?")@
    }
}

/// The text of the insertion statement for a schema and a row width.
pub open spec fn insert_text(schema: Schema, row_len: int) -> Seq<char> {
    ("INSERT INTO ")@ + schema.table_name@ + ("(")@ + insert_cols(schema.attrs@) + (") VALUES(")@
        + placeholders(row_len) + (")")@
}

/// The insertion statement for a schema: every column by name, and one
/// placeholder per row value.
pub fn insert_query(schema: &Schema, row_len: usize) -> (q: String)
    ensures
        q@ == insert_text(*schema, row_len as int),
{
    let mut q = String::new();
    q.append("INSERT INTO ");
    q.append(schema.table_name);
    q.append("(");
    let n = schema.attrs.len();
    let mut i: usize = 0;
    proof {
        assert(schema.attrs@.subrange(0, 0) =~= Seq::<Attribute>::empty());
        assert(q@ =~= ("INSERT INTO ")@ + schema.table_name@ + ("(")@ + insert_cols(
            schema.attrs@.subrange(0, 0),
        ));
    }
    while i < n
        invariant
            n == schema.attrs@.len(),
            i <= n,
            q@ == ("INSERT INTO ")@ + schema.table_name@ + ("(")@ + insert_cols(
                schema.attrs@.subrange(0, i as int),
            ),
        decreases n - i,
    {
        if i > 0 {
            q.append(",");
        }
        q.append(schema.attrs[i].col_name);
        proof {
            let pre = schema.attrs@.subrange(0, i as int);
            let cur = schema.attrs@.subrange(0, i + 1);
            assert(cur.drop_last() =~= pre);
            assert(cur.last() == schema.attrs@[i as int]);
            assert(q@ =~= ("INSERT INTO ")@ + schema.table_name@ + ("(")@ + insert_cols(cur));
        }
        i += 1;
    }
    q.append(") VALUES(");
    let mut k: usize = 0;
    proof {
        assert(schema.attrs@.subrange(0, n as int) =~= schema.attrs@);
        assert(q@ =~= ("INSERT INTO ")@ + schema.table_name@ + ("(")@ + insert_cols(schema.attrs@)
            + (") VALUES(")@ + placeholders(0));
    }
    while k < row_len
        invariant
            k <= row_len,
            q@ == ("INSERT INTO ")@ + schema.table_name@ + ("(")@ + insert_cols(schema.attrs@) + (
            ") VALUES(")@ + placeholders(k as int),
        decreases row_len - k,
    {
        if k > 0 {
            q.append(",");
        }
        q.append("?");
        proof {
            assert(q@ =~= ("INSERT INTO ")@ + schema.table_name@ + ("(")@ + insert_cols(
                schema.attrs@,
            ) + (") VALUES(")@ + placeholders(k + 1));
        }
        k += 1;
    }
    q.append(")");
    proof {
        assert(q@ =~= insert_text(*schema, row_len as int));
    }
    q
}

/// The insertion statement for an empty row.
pub fn insert_default_query(schema: &Schema) -> (q: String)
    ensures
        q@ == ("INSERT INTO ")@ + schema.table_name@ + (" DEFAULT VALUES")@,
{
    let mut q = String::new();
    q.append("INSERT INTO ");
    q.append(schema.table_name);
    q.append(" DEFAULT VALUES");
    q
}

/// The assignments of an update statement, one `name = ?` per attribute,
/// comma-separated.
pub open spec fn update_cols(attrs: Seq<Attribute>) -> Seq<char>
    decreases attrs.len(),
{
    if attrs.len() == 0 {
        Seq::empty()
    } else if attrs.len() == 1 {
        attrs.last().col_name@ + (" = ?")@
    } else {
        update_cols(attrs.drop_last()) + (", ")@ + attrs.last().col_name@ + (" = ?")@
    }
}

/// The text of the whole-row update statement for a schema.
pub open spec fn update_text(schema: Schema) -> Seq<char> {
    ("UPDATE ")@ + schema.table_name@ + (" SET ")@ + update_cols(schema.attrs@) + (
    " WHERE id = ?")@
}

/// The whole-row update statement for a schema with at least one column:
/// one placeholder per column, and a final placeholder for the object id.
pub fn update_query(schema: &Schema) -> (q: String)
    requires
        schema.attrs@.len() > 0,
    ensures
        q@ == update_text(*schema),
{
    let mut q = String::new();
    q.append("UPDATE ");
    q.append(schema.table_name);
    q.append(" SET ");
    let n = schema.attrs.len();
    let mut i: usize = 0;
    proof {
        assert(schema.attrs@.subrange(0, 0) =~= Seq::<Attribute>::empty());
        assert(q@ =~= ("UPDATE ")@ + schema.table_name@ + (" SET ")@ + update_cols(
            schema.attrs@.subrange(0, 0),
        ));
    }
    while i < n
        invariant
            n == schema.attrs@.len(),
            i <= n,
            q@ == ("UPDATE ")@ + schema.table_name@ + (" SET ")@ + update_cols(
                schema.attrs@.subrange(0, i as int),
            ),
        decreases n - i,
    {
        if i > 0 {
            q.append(", ");
        }
        q.append(schema.attrs[i].col_name);
        q.append(" = ?");
        proof {
            let pre = schema.attrs@.subrange(0, i as int);
            let cur = schema.attrs@.subrange(0, i + 1);
            assert(cur.drop_last() =~= pre);
            assert(cur.last() == schema.attrs@[i as int]);
            assert(q@ =~= ("UPDATE ")@ + schema.table_name@ + (" SET ")@ + update_cols(cur));
        }
        i += 1;
    }
    q.append(" WHERE id = ?");
    proof {
        assert(schema.attrs@.subrange(0, n as int) =~= schema.attrs@);
        assert(q@ =~= update_text(*schema));
    }
    q
}

/// The selected columns of a whole-row query: the column names separated
/// by comma and space, or the constant `1` for a columnless schema.
pub open spec fn select_cols(attrs: Seq<Attribute>) -> Seq<char>
    decreases attrs.len(),
{
    if attrs.len() == 0 {
        ("1")@
    } else if attrs.len() == 1 {
        attrs.last().col_name@
    } else {
        select_cols(attrs.drop_last()) + (", ")@ + attrs.last().col_name@
    }
}

/// The text of the whole-row selection statement for a schema.
pub open spec fn select_text(schema: Schema) -> Seq<char> {
    ("SELECT ")@ + select_cols(schema.attrs@) + (" FROM \"")@ + schema.table_name@ + (
    "\" WHERE id = ?")@
}

/// The whole-row selection statement for a schema.
pub fn select_query(schema: &Schema) -> (q: String)
    ensures
        q@ == select_text(*schema),
{
    let mut q = String::new();
    q.append("SELECT ");
    let n = schema.attrs.len();
    if n == 0 {
        q.append("1");
        proof {
            assert(q@ =~= ("SELECT ")@ + select_cols(schema.attrs@));
        }
    } else {
        q.append(schema.attrs[0].col_name);
        let mut i: usize = 1;
        proof {
            assert(schema.attrs@.subrange(0, 1).drop_last() =~= Seq::<Attribute>::empty());
            assert(schema.attrs@.subrange(0, 1).last() == schema.attrs@[0]);
            assert(q@ =~= ("SELECT ")@ + select_cols(schema.attrs@.subrange(0, 1)));
        }
        while i < n
            invariant
                n == schema.attrs@.len(),
                1 <= i <= n,
                q@ == ("SELECT ")@ + select_cols(schema.attrs@.subrange(0, i as int)),
            decreases n - i,
        {
            q.append(", ");
            q.append(schema.attrs[i].col_name);
            proof {
                let pre = schema.attrs@.subrange(0, i as int);
                let cur = schema.attrs@.subrange(0, i + 1);
                assert(cur.drop_last() =~= pre);
                assert(cur.last() == schema.attrs@[i as int]);
                assert(q@ =~= ("SELECT ")@ + select_cols(cur));
            }
            i += 1;
        }
        proof {
            assert(schema.attrs@.subrange(0, n as int) =~= schema.attrs@);
        }
    }
    q.append(" FROM \"");
    q.append(schema.table_name);
    q.append("\" WHERE id = ?");
    proof {
        assert(q@ =~= select_text(*schema));
    }
    q
}

/// The deletion statement for a schema.
pub fn delete_query(schema: &Schema) -> (q: String)
    ensures
        q@ == ("DELETE FROM ")@ + schema.table_name@ + (" WHERE id = ?")@,
{
    let mut q = String::new();
    q.append("DELETE FROM ");
    q.append(schema.table_name);
    q.append(" WHERE id = ?");
    q
}

} // verus!
