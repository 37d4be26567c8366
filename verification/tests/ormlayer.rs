use chipkit::orm::query::{
    create_table_query, delete_query, insert_default_query, insert_query, select_query,
    update_query,
};
use chipkit::orm::{
    AsDataType, Attribute, DataType, MapErr, MissingColumnError, ObjectId, ObjectState, OrmError,
    Schema, SqlType,
};

fn sample_schema() -> Schema {
    Schema {
        type_label: "User",
        table_name: "users",
        attrs: &[
            Attribute { name: "name", col_name: "user_name", data_type: DataType::String },
            Attribute { name: "age", col_name: "age", data_type: DataType::Int64 },
        ],
    }
}

#[test]
fn object_ids_convert_losslessly() {
    let id = ObjectId::from(42i64);
    assert_eq!(*id.as_i64(), 42);
    assert_eq!(id.into_i64(), 42);
    assert_eq!(ObjectId::from(-7).into_i64(), -7);
}

#[test]
fn data_types_map_to_sql_types() {
    assert_eq!(DataType::String.to_sql_type(), SqlType::Text);
    assert_eq!(DataType::Bytes.to_sql_type(), SqlType::Blob);
    assert_eq!(DataType::Int64.to_sql_type(), SqlType::BigInt);
    assert_eq!(DataType::Float64.to_sql_type(), SqlType::Real);
    assert_eq!(DataType::Bool.to_sql_type(), SqlType::TinyInt);
    assert_eq!(SqlType::Text.sql_name(), "TEXT");
    assert_eq!(SqlType::Blob.sql_name(), "BLOB");
    assert_eq!(SqlType::BigInt.sql_name(), "BIGINT");
    assert_eq!(SqlType::Real.sql_name(), "REAL");
    assert_eq!(SqlType::TinyInt.sql_name(), "TINYINT");
}

#[test]
fn field_types_know_their_column_type() {
    assert_eq!(String::data_type(), DataType::String);
    assert_eq!(Vec::<u8>::data_type(), DataType::Bytes);
    assert_eq!(i64::data_type(), DataType::Int64);
    assert_eq!(bool::data_type(), DataType::Bool);
}

#[test]
fn schema_lookup_finds_attributes_by_column() {
    let schema = sample_schema();
    let a = schema.find_attr_by_col("age").unwrap();
    assert_eq!(a.name, "age");
    let n = schema.find_attr_by_col("user_name").unwrap();
    assert_eq!(n.name, "name");
    assert!(schema.find_attr_by_col("missing").is_none());
}

#[test]
fn missing_column_reports_parse_out_of_messages() {
    let schema = sample_schema();
    let e = MissingColumnError::try_from_msg("no such column: user_name", &schema).unwrap();
    assert_eq!(e.attr_name, "name");
    assert_eq!(e.column_name, "user_name");
    assert_eq!(e.table_name, "users");
    assert_eq!(e.type_label, "User");

    let e = MissingColumnError::try_from_msg("table users has no column named age ", &schema)
        .unwrap();
    assert_eq!(e.attr_name, "age");

    assert!(MissingColumnError::try_from_msg("no such column: other", &schema).is_none());
    assert!(MissingColumnError::try_from_msg("some other failure", &schema).is_none());
}

#[test]
fn ok_results_pass_through_untranslated() {
    let schema = sample_schema();
    let r: Result<u32, rusqlite::Error> = Ok(5);
    assert!(matches!(r.map_col_err(&schema), Ok(5)));
    let r: Result<u32, rusqlite::Error> = Ok(6);
    assert!(matches!(r.map_table_err(&schema, ObjectId::from(1)), Ok(6)));
}

#[test]
fn missing_row_becomes_not_found_for_the_requested_object() {
    let schema = sample_schema();
    let r: Result<u32, rusqlite::Error> = Err(rusqlite::Error::QueryReturnedNoRows);
    match r.map_table_err(&schema, ObjectId::from(9)) {
        Err(OrmError::NotFound(e)) => {
            assert_eq!(e.object_id.into_i64(), 9);
            assert_eq!(e.type_label, "User");
        }
        other => panic!("unexpected: {:?}", other.is_ok()),
    }
}

#[test]
fn wrong_column_type_becomes_unexpected_type() {
    let schema = sample_schema();
    let r: Result<u32, rusqlite::Error> = Err(rusqlite::Error::InvalidColumnType(
        1,
        "age".to_string(),
        rusqlite::types::Type::Text,
    ));
    match r.map_col_err(&schema) {
        Err(OrmError::UnexpectedType(e)) => {
            assert_eq!(e.attr_name, "age");
            assert_eq!(e.column_name, "age");
            assert_eq!(e.expected_type, DataType::Int64);
            assert_eq!(e.got_type, "Text");
        }
        other => panic!("unexpected: {:?}", other.is_ok()),
    }
}

#[test]
fn sqlite_failure_with_recognized_message_becomes_missing_column() {
    let schema = sample_schema();
    let err = rusqlite::Error::SqliteFailure(
        rusqlite::ffi::Error::new(1),
        Some("no such column: age".to_string()),
    );
    let r: Result<u32, rusqlite::Error> = Err(err);
    match r.map_col_err(&schema) {
        Err(OrmError::MissingColumn(e)) => {
            assert_eq!(e.attr_name, "age");
            assert_eq!(e.column_name, "age");
        }
        other => panic!("unexpected: {:?}", other.is_ok()),
    }
}

#[test]
fn unclassified_errors_are_carried_as_storage_messages() {
    let schema = sample_schema();
    let r: Result<u32, rusqlite::Error> = Err(rusqlite::Error::ExecuteReturnedResults);
    assert!(matches!(r.map_col_err(&schema), Err(OrmError::Storage(_))));
    let r: Result<u32, rusqlite::Error> = Err(rusqlite::Error::QueryReturnedNoRows);
    assert!(matches!(r.map_col_err(&schema), Err(OrmError::Storage(_))));
}

#[test]
fn object_states_compare() {
    assert_eq!(ObjectState::Clean, ObjectState::Clean);
    assert_ne!(ObjectState::Clean, ObjectState::Removed);
    assert_ne!(ObjectState::Modified, ObjectState::Removed);
}

#[test]
fn query_builders_produce_the_exact_statements() {
    let schema = sample_schema();
    assert_eq!(
        create_table_query(&schema),
        "CREATE TABLE \"users\" (id INTEGER PRIMARY KEY AUTOINCREMENT, user_name TEXT, age BIGINT)"
    );
    assert_eq!(insert_query(&schema, 2), "INSERT INTO users(user_name,age) VALUES(?,?)");
    assert_eq!(insert_default_query(&schema), "INSERT INTO users DEFAULT VALUES");
    assert_eq!(update_query(&schema), "UPDATE users SET user_name = ?, age = ? WHERE id = ?");
    assert_eq!(select_query(&schema), "SELECT user_name, age FROM \"users\" WHERE id = ?");
    assert_eq!(delete_query(&schema), "DELETE FROM users WHERE id = ?");
    let empty = Schema { type_label: "Unit", table_name: "units", attrs: &[] };
    assert_eq!(select_query(&empty), "SELECT 1 FROM \"units\" WHERE id = ?");
}
