use granite_adapter::json::legacy_metadata;
use granite_adapter::json::metadata_json;
use granite_adapter::metadata::parse_legacy_metadata;
use granite_adapter::schema::parse_legacy_column;
use granite_adapter::schema::parse_legacy_fk;
use granite_adapter::schema::parse_legacy_index;

fn as_value(text: &str) -> serde_json::Value {
    serde_json::from_str(text).unwrap()
}

#[test]
fn parses_empty_dump() {
    let json = legacy_metadata("No tables defined\n").unwrap();
    assert_eq!(json, "{\"tables\":[]}");
}

#[test]
fn parses_basic_table() {
    let dump = "Table users (3 row(s))\n  - id INT NOT NULL PRIMARY KEY\n  - name VARCHAR(50)\n";
    let json = legacy_metadata(dump).unwrap();
    let expected = as_value(
        "{\"tables\":[{\"name\":\"users\",\"rowCount\":3,\"columns\":[\
         {\"name\":\"id\",\"type\":\"INT\",\"notNull\":true,\"pk\":true},\
         {\"name\":\"name\",\"type\":\"VARCHAR(50)\",\"notNull\":false,\"pk\":false}]}]}",
    );
    assert_eq!(as_value(&json), expected);
}

#[test]
fn parses_zero_row_table() {
    let dump = "Table people (0 row(s))\n  - id INT PRIMARY KEY\n";
    let json = legacy_metadata(dump).unwrap();
    let expected = as_value(
        "{\"tables\":[{\"name\":\"people\",\"rowCount\":0,\"columns\":[\
         {\"name\":\"id\",\"type\":\"INT\",\"notNull\":false,\"pk\":true}]}]}",
    );
    assert_eq!(as_value(&json), expected);
}

#[test]
fn parses_indexes_and_foreign_keys() {
    let dump = "Table orders (1 row(s))\n  - id INT PRIMARY KEY\n  - customer_id INT NOT NULL\n  Indexes:\n    - idx_orders_customer (customer_id) UNIQUE\n  Foreign Keys:\n    - fk_orders_customer (customer_id) REFERENCES customers(id)\n";
    let json = legacy_metadata(dump).unwrap();
    let expected = as_value(
        "{\"tables\":[{\"name\":\"orders\",\"rowCount\":1,\"columns\":[\
         {\"name\":\"id\",\"type\":\"INT\",\"notNull\":false,\"pk\":true},\
         {\"name\":\"customer_id\",\"type\":\"INT\",\"notNull\":true,\"pk\":false}],\
         \"indexes\":[{\"name\":\"idx_orders_customer\",\"columns\":[\"customer_id\"],\"unique\":true}],\
         \"fks\":[{\"name\":\"fk_orders_customer\",\"columns\":[\"customer_id\"],\
         \"refTable\":\"customers\",\"refColumns\":[\"id\"]}]}]}",
    );
    assert_eq!(as_value(&json), expected);
}

#[test]
fn sentinel_short_circuits_after_tables() {
    let dump = "Table users (3 row(s))\n  - id INT\nNo tables defined\n";
    let json = legacy_metadata(dump).unwrap();
    assert_eq!(json, "{\"tables\":[]}");
}

#[test]
fn column_flags_in_either_order() {
    let a = parse_legacy_column("x INT PRIMARY KEY NOT NULL").unwrap();
    let b = parse_legacy_column("x INT NOT NULL PRIMARY KEY").unwrap();
    assert_eq!(a.name, "x");
    assert_eq!(a.column_type, "INT");
    assert!(a.not_null && a.primary);
    assert_eq!(b.name, "x");
    assert_eq!(b.column_type, "INT");
    assert!(b.not_null && b.primary);
    let only_pk = parse_legacy_column("y TEXT PRIMARY KEY").unwrap();
    assert!(!only_pk.not_null && only_pk.primary);
    let only_nn = parse_legacy_column("z TEXT NOT NULL").unwrap();
    assert!(only_nn.not_null && !only_nn.primary);
}

#[test]
fn empty_sections_are_omitted_from_json() {
    let dump = "Table t (2 row(s))\n  - a INT\n  Indexes:\n  Foreign Keys:\n";
    let snapshot = parse_legacy_metadata(dump).unwrap();
    assert!(snapshot.tables[0].indexes.is_none());
    assert!(snapshot.tables[0].fks.is_none());
    let json = metadata_json(&snapshot);
    assert!(!json.contains("indexes"));
    assert!(!json.contains("fks"));
}

#[test]
fn rejects_malformed_table_header() {
    let err = legacy_metadata("Table users\n").unwrap_err();
    assert_eq!(err, "unexpected table header: Table users");
}

#[test]
fn rejects_malformed_row_count() {
    let err = legacy_metadata("Table users (3 rows)\n").unwrap_err();
    assert_eq!(err, "unexpected row count: Table users (3 rows)");
    let err = legacy_metadata("Table users (many row(s))\n").unwrap_err();
    assert_eq!(err, "invalid row count in line: Table users (many row(s))");
}

#[test]
fn rejects_malformed_column_line() {
    let err = legacy_metadata("Table t (1 row(s))\n  - lonely\n").unwrap_err();
    assert_eq!(err, "unexpected column line: lonely");
}

#[test]
fn rejects_malformed_index_and_fk_lines() {
    let e = parse_legacy_index("noparen").unwrap_err();
    assert_eq!(e, "unexpected index line: noparen");
    let e = parse_legacy_fk("noparen").unwrap_err();
    assert_eq!(e, "unexpected foreign key line: noparen");
    let e = parse_legacy_fk("fk (a) REFS other(id)").unwrap_err();
    assert_eq!(e, "unexpected foreign key line: fk (a) REFS other(id)");
}

#[test]
fn ignores_lines_outside_any_table() {
    let dump = "  - stray INT\n  Indexes:\nTable t (1 row(s))\n  - a INT\n";
    let json = legacy_metadata(dump).unwrap();
    let expected = as_value(
        "{\"tables\":[{\"name\":\"t\",\"rowCount\":1,\"columns\":[\
         {\"name\":\"a\",\"type\":\"INT\",\"notNull\":false,\"pk\":false}]}]}",
    );
    assert_eq!(as_value(&json), expected);
}

#[test]
fn index_without_unique_and_multiple_columns() {
    let x = parse_legacy_index("idx_ab (a, b)").unwrap();
    assert_eq!(x.name, "idx_ab");
    assert_eq!(x.columns, vec!["a", "b"]);
    assert!(!x.unique);
    let u = parse_legacy_index("idx_c (c) UNIQUE").unwrap();
    assert!(u.unique);
    assert_eq!(u.columns, vec!["c"]);
}

#[test]
fn parses_dump_with_carriage_returns() {
    let dump = "Table t (2 row(s))\r\n  - a INT\r\n";
    let json = legacy_metadata(dump).unwrap();
    let expected = as_value(
        "{\"tables\":[{\"name\":\"t\",\"rowCount\":2,\"columns\":[\
         {\"name\":\"a\",\"type\":\"INT\",\"notNull\":false,\"pk\":false}]}]}",
    );
    assert_eq!(as_value(&json), expected);
}

#[test]
fn parses_two_tables_in_order() {
    let dump = "Table a (1 row(s))\n  - x INT\n\nTable b (2 row(s))\n  - y TEXT\n";
    let snapshot = parse_legacy_metadata(dump).unwrap();
    assert_eq!(snapshot.tables.len(), 2);
    assert_eq!(snapshot.tables[0].name, "a");
    assert_eq!(snapshot.tables[0].row_count, 1);
    assert_eq!(snapshot.tables[1].name, "b");
    assert_eq!(snapshot.tables[1].row_count, 2);
}

#[test]
fn escapes_quotes_in_rendered_json() {
    let dump = "Table t (1 row(s))\n  - a VARCHAR(2) DEFAULT \"x\"\n";
    let json = legacy_metadata(dump).unwrap();
    let parsed = as_value(&json);
    let cols = parsed["tables"][0]["columns"].as_array().unwrap();
    assert_eq!(cols[0]["type"], "VARCHAR(2) DEFAULT \"x\"");
}
