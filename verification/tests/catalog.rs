use influxdb3_server::catalog::{Catalog, DatabaseSchema, TableDefinition};
use influxdb3_server::schema::{Column, ColumnType, SchemaError, TableSchema};
use influxdb3_server::text::{sorted_names, str_eq, str_lt};

fn column(name: &str, column_type: ColumnType) -> Column {
    Column { name: name.to_string(), column_type }
}

fn host_schema() -> TableSchema {
    TableSchema::new(
        vec![
            column("time", ColumnType::Timestamp),
            column("host", ColumnType::String),
            column("value", ColumnType::Float),
        ],
        Some(vec!["time".to_string()]),
    )
    .unwrap()
}

fn strings(v: &[&str]) -> Vec<String> {
    v.iter().map(|s| s.to_string()).collect()
}

#[test]
fn strings_compare_by_their_characters() {
    assert!(str_eq("cpu", "cpu"));
    assert!(!str_eq("cpu", "cpu "));
    assert!(!str_eq("cpu", "Cpu"));
    assert!(str_eq("", ""));
    assert!(str_eq("météo", "météo"));
    assert!(!str_eq("meteo", "météo"));
}

#[test]
fn strings_order_lexicographically() {
    assert!(str_lt("cpu", "disk"));
    assert!(!str_lt("disk", "cpu"));
    assert!(!str_lt("cpu", "cpu"));
    assert!(str_lt("", "a"));
    assert!(!str_lt("a", ""));
    assert!(str_lt("cpu", "cpu2"));
    assert!(!str_lt("cpu2", "cpu"));
    assert!(str_lt("Zebra", "apple"));
    assert!(str_lt("z", "é"));
    assert!(str_lt("é", "日本"));
}

#[test]
fn strings_order_as_the_standard_library_orders_them() {
    let samples = ["", "a", "A", "ab", "b", "cpu", "cpu2", "é", "日本", "\u{10000}", "\u{ffff}"];
    for a in samples.iter() {
        for b in samples.iter() {
            assert_eq!(str_lt(a, b), a < b);
            assert_eq!(str_eq(a, b), a == b);
        }
    }
}

#[test]
fn sorting_keeps_every_name_as_often_as_given() {
    let sorted = sorted_names(&strings(&["mem", "cpu", "disk", "cpu", "Net", ""]));
    assert_eq!(sorted, strings(&["", "Net", "cpu", "cpu", "disk", "mem"]));
    assert_eq!(sorted_names(&Vec::new()), Vec::<String>::new());
}

#[test]
fn a_schema_keeps_columns_and_sort_key() {
    let schema = host_schema();
    let columns = schema.columns();
    assert_eq!(columns.len(), 3);
    assert_eq!(columns[0], column("time", ColumnType::Timestamp));
    assert_eq!(columns[1], column("host", ColumnType::String));
    assert_eq!(columns[2], column("value", ColumnType::Float));
    assert_eq!(schema.sort_key(), Some(&vec!["time".to_string()]));
    assert_eq!(schema.column_index("host"), Some(1));
    assert_eq!(schema.column_index("Host"), None);
    assert_eq!(schema.clone(), schema);
}

#[test]
fn a_schema_without_sort_key_has_none() {
    let schema = TableSchema::new(vec![column("time", ColumnType::Timestamp)], None).unwrap();
    assert_eq!(schema.sort_key(), None);
    let empty = TableSchema::new(Vec::new(), None).unwrap();
    assert_eq!(empty.columns().len(), 0);
}

#[test]
fn a_repeated_column_is_refused() {
    let r = TableSchema::new(
        vec![column("host", ColumnType::Tag), column("host", ColumnType::String)],
        None,
    );
    assert_eq!(r, Err(SchemaError::DuplicateColumn));
    let r = TableSchema::new(
        vec![column("host", ColumnType::Tag), column("host", ColumnType::Tag)],
        Some(vec!["nowhere".to_string()]),
    );
    assert_eq!(r, Err(SchemaError::DuplicateColumn));
}

#[test]
fn a_sort_key_must_name_columns_once() {
    let columns = || vec![column("time", ColumnType::Timestamp), column("host", ColumnType::Tag)];
    assert_eq!(
        TableSchema::new(columns(), Some(strings(&["region"]))),
        Err(SchemaError::InvalidSortKey)
    );
    assert_eq!(
        TableSchema::new(columns(), Some(strings(&["host", "host"]))),
        Err(SchemaError::InvalidSortKey)
    );
    assert!(TableSchema::new(columns(), Some(strings(&["host", "time"]))).is_ok());
    assert!(TableSchema::new(columns(), Some(Vec::new())).is_ok());
}

#[test]
fn schemas_agree_when_shared_columns_have_one_type() {
    let table = host_schema();
    let subset = TableSchema::new(vec![column("host", ColumnType::String)], None).unwrap();
    let superset = TableSchema::new(
        vec![
            column("time", ColumnType::Timestamp),
            column("host", ColumnType::String),
            column("value", ColumnType::Float),
            column("region", ColumnType::Tag),
        ],
        None,
    )
    .unwrap();
    let clash = TableSchema::new(vec![column("value", ColumnType::Integer)], None).unwrap();
    let apart = TableSchema::new(vec![column("other", ColumnType::Boolean)], None).unwrap();
    assert!(subset.is_compatible_with(&table));
    assert!(superset.is_compatible_with(&table));
    assert!(table.is_compatible_with(&superset));
    assert!(apart.is_compatible_with(&table));
    assert!(!clash.is_compatible_with(&table));
    assert!(!table.is_compatible_with(&clash));
}

#[test]
fn a_database_lists_its_tables_by_name() {
    let mut db = DatabaseSchema::new("telemetry".to_string());
    assert_eq!(db.name(), "telemetry");
    assert!(!db.table_exists("cpu"));
    assert!(db.table_names().is_empty());
    db.insert_table(TableDefinition { name: "cpu".to_string(), schema: Some(host_schema()) });
    db.insert_table(TableDefinition { name: "ghost".to_string(), schema: None });
    assert!(db.table_exists("cpu"));
    assert!(db.table_exists("ghost"));
    assert!(!db.table_exists("CPU"));
    assert_eq!(db.get_table_schema("cpu"), Some(&host_schema()));
    assert_eq!(db.get_table_schema("ghost"), None);
    assert_eq!(db.get_table_schema("mem"), None);
    assert_eq!(db.table_definition("ghost").map(|t| t.name.as_str()), Some("ghost"));
    assert!(db.table_definition("mem").is_none());
    let mut listed = db.table_names();
    listed.sort();
    assert_eq!(listed, strings(&["cpu", "ghost"]));
}

#[test]
fn inserting_a_table_again_replaces_it() {
    let mut db = DatabaseSchema::new("telemetry".to_string());
    db.insert_table(TableDefinition { name: "cpu".to_string(), schema: None });
    db.insert_table(TableDefinition { name: "mem".to_string(), schema: None });
    db.insert_table(TableDefinition { name: "cpu".to_string(), schema: Some(host_schema()) });
    assert_eq!(db.table_names().len(), 2);
    assert_eq!(db.get_table_schema("cpu"), Some(&host_schema()));
}

#[test]
fn the_catalog_hands_out_snapshots() {
    let mut catalog = Catalog::new();
    assert!(catalog.db_schema("telemetry").is_none());
    catalog.insert_database(DatabaseSchema::new("telemetry".to_string()));
    catalog.insert_database(DatabaseSchema::new("billing".to_string()));
    let before = catalog.db_schema("telemetry").unwrap();
    assert_eq!(before.name(), "telemetry");
    assert!(!before.table_exists("cpu"));

    let mut next = DatabaseSchema::new("telemetry".to_string());
    next.insert_table(TableDefinition { name: "cpu".to_string(), schema: Some(host_schema()) });
    catalog.insert_database(next);

    let after = catalog.db_schema("telemetry").unwrap();
    assert!(after.table_exists("cpu"));
    assert!(!before.table_exists("cpu"));
    assert_eq!(catalog.db_schema("billing").unwrap().name(), "billing");
    assert!(catalog.db_schema("Telemetry").is_none());
}
