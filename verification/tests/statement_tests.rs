use csql::backend::csv_handler::DataEntry;
use csql::backend::database_handler::{
    ConnectionError, DBLoginData, FieldDescription, QueryError, QueryResult, SchemaError,
    Statement, Table, TableField, Tables,
};

fn description(name: &str, field_type: &str) -> FieldDescription {
    FieldDescription {
        field: name.to_string(),
        field_type: field_type.to_string(),
        null: "NO".to_string(),
        key: String::new(),
        default: None,
        extra: String::new(),
    }
}

fn field(name: &str, col: Option<usize>) -> TableField {
    TableField { description: description(name, "text"), mapped_to_col: col }
}

fn entry(text: &str) -> DataEntry {
    DataEntry { data: text.to_string(), curr_field_description: None, is_parsed: None }
}

fn login(port: &str) -> DBLoginData {
    DBLoginData {
        user_name: "importer".to_string(),
        database: "shop".to_string(),
        host: "db.example".to_string(),
        port: port.to_string(),
        password: "not-a-real-one".to_string(),
        should_remember: false,
        is_verified: false,
    }
}

#[test]
fn the_insert_names_the_mapped_fields_in_their_order() {
    let table = Table {
        name: "product".to_string(),
        fields: Some(vec![
            field("price", Some(2)),
            field("stock", None),
            field("name", Some(0)),
        ]),
    };
    let cells = vec![entry("Tea"), entry("ignored"), entry("4.50")];
    let row: Vec<&DataEntry> = cells.iter().collect();
    let statement = table.insert_into_table(row).unwrap();
    assert_eq!(statement.query, "INSERT INTO product(price, name) VALUES(?, ?)");
    assert_eq!(statement.values, vec!["4.50".to_string(), "Tea".to_string()]);
}

#[test]
fn the_insert_binds_values_and_never_embeds_them() {
    let table = Table { name: "t".to_string(), fields: Some(vec![field("a", Some(0))]) };
    let cells = vec![entry("'); DROP TABLE t; --")];
    let statement = table.insert_into_table(cells.iter().collect()).unwrap();
    assert_eq!(statement.query, "INSERT INTO t(a) VALUES(?)");
    assert_eq!(statement.values, vec!["'); DROP TABLE t; --".to_string()]);
}

#[test]
fn the_insert_of_one_field_has_no_separator() {
    let table = Table { name: "t".to_string(), fields: Some(vec![field("a", Some(1))]) };
    let cells = vec![entry("x"), entry("y")];
    let statement = table.insert_into_table(cells.iter().collect()).unwrap();
    assert_eq!(statement.query, "INSERT INTO t(a) VALUES(?)");
    assert_eq!(statement.values, vec!["y".to_string()]);
}

#[test]
fn the_insert_without_mapped_fields_names_none() {
    let table = Table { name: "t".to_string(), fields: Some(vec![field("a", None)]) };
    let cells = vec![entry("x")];
    let statement = table.insert_into_table(cells.iter().collect()).unwrap();
    assert_eq!(statement.query, "INSERT INTO t() VALUES()");
    assert!(statement.values.is_empty());
    let bare = Table::new("u".to_string());
    let statement = bare.insert_into_table(cells.iter().collect()).unwrap();
    assert_eq!(statement.query, "INSERT INTO u() VALUES()");
}

#[test]
fn two_fields_may_take_the_same_column() {
    let table = Table {
        name: "t".to_string(),
        fields: Some(vec![field("a", Some(0)), field("b", Some(0))]),
    };
    let cells = vec![entry("x")];
    let statement = table.insert_into_table(cells.iter().collect()).unwrap();
    assert_eq!(statement.query, "INSERT INTO t(a, b) VALUES(?, ?)");
    assert_eq!(statement.values, vec!["x".to_string(), "x".to_string()]);
}

#[test]
fn a_field_mapped_beyond_the_row_is_reported() {
    let table = Table {
        name: "t".to_string(),
        fields: Some(vec![field("a", Some(0)), field("b", Some(5)), field("c", Some(9))]),
    };
    let cells = vec![entry("x"), entry("y")];
    match table.insert_into_table(cells.iter().collect()) {
        Err(SchemaError::NoSuchColumn(col)) => assert_eq!(col, 5),
        other => panic!("{:?}", other),
    }
    match table.insert_into_table(Vec::new()) {
        Err(SchemaError::NoSuchColumn(col)) => assert_eq!(col, 0),
        other => panic!("{:?}", other),
    }
}

#[test]
fn describing_fills_the_fields_once() {
    let mut table = Table::new("t".to_string());
    assert!(table.fields.is_none());
    table.describe_table(vec![description("id", "int"), description("name", "varchar(5)")]);
    let fields = table.fields.clone().unwrap();
    assert_eq!(fields.len(), 2);
    assert_eq!(fields[0].description.field, "id");
    assert_eq!(fields[0].description.field_type, "int");
    assert_eq!(fields[1].description.field, "name");
    assert!(fields.iter().all(|f| f.mapped_to_col.is_none()));
    table.describe_table(vec![description("id", "int"), description("name", "varchar(5)")]);
    assert_eq!(table.fields.as_ref().unwrap().len(), 2);
    table.describe_table(vec![description("other", "text")]);
    assert_eq!(table.fields.as_ref().unwrap().len(), 2);
    assert_eq!(table.fields.as_ref().unwrap()[0].description.field, "id");
    assert_eq!(table.name, "t");
}

#[test]
fn describing_keeps_a_mapping_that_was_made() {
    let mut table = Table { name: "t".to_string(), fields: Some(vec![field("a", Some(3))]) };
    table.describe_table(vec![description("a", "int")]);
    assert_eq!(table.fields.as_ref().unwrap()[0].mapped_to_col, Some(3));
    assert_eq!(table.fields.as_ref().unwrap()[0].description.field_type, "text");
}

#[test]
fn describing_a_table_without_columns_gives_no_fields() {
    let mut table = Table::new("t".to_string());
    table.describe_table(Vec::new());
    assert_eq!(table.fields.as_ref().unwrap().len(), 0);
}

#[test]
fn the_statements_read_as_the_database_expects() {
    let table = Table::new("oc_product".to_string());
    assert_eq!(table.describe_statement().query, "DESCRIBE oc_product");
    assert_eq!(table.truncate_statement().query, "truncate oc_product");
    assert_eq!(Statement::show_tables().query, "SHOW TABLES");
    assert_eq!(Statement::autocommit_off().query, "SET autocommit = OFF");
    assert_eq!(Statement::begin().query, "BEGIN");
    assert_eq!(Statement::commit().query, "COMMIT");
    assert_eq!(Statement::rollback().query, "ROLLBACK");
    assert_eq!(Statement::plain("SELECT 1").query, "SELECT 1");
    assert!(table.describe_statement().values.is_empty());
    assert!(Statement::commit().values.is_empty());
}

#[test]
fn a_result_carries_the_statement_and_its_answer() {
    let done = QueryResult::settle("COMMIT".to_string(), Ok(3));
    assert_eq!(done.query, "COMMIT");
    assert!(matches!(done.result, Ok(3)));
    let failed = QueryResult::settle("BEGIN".to_string(), Err("gone away".to_string()));
    assert_eq!(failed.query, "BEGIN");
    match failed.result {
        Err(QueryError::Rejected { query, reason }) => {
            assert_eq!(query, "BEGIN");
            assert_eq!(reason, "gone away");
        }
        other => panic!("{:?}", other),
    }
    let unwritten = QueryResult::unwritten(SchemaError::NoSuchColumn(4));
    assert_eq!(unwritten.query, "");
    assert!(matches!(unwritten.result, Err(QueryError::Schema(SchemaError::NoSuchColumn(4)))));
}

#[test]
fn commit_and_rollback_report_under_their_names() {
    let committed = Table::transaction_commit(Ok(0));
    assert_eq!(committed.query, "COMMIT");
    assert!(matches!(committed.result, Ok(0)));
    let refused = Table::transaction_commit(Err("no".to_string()));
    assert!(matches!(refused.result, Err(QueryError::Rejected { .. })));
    let undone = Table::transaction_rollback(Ok(7));
    assert_eq!(undone.query, "ROLLBACK");
    assert!(matches!(undone.result, Ok(7)));
    let table = Table::new("t".to_string());
    let emptied = table.truncate_table(Ok(0));
    assert_eq!(emptied.query, "truncate t");
}

#[test]
fn a_transaction_begins_only_when_autocommit_is_off() {
    match Table::start_transaction(Ok(0)) {
        Ok(statement) => assert_eq!(statement.query, "BEGIN"),
        Err(result) => panic!("{:?}", result),
    }
    match Table::start_transaction(Err("denied".to_string())) {
        Err(result) => {
            assert_eq!(result.query, "SET autocommit = OFF");
            match result.result {
                Err(QueryError::Rejected { query, reason }) => {
                    assert_eq!(query, "SET autocommit = OFF");
                    assert_eq!(reason, "denied");
                }
                other => panic!("{:?}", other),
            }
        }
        Ok(statement) => panic!("{:?}", statement),
    }
}

#[test]
fn listing_replaces_the_catalog() {
    let mut tables = Tables::default();
    assert!(tables.tables.is_empty());
    assert!(!tables.is_connection_verified);
    tables.is_connection_verified = true;
    tables.current_working_table = Some(1);
    tables.query_for_tables(vec!["a".to_string(), "b".to_string()]);
    assert_eq!(tables.tables.len(), 2);
    assert_eq!(tables.tables[0].name, "a");
    assert_eq!(tables.tables[1].name, "b");
    assert!(tables.tables.iter().all(|t| t.fields.is_none()));
    assert_eq!(tables.current_working_table, None);
    assert!(tables.is_connection_verified);
    tables.query_for_tables(vec!["c".to_string()]);
    assert_eq!(tables.tables.len(), 1);
    assert_eq!(tables.tables[0].name, "c");
}

#[test]
fn a_table_is_looked_up_by_its_index() {
    let mut tables = Tables::default();
    tables.query_for_tables(vec!["a".to_string(), "b".to_string()]);
    assert_eq!(tables.table(1).unwrap().name, "b");
    assert!(matches!(tables.table(2), Err(SchemaError::NoSuchTable(2))));
}

#[test]
fn credentials_need_a_port_of_sixteen_bits() {
    let request = login("3306").validate_creditentials().unwrap();
    assert_eq!(request.port, 3306);
    assert_eq!(request.host, "db.example");
    assert_eq!(request.user_name, "importer");
    assert_eq!(request.database, "shop");
    assert_eq!(request.password, "not-a-real-one");
    match login("mysql").validate_creditentials() {
        Err(ConnectionError::BadPort(text)) => assert_eq!(text, "mysql"),
        other => panic!("{:?}", other),
    }
}

#[test]
fn the_port_agrees_with_the_standard_reading() {
    let texts = [
        "0", "1", "80", "+80", "-80", "65535", "65536", "065535", "", "+", "-", " 80", "80 ",
        "8o", "4307", "99999999999999999999", "٨٠",
    ];
    for text in texts {
        match (login(text).validate_creditentials(), text.parse::<u16>()) {
            (Ok(request), Ok(port)) => assert_eq!(request.port, port, "{:?}", text),
            (Err(ConnectionError::BadPort(kept)), Err(_)) => assert_eq!(kept, text),
            (ours, theirs) => panic!("{:?}: {:?} against {:?}", text, ours, theirs),
        }
    }
}
