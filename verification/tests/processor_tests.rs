use csql::backend::backend_manager::{BackendManger, Communication};
use csql::backend::csv_handler::ImportError;
use csql::backend::database_handler::{
    ConnectionError, DBLoginData, FieldDescription, MappingError, QueryError, SchemaError,
};
use csql::backend::parser::ParseError;
use csql::backend::protocol::{Action, Event, Reply, Stage};

fn login(port: &str) -> DBLoginData {
    DBLoginData {
        user_name: "importer".to_string(),
        database: "shop".to_string(),
        host: "127.0.0.1".to_string(),
        port: port.to_string(),
        password: "not-a-real-one".to_string(),
        should_remember: true,
        is_verified: false,
    }
}

fn column(name: &str, field_type: &str) -> FieldDescription {
    FieldDescription {
        field: name.to_string(),
        field_type: field_type.to_string(),
        null: "NO".to_string(),
        key: String::new(),
        default: None,
        extra: String::new(),
    }
}

fn command(processor: &mut BackendManger, c: Communication) -> Action {
    processor.listen(Event::Command(c))
}

fn connected(tables: &[&str]) -> BackendManger {
    let mut processor = BackendManger::default();
    let action = command(&mut processor, Communication::ValidateCreditentials(login("4307")));
    assert!(matches!(action, Action::Connect(_)));
    let action = processor.listen(Event::Connected);
    assert!(matches!(action, Action::ListTables(_)));
    let names = tables.iter().map(|t| t.to_string()).collect();
    let action = processor.listen(Event::TableNames(Ok(names)));
    assert!(matches!(action, Action::Reply(Reply::Credentials(Ok(())))));
    processor
}

fn load(processor: &mut BackendManger, text: &str) {
    let action = command(processor, Communication::LoadImportFilePath("in.csv".to_string()));
    assert!(matches!(action, Action::ReadFile(_)));
    let action = processor.listen(Event::File(Ok(text.as_bytes().to_vec())));
    assert!(matches!(action, Action::Reply(Reply::FileLoaded(Ok(())))));
}

fn describe(processor: &mut BackendManger, table: usize, columns: Vec<FieldDescription>) -> Action {
    let action = command(processor, Communication::GetTableDescription(table));
    assert!(matches!(action, Action::Describe(_)));
    processor.listen(Event::Description(Ok(columns)))
}

fn ready_for_insert() -> BackendManger {
    let mut processor = connected(&["product"]);
    load(&mut processor, "id,name\n1,Tea\n2,Milk\n3,Rice\n");
    let action =
        describe(&mut processor, 0, vec![column("name", "varchar(5)"), column("id", "int")]);
    assert!(matches!(action, Action::Reply(Reply::Mapped(Ok(())))));
    assert!(processor.imported_data.is_parsed);
    processor
}

#[test]
fn a_new_processor_is_free_and_empty() {
    let processor = BackendManger::default();
    assert!(matches!(processor.stage, Stage::Idle));
    assert!(processor.imported_data.is_empty());
    assert!(processor.db_table_data.tables.is_empty());
    assert!(!processor.db_table_data.is_connection_verified);
    assert!(!processor.db_login_data.is_verified);
}

#[test]
fn credentials_open_a_session_and_list_the_tables() {
    let mut processor = BackendManger::default();
    match command(&mut processor, Communication::ValidateCreditentials(login("4307"))) {
        Action::Connect(request) => {
            assert_eq!(request.host, "127.0.0.1");
            assert_eq!(request.port, 4307);
            assert_eq!(request.user_name, "importer");
            assert_eq!(request.database, "shop");
        }
        other => panic!("{:?}", other),
    }
    assert!(matches!(processor.stage, Stage::Connecting));
    assert!(!processor.db_login_data.is_verified);
    match processor.listen(Event::Connected) {
        Action::ListTables(statement) => assert_eq!(statement.query, "SHOW TABLES"),
        other => panic!("{:?}", other),
    }
    assert!(processor.db_login_data.is_verified);
    assert!(processor.db_table_data.is_connection_verified);
    let names = vec!["a".to_string(), "b".to_string()];
    let action = processor.listen(Event::TableNames(Ok(names)));
    assert!(matches!(action, Action::Reply(Reply::Credentials(Ok(())))));
    assert!(matches!(processor.stage, Stage::Idle));
    assert_eq!(processor.db_table_data.tables.len(), 2);
    assert_eq!(processor.db_table_data.tables[1].name, "b");
    assert!(processor.db_table_data.tables[0].fields.is_none());
    assert_eq!(processor.db_login_data.port, "4307");
}

#[test]
fn a_bad_port_is_answered_at_once() {
    let mut processor = BackendManger::default();
    match command(&mut processor, Communication::ValidateCreditentials(login("port"))) {
        Action::Reply(Reply::Credentials(Err(ConnectionError::BadPort(text)))) => {
            assert_eq!(text, "port")
        }
        other => panic!("{:?}", other),
    }
    assert!(matches!(processor.stage, Stage::Idle));
    assert!(!processor.db_table_data.is_connection_verified);
}

#[test]
fn a_refused_session_stays_unverified() {
    let mut processor = BackendManger::default();
    command(&mut processor, Communication::ValidateCreditentials(login("4307")));
    match processor.listen(Event::ConnectionFailed("access denied".to_string())) {
        Action::Reply(Reply::Credentials(Err(ConnectionError::Refused(reason)))) => {
            assert_eq!(reason, "access denied")
        }
        other => panic!("{:?}", other),
    }
    assert!(matches!(processor.stage, Stage::Idle));
    assert!(!processor.db_login_data.is_verified);
    assert!(!processor.db_table_data.is_connection_verified);
}

#[test]
fn a_failed_listing_is_reported() {
    let mut processor = BackendManger::default();
    command(&mut processor, Communication::ValidateCreditentials(login("4307")));
    processor.listen(Event::Connected);
    match processor.listen(Event::TableNames(Err("timeout".to_string()))) {
        Action::Reply(Reply::Credentials(Err(ConnectionError::NoTables(reason)))) => {
            assert_eq!(reason, "timeout")
        }
        other => panic!("{:?}", other),
    }
    assert!(matches!(processor.stage, Stage::Idle));
    assert!(processor.db_table_data.tables.is_empty());
}

#[test]
fn a_file_is_loaded_under_its_path() {
    let mut processor = BackendManger::default();
    match command(&mut processor, Communication::LoadImportFilePath("in.csv".to_string())) {
        Action::ReadFile(path) => assert_eq!(path, "in.csv"),
        other => panic!("{:?}", other),
    }
    assert!(matches!(processor.stage, Stage::ReadingFile(_)));
    let action = processor.listen(Event::File(Ok(b"id,name\n1,Tea\n".to_vec())));
    assert!(matches!(action, Action::Reply(Reply::FileLoaded(Ok(())))));
    assert!(matches!(processor.stage, Stage::Idle));
    assert_eq!(processor.imported_data.path, "in.csv");
    assert_eq!(processor.imported_data.rows(), 2);
    assert_eq!(processor.imported_data.cols(), 2);
    assert!(processor.imported_data.are_headers);
}

#[test]
fn a_file_that_cannot_be_read_leaves_the_grid() {
    let mut processor = BackendManger::default();
    load(&mut processor, "id,name\n1,Tea\n");
    command(&mut processor, Communication::LoadImportFilePath("gone.csv".to_string()));
    match processor.listen(Event::File(Err("No such file".to_string()))) {
        Action::Reply(Reply::FileLoaded(Err(ImportError::Unreadable(reason)))) => {
            assert_eq!(reason, "No such file")
        }
        other => panic!("{:?}", other),
    }
    assert_eq!(processor.imported_data.path, "in.csv");
    assert_eq!(processor.imported_data.rows(), 2);
    command(&mut processor, Communication::LoadImportFilePath("bad.csv".to_string()));
    let action = processor.listen(Event::File(Ok(b"a,b\n1\n".to_vec())));
    assert!(matches!(action, Action::Reply(Reply::FileLoaded(Err(ImportError::Malformed(_))))));
    assert_eq!(processor.imported_data.path, "in.csv");
    assert_eq!(processor.imported_data.rows(), 2);
    assert!(matches!(processor.stage, Stage::Idle));
}

#[test]
fn describing_a_table_maps_and_validates() {
    let mut processor = connected(&["product", "orders"]);
    load(&mut processor, "id,name\n1,Tea\n2,Lemonade\n");
    match command(&mut processor, Communication::GetTableDescription(0)) {
        Action::Describe(statement) => assert_eq!(statement.query, "DESCRIBE product"),
        other => panic!("{:?}", other),
    }
    assert!(matches!(processor.stage, Stage::Describing(0)));
    assert_eq!(processor.db_table_data.current_working_table, Some(0));
    let columns = vec![column("name", "varchar(5)"), column("age", "int")];
    let action = processor.listen(Event::Description(Ok(columns)));
    assert!(matches!(action, Action::Reply(Reply::Mapped(Ok(())))));
    assert!(matches!(processor.stage, Stage::Idle));
    let fields = processor.db_table_data.tables[0].fields.as_ref().unwrap();
    assert_eq!(fields.len(), 2);
    assert_eq!(fields[0].mapped_to_col, Some(1));
    assert_eq!(fields[1].mapped_to_col, None);
    let cells = &processor.imported_data.data;
    assert!(matches!(cells.get(1, 1).unwrap().is_parsed, Some(Ok(()))));
    assert!(matches!(cells.get(2, 1).unwrap().is_parsed, Some(Err(ParseError::TooLong))));
    assert!(cells.get(1, 0).unwrap().is_parsed.is_none());
    assert!(!processor.imported_data.is_parsed);
}

#[test]
fn describing_again_asks_the_database_no_more() {
    let mut processor = connected(&["product"]);
    load(&mut processor, "id,name\n1,Tea\n");
    describe(&mut processor, 0, vec![column("name", "text")]);
    let action = command(&mut processor, Communication::GetTableDescription(0));
    assert!(matches!(action, Action::Reply(Reply::Mapped(Ok(())))));
    assert_eq!(processor.db_table_data.tables[0].fields.as_ref().unwrap().len(), 1);
}

#[test]
fn no_matching_header_is_told_apart_from_a_fault() {
    let mut processor = connected(&["product"]);
    load(&mut processor, "id,name\n1,Tea\n");
    let action = describe(&mut processor, 0, vec![column("price", "int")]);
    assert!(matches!(
        action,
        Action::Reply(Reply::Mapped(Err(MappingError::NoHeaderMatched)))
    ));
    assert_eq!(processor.db_table_data.tables[0].fields.as_ref().unwrap().len(), 1);
    assert!(matches!(processor.stage, Stage::Idle));
}

#[test]
fn a_table_that_is_not_there_is_rejected() {
    let mut processor = connected(&["product"]);
    let action = command(&mut processor, Communication::GetTableDescription(1));
    assert!(matches!(action, Action::Reply(Reply::Rejected(SchemaError::NoSuchTable(1)))));
    let action = command(&mut processor, Communication::StartInserting(3));
    assert!(matches!(action, Action::Reply(Reply::Rejected(SchemaError::NoSuchTable(3)))));
    let action = command(&mut processor, Communication::MapFieldToCol(1, 0, 0));
    assert!(matches!(action, Action::Reply(Reply::Rejected(SchemaError::NoSuchTable(1)))));
    assert!(matches!(processor.stage, Stage::Idle));
    assert_eq!(processor.db_table_data.current_working_table, None);
}

#[test]
fn the_database_is_not_asked_without_a_session() {
    let mut processor = BackendManger::default();
    processor.db_table_data.query_for_tables(vec!["product".to_string()]);
    let action = command(&mut processor, Communication::GetTableDescription(0));
    assert!(matches!(action, Action::Reply(Reply::Rejected(SchemaError::NotConnected))));
    let action = command(&mut processor, Communication::StartInserting(0));
    assert!(matches!(action, Action::Reply(Reply::Rejected(SchemaError::NotConnected))));
    let action = command(&mut processor, Communication::TryCommit);
    assert!(matches!(action, Action::Reply(Reply::Rejected(SchemaError::NotConnected))));
    let action = command(&mut processor, Communication::TryRollBack);
    assert!(matches!(action, Action::Reply(Reply::Rejected(SchemaError::NotConnected))));
    assert!(matches!(processor.stage, Stage::Idle));
}

#[test]
fn a_failed_description_is_reported_with_its_statement() {
    let mut processor = connected(&["product"]);
    command(&mut processor, Communication::GetTableDescription(0));
    match processor.listen(Event::Description(Err("no such table".to_string()))) {
        Action::Reply(Reply::Query(result)) => {
            assert_eq!(result.query, "DESCRIBE product");
            match result.result {
                Err(QueryError::Rejected { query, reason }) => {
                    assert_eq!(query, "DESCRIBE product");
                    assert_eq!(reason, "no such table");
                }
                other => panic!("{:?}", other),
            }
        }
        other => panic!("{:?}", other),
    }
    assert!(processor.db_table_data.tables[0].fields.is_none());
    assert!(matches!(processor.stage, Stage::Idle));
}

#[test]
fn a_column_is_validated_on_request() {
    let mut processor = connected(&["product"]);
    load(&mut processor, "id,name\n1,Tea\n2,Milk\n");
    describe(&mut processor, 0, vec![column("id", "int")]);
    processor.imported_data.data.get_mut(2, 0).unwrap().data = "two".to_string();
    let action = command(&mut processor, Communication::TryParseCol(0));
    assert!(matches!(action, Action::Reply(Reply::ColumnParsed(false))));
    processor.imported_data.data.get_mut(2, 0).unwrap().data = "2".to_string();
    let action = command(&mut processor, Communication::TryParseCol(0));
    assert!(matches!(action, Action::Reply(Reply::ColumnParsed(true))));
    let action = command(&mut processor, Communication::TryParseCol(2));
    assert!(matches!(action, Action::Reply(Reply::Rejected(SchemaError::NoSuchColumn(2)))));
    assert_eq!(processor.imported_data.parsed_cols, vec![0]);
}

#[test]
fn a_field_is_mapped_by_hand() {
    let mut processor = connected(&["product"]);
    load(&mut processor, "a,b\n1,Tea\n");
    let action = command(&mut processor, Communication::MapFieldToCol(0, 0, 0));
    assert!(matches!(action, Action::Reply(Reply::Rejected(SchemaError::NotDescribed(0)))));
    describe(&mut processor, 0, vec![column("id", "int"), column("name", "varchar(2)")]);
    let action = command(&mut processor, Communication::MapFieldToCol(0, 2, 0));
    assert!(matches!(action, Action::Reply(Reply::Rejected(SchemaError::NoSuchField(2)))));
    let action = command(&mut processor, Communication::MapFieldToCol(0, 0, 2));
    assert!(matches!(action, Action::Reply(Reply::Rejected(SchemaError::NoSuchColumn(2)))));
    assert!(processor.db_table_data.tables[0].fields.as_ref().unwrap()[0].mapped_to_col.is_none());
    let action = command(&mut processor, Communication::MapFieldToCol(0, 0, 0));
    assert!(matches!(action, Action::Reply(Reply::ColumnParsed(true))));
    let action = command(&mut processor, Communication::MapFieldToCol(0, 1, 1));
    assert!(matches!(action, Action::Reply(Reply::ColumnParsed(false))));
    let fields = processor.db_table_data.tables[0].fields.as_ref().unwrap();
    assert_eq!(fields[0].mapped_to_col, Some(0));
    assert_eq!(fields[1].mapped_to_col, Some(1));
    assert_eq!(fields[1].description.field, "name");
    let cell = processor.imported_data.data.get(1, 1).unwrap();
    assert_eq!(cell.curr_field_description.as_ref().unwrap().field, "name");
    assert!(matches!(cell.is_parsed, Some(Err(ParseError::TooLong))));
    assert_eq!(processor.imported_data.parsed_cols, vec![0]);
    assert!(!processor.imported_data.is_parsed);
}

#[test]
fn loading_maps_the_selected_table() {
    let mut processor = connected(&["product"]);
    load(&mut processor, "x\n1\n");
    describe(&mut processor, 0, vec![column("id", "int")]);
    load(&mut processor, "id\n1\n2\n");
    let fields = processor.db_table_data.tables[0].fields.as_ref().unwrap();
    assert_eq!(fields[0].mapped_to_col, Some(0));
    assert!(processor.imported_data.is_parsed);
}

#[test]
fn three_rows_give_three_results_in_row_order_and_one_end() {
    let mut processor = ready_for_insert();
    let mut log: Vec<String> = Vec::new();
    let mut action = command(&mut processor, Communication::StartInserting(0));
    let mut answers = vec![Ok(0), Ok(0), Ok(1), Err("duplicate".to_string()), Ok(1)].into_iter();
    let mut results = Vec::new();
    let mut ends = 0;
    loop {
        match action {
            Action::Execute(statement) => {
                assert!(ends == 0);
                log.push(format!("run {} {:?}", statement.query, statement.values));
                action = processor.listen(Event::Executed(answers.next().unwrap()));
            }
            Action::Opened(result) => {
                log.push(format!("opened {}", result.query));
                assert!(result.result.is_ok());
                action = processor.listen(Event::Delivered);
            }
            Action::Inserted(result) => {
                log.push(format!("row {}", result.result.is_ok()));
                results.push(result);
                action = processor.listen(Event::Delivered);
            }
            Action::Finished => {
                ends += 1;
                log.push("end".to_string());
                break;
            }
            other => panic!("{:?}", other),
        }
    }
    assert!(matches!(processor.stage, Stage::Idle));
    assert_eq!(ends, 1);
    assert_eq!(results.len(), 3);
    assert_eq!(
        log,
        vec![
            "run SET autocommit = OFF []",
            "run BEGIN []",
            "opened BEGIN",
            "run INSERT INTO product(name, id) VALUES(?, ?) [\"Tea\", \"1\"]",
            "row true",
            "run INSERT INTO product(name, id) VALUES(?, ?) [\"Milk\", \"2\"]",
            "row false",
            "run INSERT INTO product(name, id) VALUES(?, ?) [\"Rice\", \"3\"]",
            "row true",
            "end",
        ]
    );
    assert!(matches!(results[0].result, Ok(1)));
    match &results[1].result {
        Err(QueryError::Rejected { query, reason }) => {
            assert_eq!(query, "INSERT INTO product(name, id) VALUES(?, ?)");
            assert_eq!(reason, "duplicate");
        }
        other => panic!("{:?}", other),
    }
    assert!(answers.next().is_none());
}

#[test]
fn a_rollback_during_the_insertion_waits_for_its_end() {
    let mut processor = ready_for_insert();
    let mut action = command(&mut processor, Communication::StartInserting(0));
    let mut seen_end = false;
    let mut rows = 0;
    while !seen_end {
        if !matches!(action, Action::Finished) {
            let early = command(&mut processor, Communication::TryRollBack);
            assert!(matches!(early, Action::Ignored));
            let early = command(&mut processor, Communication::TryCommit);
            assert!(matches!(early, Action::Ignored));
        }
        action = match action {
            Action::Execute(statement) => {
                assert_ne!(statement.query, "ROLLBACK");
                assert_ne!(statement.query, "COMMIT");
                processor.listen(Event::Executed(Ok(1)))
            }
            Action::Opened(_) => processor.listen(Event::Delivered),
            Action::Inserted(_) => {
                rows += 1;
                processor.listen(Event::Delivered)
            }
            Action::Finished => {
                seen_end = true;
                Action::Finished
            }
            other => panic!("{:?}", other),
        };
    }
    assert_eq!(rows, 3);
    match command(&mut processor, Communication::TryRollBack) {
        Action::Execute(statement) => assert_eq!(statement.query, "ROLLBACK"),
        other => panic!("{:?}", other),
    }
    assert!(matches!(processor.stage, Stage::RollingBack));
    match processor.listen(Event::Executed(Ok(0))) {
        Action::Reply(Reply::Query(result)) => {
            assert_eq!(result.query, "ROLLBACK");
            assert!(matches!(result.result, Ok(0)));
        }
        other => panic!("{:?}", other),
    }
    assert!(matches!(processor.stage, Stage::Idle));
}

#[test]
fn a_commit_reports_what_the_database_said() {
    let mut processor = connected(&["product"]);
    match command(&mut processor, Communication::TryCommit) {
        Action::Execute(statement) => assert_eq!(statement.query, "COMMIT"),
        other => panic!("{:?}", other),
    }
    assert!(matches!(processor.stage, Stage::Committing));
    match processor.listen(Event::Executed(Err("lost connection".to_string()))) {
        Action::Reply(Reply::Query(result)) => {
            assert_eq!(result.query, "COMMIT");
            match result.result {
                Err(QueryError::Rejected { query, reason }) => {
                    assert_eq!(query, "COMMIT");
                    assert_eq!(reason, "lost connection");
                }
                other => panic!("{:?}", other),
            }
        }
        other => panic!("{:?}", other),
    }
    assert!(matches!(processor.stage, Stage::Idle));
}

#[test]
fn a_refused_opening_does_not_stop_the_rows() {
    let mut processor = ready_for_insert();
    let action = command(&mut processor, Communication::StartInserting(0));
    assert!(matches!(action, Action::Execute(_)));
    match processor.listen(Event::Executed(Err("denied".to_string()))) {
        Action::Opened(result) => {
            assert_eq!(result.query, "SET autocommit = OFF");
            assert!(result.result.is_err());
        }
        other => panic!("{:?}", other),
    }
    match processor.listen(Event::Delivered) {
        Action::Execute(statement) => {
            assert_eq!(statement.query, "INSERT INTO product(name, id) VALUES(?, ?)");
            assert_eq!(statement.values, vec!["Tea".to_string(), "1".to_string()]);
        }
        other => panic!("{:?}", other),
    }
    assert!(matches!(processor.stage, Stage::Inserting { table: 0, row: 1, .. }));
}

#[test]
fn a_grid_without_data_rows_ends_the_stream_at_once() {
    let mut processor = connected(&["product"]);
    load(&mut processor, "id,name\n");
    describe(&mut processor, 0, vec![column("id", "int")]);
    command(&mut processor, Communication::StartInserting(0));
    processor.listen(Event::Executed(Ok(0)));
    let action = processor.listen(Event::Executed(Ok(0)));
    assert!(matches!(action, Action::Opened(_)));
    let action = processor.listen(Event::Delivered);
    assert!(matches!(action, Action::Finished));
    assert!(matches!(processor.stage, Stage::Idle));
}

#[test]
fn without_a_header_row_the_first_row_is_inserted_too() {
    let mut processor = connected(&["product"]);
    load(&mut processor, "id\n1\n");
    describe(&mut processor, 0, vec![column("id", "int")]);
    processor.imported_data.are_headers = false;
    command(&mut processor, Communication::StartInserting(0));
    processor.listen(Event::Executed(Ok(0)));
    processor.listen(Event::Executed(Ok(0)));
    match processor.listen(Event::Delivered) {
        Action::Execute(statement) => assert_eq!(statement.values, vec!["id".to_string()]),
        other => panic!("{:?}", other),
    }
    assert!(matches!(processor.stage, Stage::Inserting { table: 0, row: 0, .. }));
}

#[test]
fn a_row_whose_statement_cannot_be_written_is_reported_and_passed() {
    let mut processor = ready_for_insert();
    processor.db_table_data.tables[0].fields.as_mut().unwrap()[0].mapped_to_col = Some(9);
    command(&mut processor, Communication::StartInserting(0));
    processor.listen(Event::Executed(Ok(0)));
    processor.listen(Event::Executed(Ok(0)));
    let mut action = processor.listen(Event::Delivered);
    let mut reported = 0;
    loop {
        match action {
            Action::Inserted(result) => {
                assert_eq!(result.query, "");
                assert!(matches!(
                    result.result,
                    Err(QueryError::Schema(SchemaError::NoSuchColumn(9)))
                ));
                reported += 1;
                action = processor.listen(Event::Delivered);
            }
            Action::Finished => break,
            other => panic!("{:?}", other),
        }
    }
    assert_eq!(reported, 3);
}

#[test]
fn an_event_that_is_not_waited_for_changes_nothing() {
    let mut processor = ready_for_insert();
    assert!(matches!(processor.listen(Event::Delivered), Action::Ignored));
    assert!(matches!(processor.listen(Event::Executed(Ok(1))), Action::Ignored));
    assert!(matches!(processor.listen(Event::Connected), Action::Ignored));
    assert!(matches!(processor.listen(Event::File(Ok(Vec::new()))), Action::Ignored));
    assert!(matches!(processor.listen(Event::TableNames(Ok(Vec::new()))), Action::Ignored));
    assert!(matches!(processor.listen(Event::Description(Ok(Vec::new()))), Action::Ignored));
    assert!(matches!(processor.stage, Stage::Idle));
    assert_eq!(processor.imported_data.rows(), 4);
    assert_eq!(processor.db_table_data.tables.len(), 1);
    command(&mut processor, Communication::StartInserting(0));
    assert!(matches!(processor.listen(Event::Delivered), Action::Ignored));
    assert!(matches!(processor.listen(Event::Connected), Action::Ignored));
    let busy = command(&mut processor, Communication::LoadImportFilePath("x".to_string()));
    assert!(matches!(busy, Action::Ignored));
    assert!(matches!(processor.stage, Stage::DisablingAutocommit(0)));
    assert_eq!(processor.imported_data.path, "in.csv");
}

#[test]
fn new_credentials_start_the_catalog_afresh() {
    let mut processor = connected(&["a", "b"]);
    describe(&mut processor, 1, vec![column("id", "int")]);
    assert_eq!(processor.db_table_data.current_working_table, Some(1));
    command(&mut processor, Communication::ValidateCreditentials(login("4308")));
    processor.listen(Event::Connected);
    processor.listen(Event::TableNames(Ok(vec!["c".to_string()])));
    assert_eq!(processor.db_table_data.tables.len(), 1);
    assert_eq!(processor.db_table_data.tables[0].name, "c");
    assert!(processor.db_table_data.tables[0].fields.is_none());
    assert_eq!(processor.db_table_data.current_working_table, None);
    assert_eq!(processor.db_login_data.port, "4308");
}
