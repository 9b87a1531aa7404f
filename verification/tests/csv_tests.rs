use csql::backend::backend_manager::{is_whole_col_parsed, is_whole_table_parsed};
use csql::backend::csv_handler::{DataEntry, ImportError, ImportedData};
use csql::backend::database_handler::{FieldDescription, SchemaError};
use csql::backend::parser::ParseError;

fn texts(table: &ImportedData) -> Vec<Vec<String>> {
    (0..table.data.rows())
        .map(|r| table.data.iter_row(r).map(|cell| cell.data.clone()).collect())
        .collect()
}

fn list(items: &[&str]) -> Vec<String> {
    items.iter().map(|s| s.to_string()).collect()
}

fn described(field_type: &str) -> FieldDescription {
    FieldDescription {
        field: "f".to_string(),
        field_type: field_type.to_string(),
        null: String::new(),
        key: String::new(),
        default: None,
        extra: String::new(),
    }
}

fn loaded(text: &str) -> ImportedData {
    let mut table = ImportedData::default();
    table.load_csv(text.as_bytes()).unwrap();
    table
}

#[test]
fn the_empty_table_counts_as_parsed() {
    let table = ImportedData::default();
    assert_eq!(table.rows(), 0);
    assert_eq!(table.cols(), 0);
    assert!(table.is_empty());
    assert!(table.parsed_cols.is_empty());
    assert!(table.is_parsed);
    assert!(!table.are_headers);
    assert!(is_whole_table_parsed(&table));
}

#[test]
fn a_file_with_a_header_is_loaded_whole() {
    let table = loaded("id,name\n1,Tea\n2,Milk\n");
    assert!(table.are_headers);
    assert_eq!(table.rows(), 3);
    assert_eq!(table.cols(), 2);
    assert!(!table.is_empty());
    assert_eq!(
        texts(&table),
        vec![list(&["id", "name"]), list(&["1", "Tea"]), list(&["2", "Milk"])]
    );
    assert!(table.data.iter().all(|c| c.curr_field_description.is_none() && c.is_parsed.is_none()));
    assert!(table.parsed_cols.is_empty());
    assert!(!table.is_parsed);
    assert!(!is_whole_table_parsed(&table));
}

#[test]
fn quoted_fields_are_read_as_text() {
    let table = loaded("a,b\n\"x,1\",\"say \"\"hi\"\"\"\n");
    assert_eq!(texts(&table), vec![list(&["a", "b"]), list(&["x,1", "say \"hi\""])]);
}

#[test]
fn values_are_kept_as_they_are_written() {
    let table = loaded("n\n 007 \n1e3\n");
    assert_eq!(texts(&table), vec![list(&["n"]), list(&[" 007 "]), list(&["1e3"])]);
}

#[test]
fn a_file_of_a_header_alone_has_one_row() {
    let table = loaded("id,name\n");
    assert!(table.are_headers);
    assert_eq!(table.rows(), 1);
    assert_eq!(table.cols(), 2);
}

#[test]
fn an_empty_file_gives_a_table_without_cells() {
    let table = loaded("");
    assert!(table.are_headers);
    assert_eq!(table.rows(), 0);
    assert_eq!(table.cols(), 0);
    assert!(table.is_empty());
    assert!(table.is_parsed);
}

#[test]
fn a_failed_load_leaves_the_table_as_it_was() {
    let mut table = loaded("id,name\n1,Tea\n");
    table.path = "first.csv".to_string();
    assert!(table.assign_col(0, &described("int")).unwrap());
    let before = texts(&table);
    let error = table.load_csv("a,b\n1,2,3\n".as_bytes()).unwrap_err();
    assert!(matches!(error, ImportError::Malformed(_)));
    assert_eq!(texts(&table), before);
    assert_eq!(table.path, "first.csv");
    assert!(table.are_headers);
    assert_eq!(table.parsed_cols, vec![0]);
    let error = table.load_csv(&[b'a', b'\n', 0xff, 0xfe, b'\n']).unwrap_err();
    assert!(matches!(error, ImportError::Malformed(_)));
    assert_eq!(texts(&table), before);
}

#[test]
fn a_successful_load_replaces_the_table() {
    let mut table = loaded("id,name\n1,Tea\n");
    table.path = "kept.csv".to_string();
    table.data.get_mut(1, 0).unwrap().curr_field_description = Some(described("int"));
    assert!(table.parse_col(0).unwrap());
    assert_eq!(table.parsed_cols, vec![0]);
    table.load_csv("x\n5\n6\n".as_bytes()).unwrap();
    assert_eq!(texts(&table), vec![list(&["x"]), list(&["5"]), list(&["6"])]);
    assert_eq!(table.path, "kept.csv");
    assert!(table.parsed_cols.is_empty());
    assert!(!table.is_parsed);
    assert!(table.data.iter().all(|c| c.curr_field_description.is_none() && c.is_parsed.is_none()));
}

#[test]
fn a_header_that_is_not_text_gives_a_blank_first_row() {
    let bytes = [0xff, b',', b'b', b'\n', b'1', b',', b'2', b'\n'];
    let table = ImportedData::from_bytes("p".to_string(), &bytes).unwrap();
    assert!(!table.are_headers);
    assert_eq!(texts(&table), vec![list(&["", ""]), list(&["1", "2"])]);
    assert_eq!(table.path, "p");
}

#[test]
fn records_and_header_make_the_table() {
    let table = ImportedData::from_records(
        "some/path.csv".to_string(),
        Some(list(&["a", "b"])),
        vec![list(&["1", "2"]), list(&["3", "4"])],
    )
    .unwrap();
    assert_eq!(table.path, "some/path.csv");
    assert!(table.are_headers);
    assert_eq!(texts(&table), vec![list(&["a", "b"]), list(&["1", "2"]), list(&["3", "4"])]);
    assert!(!table.is_parsed);
}

#[test]
fn records_without_a_header_get_a_blank_first_row() {
    let table =
        ImportedData::from_records(String::new(), None, vec![list(&["1", "2", "3"])]).unwrap();
    assert!(!table.are_headers);
    assert_eq!(texts(&table), vec![list(&["", "", ""]), list(&["1", "2", "3"])]);
    let none = ImportedData::from_records(String::new(), None, Vec::new()).unwrap();
    assert_eq!(none.rows(), 0);
    assert!(none.is_parsed);
}

#[test]
fn records_of_unequal_length_make_no_table() {
    let uneven = ImportedData::from_records(
        String::new(),
        Some(list(&["a", "b"])),
        vec![list(&["1", "2"]), list(&["3"])],
    );
    assert!(matches!(uneven, Err(ImportError::UnequalLengths)));
    let wider = ImportedData::from_records(String::new(), Some(Vec::new()), vec![list(&["1"])]);
    assert!(matches!(wider, Err(ImportError::UnequalLengths)));
    let headless =
        ImportedData::from_records(String::new(), None, vec![list(&["1"]), list(&["1", "2"])]);
    assert!(matches!(headless, Err(ImportError::UnequalLengths)));
}

#[test]
fn records_without_fields_make_a_table_without_cells() {
    let table =
        ImportedData::from_records(String::new(), Some(Vec::new()), vec![Vec::new(), Vec::new()])
            .unwrap();
    assert_eq!(table.rows(), 0);
    assert_eq!(table.cols(), 0);
    assert!(table.are_headers);
    assert!(table.is_parsed);
}

#[test]
fn a_column_is_validated_cell_by_cell() {
    let mut table = loaded("n\n1\n2\nthree\n");
    for r in 0..4 {
        table.data.get_mut(r, 0).unwrap().curr_field_description = Some(described("int"));
    }
    assert_eq!(table.parse_col(0).unwrap(), false);
    assert!(matches!(table.data.get(0, 0).unwrap().is_parsed, Some(Err(ParseError::NumberTooBig))));
    assert!(matches!(table.data.get(1, 0).unwrap().is_parsed, Some(Ok(()))));
    assert!(matches!(table.data.get(2, 0).unwrap().is_parsed, Some(Ok(()))));
    assert!(matches!(table.data.get(3, 0).unwrap().is_parsed, Some(Err(ParseError::NumberTooBig))));
    assert!(table.parsed_cols.is_empty());
    assert!(!table.is_parsed);
    assert_eq!(is_whole_col_parsed(&table, 0).unwrap(), false);
    table.data.get_mut(3, 0).unwrap().data = "3".to_string();
    assert_eq!(table.parse_col(0).unwrap(), true);
    assert_eq!(table.parsed_cols, vec![0]);
    assert!(table.is_parsed);
    assert_eq!(is_whole_col_parsed(&table, 0).unwrap(), true);
    assert!(is_whole_table_parsed(&table));
}

#[test]
fn validating_a_column_again_lists_it_once() {
    let mut table = loaded("n,m\n1,x\n");
    assert_eq!(table.assign_col(0, &described("int")).unwrap(), true);
    assert_eq!(table.parse_col(0).unwrap(), true);
    assert_eq!(table.parse_col(0).unwrap(), true);
    assert_eq!(table.parsed_cols, vec![0]);
    assert!(!table.is_parsed);
    assert_eq!(table.assign_col(1, &described("text")).unwrap(), true);
    assert_eq!(table.parsed_cols, vec![0, 1]);
    assert!(table.is_parsed);
    table.data.get_mut(1, 0).unwrap().data = "one".to_string();
    assert_eq!(table.parse_col(0).unwrap(), false);
    assert_eq!(table.parsed_cols, vec![1]);
    assert!(!table.is_parsed);
}

#[test]
fn cells_without_a_field_are_not_validated() {
    let mut table = loaded("n\n1\n");
    assert_eq!(table.parse_col(0).unwrap(), false);
    assert!(table.data.iter().all(|c| c.is_parsed.is_none()));
    assert!(table.parsed_cols.is_empty());
}

#[test]
fn a_column_of_a_header_alone_is_accepted() {
    let mut table = loaded("n\n");
    assert_eq!(table.parse_col(0).unwrap(), true);
    assert_eq!(table.parsed_cols, vec![0]);
    assert!(table.is_parsed);
}

#[test]
fn a_column_that_is_not_there_is_reported() {
    let mut table = loaded("a,b\n1,2\n");
    assert!(matches!(table.parse_col(2), Err(SchemaError::NoSuchColumn(2))));
    assert!(matches!(
        table.assign_col(7, &described("int")),
        Err(SchemaError::NoSuchColumn(7))
    ));
    assert!(matches!(is_whole_col_parsed(&table, 2), Err(SchemaError::NoSuchColumn(2))));
    assert!(table.data.iter().all(|c| c.curr_field_description.is_none()));
    let mut empty = ImportedData::default();
    assert!(matches!(empty.parse_col(0), Err(SchemaError::NoSuchColumn(0))));
}

#[test]
fn assigning_a_field_validates_every_cell_of_the_column() {
    let mut table = loaded("code,size\nab,1\nabcdef,2\n");
    assert_eq!(table.assign_col(0, &described("varchar(3)")).unwrap(), false);
    for r in 0..3 {
        let cell = table.data.get(r, 0).unwrap();
        assert_eq!(cell.curr_field_description.as_ref().unwrap().field_type, "varchar(3)");
        assert!(cell.is_parsed.is_some());
        assert!(table.data.get(r, 1).unwrap().curr_field_description.is_none());
        assert!(table.data.get(r, 1).unwrap().is_parsed.is_none());
    }
    assert!(matches!(table.data.get(1, 0).unwrap().is_parsed, Some(Ok(()))));
    assert!(matches!(table.data.get(2, 0).unwrap().is_parsed, Some(Err(ParseError::TooLong))));
}

#[test]
fn without_a_header_row_the_first_row_counts_as_data() {
    let mut grid = grid::Grid::new(0, 0);
    grid.push_row(vec![DataEntry::new("x".to_string())]);
    grid.push_row(vec![DataEntry::new("1".to_string())]);
    let mut table = ImportedData {
        data: grid,
        path: String::new(),
        are_headers: false,
        parsed_cols: Vec::new(),
        is_parsed: false,
    };
    assert_eq!(table.assign_col(0, &described("int")).unwrap(), false);
    table.are_headers = true;
    assert_eq!(table.parse_col(0).unwrap(), true);
    assert!(table.is_parsed);
}

#[test]
fn a_copy_holds_the_same_cells() {
    let mut table = loaded("a,b\n1,2\n");
    table.assign_col(1, &described("int")).unwrap();
    let mut copy = table.clone();
    assert_eq!(texts(&copy), texts(&table));
    assert_eq!(copy.parsed_cols, table.parsed_cols);
    assert_eq!(copy.is_parsed, table.is_parsed);
    assert!(matches!(copy.data.get(1, 1).unwrap().is_parsed, Some(Ok(()))));
    copy.data.get_mut(1, 1).unwrap().data = "changed".to_string();
    assert_eq!(table.data.get(1, 1).unwrap().data, "2");
}
