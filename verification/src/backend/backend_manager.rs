//! The mapper, which finds for each field of a table the column of the grid
//! that is named like it, and the command processor, which carries out one
//! command after the other on the grid, the catalog and the session.

use crate::backend::csv_handler::{
    column_assigned, column_parsed, column_revalidated, first_data_row, table_of_bytes,
    with_column, DataEntry, DataEntryView, ImportError, ImportFault, ImportedData,
    ImportedDataView,
};
use crate::backend::database_handler::{
    connection_request, described_fields, fields_view, insert_statement, listed_tables,
    plain_statement, row_refs_view, settled, ConnectionError, ConnectionFault, DBLoginData,
    DBLoginDataView, MappingError, QueryFault, QueryResult, QueryResultView, SchemaError,
    Statement, Table, TableField, TableFieldView, TableView, Tables, TablesView,
};
use crate::backend::processor_laws::{
    lemma_mapping_keeps_well_formed, lemma_step_keeps_table_well_formed,
};
pub use crate::backend::protocol::Communication;
use crate::backend::protocol::{
    Action, ActionView, CommunicationView, Event, EventView, Reply, ReplyView, Stage, StageView,
};
use crate::backend::table_grid::grid_get;
use vstd::prelude::*;

verus! {

/// Whether as many columns are accepted as the table has.
pub fn is_whole_table_parsed(csv_data: &ImportedData) -> (b: bool)
    ensures
        b == (csv_data@.parsed_cols.len() == csv_data@.width),
{
    csv_data.cols() == csv_data.parsed_cols.len()
}

/// Whether every data cell of a column has been validated and accepted.
pub fn is_whole_col_parsed(csv_data: &ImportedData, col_index: usize) -> (r: Result<
    bool,
    SchemaError,
>)
    ensures
        col_index < csv_data@.width ==> r == Ok::<bool, SchemaError>(
            column_parsed(csv_data@.cells, col_index as int, csv_data@.are_headers),
        ),
        col_index >= csv_data@.width ==> r == Err::<bool, SchemaError>(
            SchemaError::NoSuchColumn(col_index),
        ),
{
    if col_index >= csv_data.cols() {
        Err(SchemaError::NoSuchColumn(col_index))
    } else {
        Ok(csv_data.col_is_parsed(col_index))
    }
}

/// The texts of the cells of a row.
pub open spec fn row_texts(row: Seq<DataEntryView>) -> Seq<Seq<char>> {
    Seq::new(row.len(), |c: int| row[c].data)
}

/// The last column whose header reads `name`.
pub open spec fn last_match(header: Seq<Seq<char>>, name: Seq<char>) -> Option<usize>
    decreases header.len(),
{
    if header.len() == 0 {
        None
    } else if header.last() == name {
        Some((header.len() - 1) as usize)
    } else {
        last_match(header.drop_last(), name)
    }
}

/// A field after the mapper has looked for its name among the headers: it
/// is mapped to the last column named like it, and keeps its mapping where
/// there is no such column.
pub open spec fn remapped(field: TableFieldView, header: Seq<Seq<char>>) -> TableFieldView {
    match last_match(header, field.description.field) {
        Some(col) => TableFieldView { mapped_to_col: Some(col), ..field },
        None => field,
    }
}

/// The fields of a table after the mapper has looked for each of them.
pub open spec fn fields_remapped(fields: Seq<TableFieldView>, header: Seq<Seq<char>>) -> Seq<
    TableFieldView,
> {
    Seq::new(fields.len(), |i: int| remapped(fields[i], header))
}

/// Whether a header names one of the fields.
pub open spec fn any_match(fields: Seq<TableFieldView>, header: Seq<Seq<char>>) -> bool {
    exists|i: int|
        0 <= i < fields.len() && last_match(header, (#[trigger] fields[i]).description.field)
            is Some
}

/// The table after the columns of the given fields have been validated, one
/// field after the other: each cell of a field's column is given the field
/// and validated for it. A field without a column, or with a column that
/// the table does not have, is passed over.
pub open spec fn columns_validated(table: ImportedDataView, fields: Seq<TableFieldView>)
    -> ImportedDataView
    decreases fields.len(),
{
    if fields.len() == 0 {
        table
    } else {
        let before = columns_validated(table, fields.drop_last());
        match fields.last().mapped_to_col {
            Some(col) => if col < before.width {
                with_column(
                    before,
                    column_assigned(before.cells, col as int, fields.last().description),
                    col,
                )
            } else {
                before
            },
            None => before,
        }
    }
}

/// The table that the mapper works on: the one asked for, or else the one
/// that is selected in the catalog.
pub open spec fn target_table(tables: TablesView, table_index: Option<usize>) -> Option<usize> {
    match table_index {
        Some(index) => Some(index),
        None => tables.current_working_table,
    }
}

/// A catalog in which the table at `index` has the given fields.
pub open spec fn with_fields(tables: TablesView, index: int, fields: Seq<TableFieldView>)
    -> TablesView {
    TablesView {
        tables: tables.tables.update(
            index,
            TableView { name: tables.tables[index].name, fields: Some(fields) },
        ),
        ..tables
    }
}

/// What the mapper does: its answer, and the catalog and the grid as it
/// leaves them.
///
/// It does nothing unless the grid has a header row, and then only to a
/// table that has been described. Each field of that table is mapped to the
/// last column whose header reads the field's name. If there is such a
/// column for at least one field, the column of every mapped field is
/// validated, and the answer is `true`.
pub open spec fn mapping(tables: TablesView, table_index: Option<usize>, csv: ImportedDataView)
    -> (Result<bool, SchemaError>, TablesView, ImportedDataView) {
    if !csv.are_headers || csv.cells.len() == 0 || csv.width == 0 {
        (Ok(false), tables, csv)
    } else {
        match target_table(tables, table_index) {
            None => (Ok(false), tables, csv),
            Some(index) => if index >= tables.tables.len() {
                (Err(SchemaError::NoSuchTable(index)), tables, csv)
            } else {
                match tables.tables[index as int].fields {
                    None => (Ok(false), tables, csv),
                    Some(fields) => {
                        let header = row_texts(csv.cells[0]);
                        if any_match(fields, header) {
                            let fields = fields_remapped(fields, header);
                            (
                                Ok(true),
                                with_fields(tables, index as int, fields),
                                columns_validated(csv, fields),
                            )
                        } else {
                            (Ok(false), tables, csv)
                        }
                    },
                }
            },
        }
    }
}

/// Finds the last column whose header reads `name`.
fn find_header(csv_data: &ImportedData, name: &String) -> (found: Option<usize>)
    requires
        csv_data@.cells.len() > 0,
    ensures
        found == last_match(row_texts(csv_data@.cells[0]), name@),
        found matches Some(col) ==> col < csv_data@.width,
{
    let width = csv_data.cols();
    let ghost header = row_texts(csv_data@.cells[0]);
    let mut found: Option<usize> = None;
    let mut c: usize = 0;
    proof {
        assert(header.take(0) =~= Seq::<Seq<char>>::empty());
    }
    while c < width
        invariant
            c <= width,
            width == csv_data@.width,
            csv_data@.cells.len() > 0,
            header == row_texts(csv_data@.cells[0]),
            header.len() == width,
            found == last_match(header.take(c as int), name@),
            found matches Some(col) ==> col < width,
        decreases width - c,
    {
        proof {
            assert(header.take(c + 1).drop_last() =~= header.take(c as int));
        }
        match grid_get(&csv_data.data, 0, c) {
            Some(cell) => {
                assert(cell@ == csv_data@.cells[0][c as int]);
                if cell.data == *name {
                    found = Some(c);
                }
            },
            None => {},
        }
        c = c + 1;
    }
    proof {
        assert(header.take(width as int) =~= header);
    }
    found
}

/// Maps the fields of a table to the columns that are named like them, and
/// validates the columns of the mapped fields. The answer says whether a
/// column was found for at least one field.
pub fn try_match_headers_to_fields(
    tables: &mut Tables,
    table_index: Option<usize>,
    csv_data: &mut ImportedData,
) -> (r: Result<bool, SchemaError>)
    ensures
        (r, final(tables)@, final(csv_data)@) == mapping(old(tables)@, table_index, old(csv_data)@),
        old(csv_data)@.well_formed() ==> final(csv_data)@.well_formed(),
{
    proof {
        if csv_data@.well_formed() {
            lemma_mapping_keeps_well_formed(tables@, table_index, csv_data@);
        }
    }
    if !csv_data.are_headers || csv_data.is_empty() {
        return Ok(false);
    }
    let index: usize = match table_index {
        Some(index) => index,
        None => match tables.current_working_table {
            Some(index) => index,
            None => {
                return Ok(false);
            },
        },
    };
    if index >= tables.tables.len() {
        return Err(SchemaError::NoSuchTable(index));
    }
    let ghost header = row_texts(csv_data@.cells[0]);
    let ghost old_fields = tables@.tables[index as int].fields;
    let mut fields: Vec<TableField> = Vec::new();
    let mut has_matched_some = false;
    match &tables.tables[index].fields {
        None => {
            return Ok(false);
        },
        Some(db_fields) => {
            let ghost known = fields_view(db_fields@);
            assert(old_fields == Some(known));
            let mut i: usize = 0;
            while i < db_fields.len()
                invariant
                    i <= db_fields.len(),
                    csv_data@.cells.len() > 0,
                    header == row_texts(csv_data@.cells[0]),
                    known == fields_view(db_fields@),
                    fields.len() == i,
                    forall|j: int| 0 <= j < i ==> (#[trigger] fields@[j])@ == remapped(known[j], header),
                    has_matched_some == exists|j: int|
                        0 <= j < i && last_match(header, (#[trigger] known[j]).description.field)
                            is Some,
                decreases db_fields.len() - i,
            {
                let field = &db_fields[i];
                assert(field@ == known[i as int]);
                let found = find_header(csv_data, &field.description.field);
                let mut next = field.clone();
                match found {
                    Some(col) => {
                        next.mapped_to_col = Some(col);
                        has_matched_some = true;
                    },
                    None => {},
                }
                fields.push(next);
                i = i + 1;
            }
            assert(fields_view(fields@) =~= fields_remapped(known, header));
            assert(has_matched_some == any_match(known, header));
        },
    }
    if !has_matched_some {
        return Ok(false);
    }
    let ghost start = csv_data@;
    let ghost mapped_fields = fields_view(fields@);
    let width = csv_data.cols();
    let mut k: usize = 0;
    proof {
        assert(mapped_fields.take(0) =~= Seq::<TableFieldView>::empty());
    }
    while k < fields.len()
        invariant
            k <= fields.len(),
            mapped_fields == fields_view(fields@),
            width == start.width,
            csv_data@ == columns_validated(start, mapped_fields.take(k as int)),
            csv_data@.width == start.width,
        decreases fields.len() - k,
    {
        proof {
            assert(mapped_fields.take(k + 1).drop_last() =~= mapped_fields.take(k as int));
            assert(mapped_fields.take(k + 1).last() == fields@[k as int]@);
        }
        match fields[k].mapped_to_col {
            Some(col) => {
                if col < width {
                    let _ = csv_data.assign_col(col, &fields[k].description);
                }
            },
            None => {},
        }
        k = k + 1;
    }
    proof {
        assert(mapped_fields.take(fields.len() as int) =~= mapped_fields);
    }
    let name = tables.tables[index].name.clone();
    let ghost before = tables@;
    tables.tables.set(index, Table { name, fields: Some(fields) });
    proof {
        assert(tables@.tables =~= with_fields(before, index as int, mapped_fields).tables);
    }
    Ok(true)
}

/// The command processor: the credentials, the grid and the catalog that
/// it works on, and what it is in the middle of.
pub struct BackendManger {
    pub db_login_data: DBLoginData,
    pub imported_data: ImportedData,
    pub db_table_data: Tables,
    pub stage: Stage,
}

/// The processor as the contracts see it.
pub struct BackendView {
    pub login: DBLoginDataView,
    pub csv: ImportedDataView,
    pub tables: TablesView,
    pub stage: StageView,
}

impl View for BackendManger {
    type V = BackendView;

    open spec fn view(&self) -> BackendView {
        BackendView {
            login: self.db_login_data@,
            csv: self.imported_data@,
            tables: self.db_table_data@,
            stage: self.stage@,
        }
    }
}

/// The event is not waited for: nothing changes.
pub open spec fn ignored(s: BackendView) -> (BackendView, ActionView) {
    (s, ActionView::Ignored)
}

/// The command is answered, and the processor is free again.
pub open spec fn replied(s: BackendView, reply: ReplyView) -> (BackendView, ActionView) {
    (BackendView { stage: StageView::Idle, ..s }, ActionView::Reply(reply))
}

/// The processor asks for something and waits for its outcome.
pub open spec fn waiting(s: BackendView, stage: StageView, action: ActionView) -> (
    BackendView,
    ActionView,
) {
    (BackendView { stage, ..s }, action)
}

/// Runs the mapper for a table and answers with what it found.
pub open spec fn mapped_reply(s: BackendView, table_index: Option<usize>) -> (
    BackendView,
    ActionView,
) {
    let (found, tables, csv) = mapping(s.tables, table_index, s.csv);
    let after = BackendView { tables, csv, ..s };
    match found {
        Ok(some) => if some {
            replied(after, ReplyView::Mapped(Ok(())))
        } else {
            replied(after, ReplyView::Mapped(Err(MappingError::NoHeaderMatched)))
        },
        Err(e) => replied(after, ReplyView::Rejected(e)),
    }
}

/// The catalog and the grid after a field of a table has been mapped to a
/// column by hand, and whether the column is then accepted as a whole. The
/// table has to be described, and the field and the column have to exist.
pub open spec fn field_mapped(
    tables: TablesView,
    csv: ImportedDataView,
    table: usize,
    field: usize,
    col: usize,
) -> Result<(TablesView, ImportedDataView, bool), SchemaError> {
    if table >= tables.tables.len() {
        Err(SchemaError::NoSuchTable(table))
    } else {
        match tables.tables[table as int].fields {
            None => Err(SchemaError::NotDescribed(table)),
            Some(fields) => if field >= fields.len() {
                Err(SchemaError::NoSuchField(field))
            } else if col >= csv.width {
                Err(SchemaError::NoSuchColumn(col))
            } else {
                let chosen = TableFieldView { mapped_to_col: Some(col), ..fields[field as int] };
                let after = with_column(
                    csv,
                    column_assigned(csv.cells, col as int, chosen.description),
                    col,
                );
                Ok(
                    (
                        with_fields(tables, table as int, fields.update(field as int, chosen)),
                        after,
                        column_parsed(after.cells, col as int, after.are_headers),
                    ),
                )
            },
        }
    }
}

/// Goes on with the insertion at a row of the grid: the statement for the
/// row is sent, or, where none can be written, that is reported as the
/// row's result. Behind the last row the stream of results is ended.
pub open spec fn next_insert(s: BackendView, table: usize, row: int) -> (BackendView, ActionView) {
    if row >= s.csv.cells.len() {
        (BackendView { stage: StageView::Idle, ..s }, ActionView::Finished)
    } else {
        let statement = if table < s.tables.tables.len() {
            insert_statement(s.tables.tables[table as int], s.csv.cells[row])
        } else {
            Err(SchemaError::NoSuchTable(table))
        };
        match statement {
            Ok(statement) => waiting(
                s,
                StageView::Inserting { table, row: row as usize, query: statement.query },
                ActionView::Execute(statement),
            ),
            Err(e) => waiting(
                s,
                StageView::Reporting { table, row: row as usize },
                ActionView::Inserted(
                    QueryResultView { query: Seq::empty(), result: Err(QueryFault::Schema(e)) },
                ),
            ),
        }
    }
}

/// What the processor does with a command when it is free.
pub open spec fn on_command(s: BackendView, command: CommunicationView) -> (
    BackendView,
    ActionView,
) {
    match command {
        CommunicationView::ValidateCreditentials(login) => {
            let s = BackendView { login, ..s };
            match connection_request(login) {
                Ok(request) => waiting(s, StageView::Connecting, ActionView::Connect(request)),
                Err(e) => replied(s, ReplyView::Credentials(Err(e))),
            }
        },
        CommunicationView::LoadImportFilePath(path) => waiting(
            s,
            StageView::ReadingFile(path),
            ActionView::ReadFile(path),
        ),
        CommunicationView::GetTableDescription(table) => if table >= s.tables.tables.len() {
            replied(s, ReplyView::Rejected(SchemaError::NoSuchTable(table)))
        } else {
            let s = BackendView {
                tables: TablesView { current_working_table: Some(table), ..s.tables },
                ..s
            };
            if s.tables.tables[table as int].fields is Some {
                mapped_reply(s, Some(table))
            } else if !s.tables.is_connection_verified {
                replied(s, ReplyView::Rejected(SchemaError::NotConnected))
            } else {
                waiting(
                    s,
                    StageView::Describing(table),
                    ActionView::Describe(
                        plain_statement("DESCRIBE "@ + s.tables.tables[table as int].name),
                    ),
                )
            }
        },
        CommunicationView::TryParseCol(col) => if col < s.csv.width {
            let csv = with_column(s.csv, column_revalidated(s.csv.cells, col as int), col);
            replied(
                BackendView { csv, ..s },
                ReplyView::ColumnParsed(column_parsed(csv.cells, col as int, csv.are_headers)),
            )
        } else {
            replied(s, ReplyView::Rejected(SchemaError::NoSuchColumn(col)))
        },
        CommunicationView::MapFieldToCol(table, field, col) => match field_mapped(
            s.tables,
            s.csv,
            table,
            field,
            col,
        ) {
            Ok((tables, csv, accepted)) => replied(
                BackendView { tables, csv, ..s },
                ReplyView::ColumnParsed(accepted),
            ),
            Err(e) => replied(s, ReplyView::Rejected(e)),
        },
        CommunicationView::StartInserting(table) => if table >= s.tables.tables.len() {
            replied(s, ReplyView::Rejected(SchemaError::NoSuchTable(table)))
        } else if !s.tables.is_connection_verified {
            replied(s, ReplyView::Rejected(SchemaError::NotConnected))
        } else {
            waiting(
                s,
                StageView::DisablingAutocommit(table),
                ActionView::Execute(plain_statement("SET autocommit = OFF"@)),
            )
        },
        CommunicationView::TryCommit => if !s.tables.is_connection_verified {
            replied(s, ReplyView::Rejected(SchemaError::NotConnected))
        } else {
            waiting(s, StageView::Committing, ActionView::Execute(plain_statement("COMMIT"@)))
        },
        CommunicationView::TryRollBack => if !s.tables.is_connection_verified {
            replied(s, ReplyView::Rejected(SchemaError::NotConnected))
        } else {
            waiting(s, StageView::RollingBack, ActionView::Execute(plain_statement("ROLLBACK"@)))
        },
    }
}

/// The processor with the session marked as open or not.
pub open spec fn with_session(s: BackendView, open: bool) -> BackendView {
    BackendView {
        login: DBLoginDataView { is_verified: open, ..s.login },
        tables: TablesView { is_connection_verified: open, ..s.tables },
        ..s
    }
}

/// The processor's rule: what it becomes on an event, and what it asks for.
///
/// A command is taken up only when the processor is free. While it waits
/// for the outcome of an action, only that outcome moves it on; any other
/// event is ignored and leaves it as it is.
pub open spec fn step(s: BackendView, event: EventView) -> (BackendView, ActionView) {
    match (s.stage, event) {
        (StageView::Idle, EventView::Command(command)) => on_command(s, command),
        (StageView::Connecting, EventView::Connected) => waiting(
            with_session(s, true),
            StageView::ListingTables,
            ActionView::ListTables(plain_statement("SHOW TABLES"@)),
        ),
        (StageView::Connecting, EventView::ConnectionFailed(reason)) => replied(
            with_session(s, false),
            ReplyView::Credentials(Err(ConnectionFault::Refused(reason))),
        ),
        (StageView::ListingTables, EventView::TableNames(Ok(names))) => replied(
            BackendView {
                tables: TablesView {
                    tables: listed_tables(names),
                    current_working_table: None,
                    is_connection_verified: s.tables.is_connection_verified,
                },
                ..s
            },
            ReplyView::Credentials(Ok(())),
        ),
        (StageView::ListingTables, EventView::TableNames(Err(reason))) => replied(
            s,
            ReplyView::Credentials(Err(ConnectionFault::NoTables(reason))),
        ),
        (StageView::ReadingFile(path), EventView::File(Ok(bytes))) => match table_of_bytes(
            path,
            bytes,
        ) {
            Ok(table) => {
                let (_, tables, csv) = mapping(s.tables, None, table);
                replied(BackendView { tables, csv, ..s }, ReplyView::FileLoaded(Ok(())))
            },
            Err(e) => replied(s, ReplyView::FileLoaded(Err(e))),
        },
        (StageView::ReadingFile(_), EventView::File(Err(reason))) => replied(
            s,
            ReplyView::FileLoaded(Err(ImportFault::Unreadable(reason))),
        ),
        (StageView::Describing(table), EventView::Description(Ok(columns))) => if table
            >= s.tables.tables.len() {
            replied(s, ReplyView::Rejected(SchemaError::NoSuchTable(table)))
        } else {
            let described = match s.tables.tables[table as int].fields {
                Some(_) => s.tables,
                None => with_fields(s.tables, table as int, described_fields(columns)),
            };
            mapped_reply(BackendView { tables: described, ..s }, Some(table))
        },
        (StageView::Describing(table), EventView::Description(Err(reason))) => replied(
            s,
            ReplyView::Query(
                settled(
                    if table < s.tables.tables.len() {
                        "DESCRIBE "@ + s.tables.tables[table as int].name
                    } else {
                        "DESCRIBE "@
                    },
                    Err(reason),
                ),
            ),
        ),
        (StageView::DisablingAutocommit(table), EventView::Executed(answer)) => match answer {
            Ok(_) => waiting(
                s,
                StageView::Beginning(table),
                ActionView::Execute(plain_statement("BEGIN"@)),
            ),
            Err(_) => waiting(
                s,
                StageView::ReportingStart(table),
                ActionView::Opened(settled("SET autocommit = OFF"@, answer)),
            ),
        },
        (StageView::Beginning(table), EventView::Executed(answer)) => waiting(
            s,
            StageView::ReportingStart(table),
            ActionView::Opened(settled("BEGIN"@, answer)),
        ),
        (StageView::ReportingStart(table), EventView::Delivered) => next_insert(
            s,
            table,
            first_data_row(s.csv.are_headers),
        ),
        (StageView::Inserting { table, row, query }, EventView::Executed(answer)) => waiting(
            s,
            StageView::Reporting { table, row },
            ActionView::Inserted(settled(query, answer)),
        ),
        (StageView::Reporting { table, row }, EventView::Delivered) => next_insert(
            s,
            table,
            row + 1,
        ),
        (StageView::Committing, EventView::Executed(answer)) => replied(
            s,
            ReplyView::Query(settled("COMMIT"@, answer)),
        ),
        (StageView::RollingBack, EventView::Executed(answer)) => replied(
            s,
            ReplyView::Query(settled("ROLLBACK"@, answer)),
        ),
        _ => ignored(s),
    }
}

impl Default for BackendManger {
    /// A processor that is free, without a session, with an empty grid and
    /// an empty catalog.
    fn default() -> (res: Self)
        ensures
            res@.stage == StageView::Idle,
            res@.csv.cells.len() == 0,
            res@.csv.well_formed(),
            res@.tables.tables.len() == 0,
            !res@.tables.is_connection_verified,
    {
        BackendManger {
            db_login_data: DBLoginData::default(),
            imported_data: ImportedData::default(),
            db_table_data: Tables::default(),
            stage: Stage::Idle,
        }
    }
}

impl BackendManger {
    /// Answers the command in hand and frees the processor.
    fn reply(&mut self, reply: Reply) -> (action: Action)
        ensures
            (final(self)@, action@) == replied(old(self)@, reply@),
    {
        self.stage = Stage::Idle;
        Action::Reply(reply)
    }

    /// Asks for an action and waits for its outcome.
    fn wait(&mut self, stage: Stage, action: Action) -> (asked: Action)
        ensures
            (final(self)@, asked@) == waiting(old(self)@, stage@, action@),
    {
        self.stage = stage;
        action
    }

    /// Runs the mapper for a table and answers with what it found.
    fn map_reply(&mut self, table_index: Option<usize>) -> (action: Action)
        ensures
            (final(self)@, action@) == mapped_reply(old(self)@, table_index),
    {
        let found = try_match_headers_to_fields(
            &mut self.db_table_data,
            table_index,
            &mut self.imported_data,
        );
        match found {
            Ok(some) => if some {
                self.reply(Reply::Mapped(Ok(())))
            } else {
                self.reply(Reply::Mapped(Err(MappingError::NoHeaderMatched)))
            },
            Err(e) => self.reply(Reply::Rejected(e)),
        }
    }

    /// Maps a field of a table to a column by hand and validates the column.
    fn map_field(&mut self, table: usize, field: usize, col: usize) -> (action: Action)
        ensures
            (final(self)@, action@) == on_command(
                old(self)@,
                CommunicationView::MapFieldToCol(table, field, col),
            ),
    {
        if table >= self.db_table_data.tables.len() {
            return self.reply(Reply::Rejected(SchemaError::NoSuchTable(table)));
        }
        let fields: usize = match &self.db_table_data.tables[table].fields {
            Some(list) => list.len(),
            None => {
                return self.reply(Reply::Rejected(SchemaError::NotDescribed(table)));
            },
        };
        if field >= fields {
            return self.reply(Reply::Rejected(SchemaError::NoSuchField(field)));
        }
        if col >= self.imported_data.cols() {
            return self.reply(Reply::Rejected(SchemaError::NoSuchColumn(col)));
        }
        let description = self.db_table_data.set_mapping(table, field, col);
        match self.imported_data.assign_col(col, &description) {
            Ok(accepted) => self.reply(Reply::ColumnParsed(accepted)),
            Err(e) => self.reply(Reply::Rejected(e)),
        }
    }

    /// Takes up a command. The processor is free when this is called.
    fn command(&mut self, command: Communication) -> (action: Action)
        ensures
            (final(self)@, action@) == on_command(old(self)@, command@),
    {
        match command {
            Communication::ValidateCreditentials(login) => {
                self.db_login_data = login;
                match self.db_login_data.validate_creditentials() {
                    Ok(request) => self.wait(Stage::Connecting, Action::Connect(request)),
                    Err(e) => self.reply(Reply::Credentials(Err(e))),
                }
            },
            Communication::LoadImportFilePath(path) => {
                let asked = path.clone();
                self.wait(Stage::ReadingFile(path), Action::ReadFile(asked))
            },
            Communication::GetTableDescription(table) => {
                if table >= self.db_table_data.tables.len() {
                    return self.reply(Reply::Rejected(SchemaError::NoSuchTable(table)));
                }
                self.db_table_data.current_working_table = Some(table);
                if self.db_table_data.tables[table].fields.is_some() {
                    return self.map_reply(Some(table));
                }
                if !self.db_table_data.is_connection_verified {
                    return self.reply(Reply::Rejected(SchemaError::NotConnected));
                }
                let statement = self.db_table_data.tables[table].describe_statement();
                self.wait(Stage::Describing(table), Action::Describe(statement))
            },
            Communication::TryParseCol(col) => match self.imported_data.parse_col(col) {
                Ok(accepted) => self.reply(Reply::ColumnParsed(accepted)),
                Err(e) => self.reply(Reply::Rejected(e)),
            },
            Communication::MapFieldToCol(table, field, col) => self.map_field(table, field, col),
            Communication::StartInserting(table) => {
                if table >= self.db_table_data.tables.len() {
                    return self.reply(Reply::Rejected(SchemaError::NoSuchTable(table)));
                }
                if !self.db_table_data.is_connection_verified {
                    return self.reply(Reply::Rejected(SchemaError::NotConnected));
                }
                self.wait(
                    Stage::DisablingAutocommit(table),
                    Action::Execute(Statement::autocommit_off()),
                )
            },
            Communication::TryCommit => {
                if !self.db_table_data.is_connection_verified {
                    return self.reply(Reply::Rejected(SchemaError::NotConnected));
                }
                self.wait(Stage::Committing, Action::Execute(Statement::commit()))
            },
            Communication::TryRollBack => {
                if !self.db_table_data.is_connection_verified {
                    return self.reply(Reply::Rejected(SchemaError::NotConnected));
                }
                self.wait(Stage::RollingBack, Action::Execute(Statement::rollback()))
            },
        }
    }

    /// Goes on with the insertion at a row of the grid.
    fn insert_next(&mut self, table: usize, row: usize) -> (action: Action)
        ensures
            (final(self)@, action@) == next_insert(old(self)@, table, row as int),
    {
        let rows = self.imported_data.rows();
        if row >= rows {
            self.stage = Stage::Idle;
            return Action::Finished;
        }
        if table >= self.db_table_data.tables.len() {
            return self.wait(
                Stage::Reporting { table, row },
                Action::Inserted(QueryResult::unwritten(SchemaError::NoSuchTable(table))),
            );
        }
        let width = self.imported_data.cols();
        let mut cells: Vec<&DataEntry> = Vec::new();
        let mut c: usize = 0;
        while c < width
            invariant
                c <= width,
                row < rows,
                rows == self@.csv.cells.len(),
                width == self@.csv.width,
                self@.csv.cells[row as int].len() == width,
                cells.len() == c,
                forall|j: int| 0 <= j < c ==> (*(#[trigger] cells@[j]))@ == self@.csv.cells[row as int][j],
            decreases width - c,
        {
            match grid_get(&self.imported_data.data, row, c) {
                Some(cell) => {
                    assert(cell@ == self@.csv.cells[row as int][c as int]);
                    cells.push(cell);
                },
                None => {},
            }
            c = c + 1;
        }
        proof {
            assert(row_refs_view(cells@) =~= self@.csv.cells[row as int]);
        }
        match self.db_table_data.tables[table].insert_into_table(cells) {
            Ok(statement) => {
                let query = statement.query.clone();
                self.wait(Stage::Inserting { table, row, query }, Action::Execute(statement))
            },
            Err(e) => self.wait(
                Stage::Reporting { table, row },
                Action::Inserted(QueryResult::unwritten(e)),
            ),
        }
    }

    /// Takes one event and answers with the action that the program has to
    /// carry out next.
    pub fn listen(&mut self, event: Event) -> (action: Action)
        ensures
            (final(self)@, action@) == step(old(self)@, event@),
            old(self)@.csv.well_formed() ==> final(self)@.csv.well_formed(),
    {
        proof {
            if self@.csv.well_formed() {
                lemma_step_keeps_table_well_formed(self@, event@);
            }
        }
        let stage = self.stage.clone();
        match (stage, event) {
            (Stage::Idle, Event::Command(command)) => self.command(command),
            (Stage::Connecting, Event::Connected) => {
                self.db_login_data.is_verified = true;
                self.db_table_data.is_connection_verified = true;
                self.wait(Stage::ListingTables, Action::ListTables(Statement::show_tables()))
            },
            (Stage::Connecting, Event::ConnectionFailed(reason)) => {
                self.db_login_data.is_verified = false;
                self.db_table_data.is_connection_verified = false;
                self.reply(Reply::Credentials(Err(ConnectionError::Refused(reason))))
            },
            (Stage::ListingTables, Event::TableNames(Ok(names))) => {
                self.db_table_data.query_for_tables(names);
                self.reply(Reply::Credentials(Ok(())))
            },
            (Stage::ListingTables, Event::TableNames(Err(reason))) => self.reply(
                Reply::Credentials(Err(ConnectionError::NoTables(reason))),
            ),
            (Stage::ReadingFile(path), Event::File(Ok(bytes))) => {
                match ImportedData::from_bytes(path, bytes.as_slice()) {
                    Ok(table) => {
                        self.imported_data = table;
                        let _ = try_match_headers_to_fields(
                            &mut self.db_table_data,
                            None,
                            &mut self.imported_data,
                        );
                        self.reply(Reply::FileLoaded(Ok(())))
                    },
                    Err(e) => self.reply(Reply::FileLoaded(Err(e))),
                }
            },
            (Stage::ReadingFile(_), Event::File(Err(reason))) => self.reply(
                Reply::FileLoaded(Err(ImportError::Unreadable(reason))),
            ),
            (Stage::Describing(table), Event::Description(Ok(columns))) => {
                if table >= self.db_table_data.tables.len() {
                    return self.reply(Reply::Rejected(SchemaError::NoSuchTable(table)));
                }
                self.db_table_data.describe_table_at(table, columns);
                self.map_reply(Some(table))
            },
            (Stage::Describing(table), Event::Description(Err(reason))) => {
                let statement = if table < self.db_table_data.tables.len() {
                    self.db_table_data.tables[table].describe_statement()
                } else {
                    Statement::plain("DESCRIBE ")
                };
                proof {
                    assert("DESCRIBE "@ + Seq::<char>::empty() =~= "DESCRIBE "@);
                }
                self.reply(Reply::Query(QueryResult::settle(statement.query, Err(reason))))
            },
            (Stage::DisablingAutocommit(table), Event::Executed(answer)) => {
                match Table::start_transaction(answer) {
                    Ok(begin) => self.wait(Stage::Beginning(table), Action::Execute(begin)),
                    Err(result) => self.wait(Stage::ReportingStart(table), Action::Opened(result)),
                }
            },
            (Stage::Beginning(table), Event::Executed(answer)) => self.wait(
                Stage::ReportingStart(table),
                Action::Opened(QueryResult::settle("BEGIN".to_owned(), answer)),
            ),
            (Stage::ReportingStart(table), Event::Delivered) => {
                let first: usize = if self.imported_data.are_headers {
                    1
                } else {
                    0
                };
                self.insert_next(table, first)
            },
            (Stage::Inserting { table, row, query }, Event::Executed(answer)) => self.wait(
                Stage::Reporting { table, row },
                Action::Inserted(QueryResult::settle(query, answer)),
            ),
            (Stage::Reporting { table, row }, Event::Delivered) => {
                if row >= self.imported_data.rows() {
                    self.stage = Stage::Idle;
                    Action::Finished
                } else {
                    self.insert_next(table, row + 1)
                }
            },
            (Stage::Committing, Event::Executed(answer)) => self.reply(
                Reply::Query(Table::transaction_commit(answer)),
            ),
            (Stage::RollingBack, Event::Executed(answer)) => self.reply(
                Reply::Query(Table::transaction_rollback(answer)),
            ),
            _ => Action::Ignored,
        }
    }
}

} // verus!
