//! What holds of the mapper and of the command processor on every input.

use crate::backend::backend_manager::{
    columns_validated, field_mapped, fields_remapped, ignored, last_match, mapping, next_insert,
    row_texts, step, target_table, with_fields, BackendView,
};
use crate::backend::csv_handler::{
    column_assigned, column_revalidated, column_touched, first_data_row, table_of_bytes,
    ImportedDataView,
};
use crate::backend::database_handler::{
    described_fields, insert_statement, plain_statement, settled, QueryFault, QueryResultView,
    SchemaError, StatementView, TableFieldView, TablesView,
};
use crate::backend::grid_laws::{
    lemma_column_touched_keeps_well_formed, lemma_table_of_bytes_well_formed,
};
use crate::backend::protocol::{ActionView, CommunicationView, EventView, ReplyView, StageView};
use vstd::prelude::*;

verus! {

/// Among several columns with the same header, the mapper takes the last:
/// the column it finds reads the name, and no column behind it does. It
/// finds none only if no column reads the name.
pub proof fn lemma_last_match_wins(header: Seq<Seq<char>>, name: Seq<char>)
    requires
        header.len() <= usize::MAX,
    ensures
        match last_match(header, name) {
            Some(col) => {
                &&& col < header.len()
                &&& header[col as int] == name
                &&& forall|j: int| col < j < header.len() ==> header[j] != name
            },
            None => forall|j: int| 0 <= j < header.len() ==> header[j] != name,
        },
    decreases header.len(),
{
    if header.len() > 0 && header.last() != name {
        lemma_last_match_wins(header.drop_last(), name);
        match last_match(header.drop_last(), name) {
            Some(col) => {
                assert(header.drop_last()[col as int] == header[col as int]);
                assert forall|j: int| col < j < header.len() implies header[j] != name by {
                    if j < header.len() - 1 {
                        assert(header.drop_last()[j] == header[j]);
                    }
                }
            },
            None => {
                assert forall|j: int| 0 <= j < header.len() implies header[j] != name by {
                    if j < header.len() - 1 {
                        assert(header.drop_last()[j] == header[j]);
                    }
                }
            },
        }
    }
}

/// Validating the columns of mapped fields keeps the table well formed and
/// as wide as it was.
pub proof fn lemma_columns_validated_keeps_well_formed(
    table: ImportedDataView,
    fields: Seq<TableFieldView>,
)
    requires
        table.well_formed(),
    ensures
        columns_validated(table, fields).well_formed(),
        columns_validated(table, fields).width == table.width,
    decreases fields.len(),
{
    if fields.len() > 0 {
        lemma_columns_validated_keeps_well_formed(table, fields.drop_last());
        let before = columns_validated(table, fields.drop_last());
        match fields.last().mapped_to_col {
            Some(col) => {
                if col < before.width {
                    lemma_column_touched_keeps_well_formed(
                        before,
                        col,
                        Some(fields.last().description),
                    );
                    assert(column_touched(before.cells, col as int, Some(fields.last().description))
                        =~= column_assigned(before.cells, col as int, fields.last().description));
                }
            },
            None => {},
        }
    }
}

/// The mapper keeps the table well formed.
pub proof fn lemma_mapping_keeps_well_formed(
    tables: TablesView,
    table_index: Option<usize>,
    csv: ImportedDataView,
)
    requires
        csv.well_formed(),
    ensures
        mapping(tables, table_index, csv).2.well_formed(),
{
    let after = mapping(tables, table_index, csv).2;
    if after != csv {
        let index = target_table(tables, table_index)->0;
        let fields = tables.tables[index as int].fields->0;
        let header = row_texts(csv.cells[0]);
        lemma_columns_validated_keeps_well_formed(csv, fields_remapped(fields, header));
    }
}

/// Whatever event the processor meets, its table stays well formed: the
/// table counts as parsed exactly when as many columns are accepted as it
/// has, and every accepted column has all its data cells accepted.
pub proof fn lemma_step_keeps_table_well_formed(s: BackendView, event: EventView)
    requires
        s.csv.well_formed(),
    ensures
        step(s, event).0.csv.well_formed(),
{
    match (s.stage, event) {
        (StageView::Idle, EventView::Command(command)) => {
            match command {
                CommunicationView::GetTableDescription(table) => {
                    if table < s.tables.tables.len() {
                        let selected = TablesView {
                            current_working_table: Some(table),
                            ..s.tables
                        };
                        lemma_mapping_keeps_well_formed(selected, Some(table), s.csv);
                    }
                },
                CommunicationView::TryParseCol(col) => {
                    if col < s.csv.width {
                        lemma_column_touched_keeps_well_formed(s.csv, col, None);
                        assert(column_touched(s.csv.cells, col as int, None) =~= column_revalidated(
                            s.csv.cells,
                            col as int,
                        ));
                    }
                },
                CommunicationView::MapFieldToCol(table, field, col) => {
                    match field_mapped(s.tables, s.csv, table, field, col) {
                        Ok(_) => {
                            let description =
                                s.tables.tables[table as int].fields->0[field as int].description;
                            lemma_column_touched_keeps_well_formed(s.csv, col, Some(description));
                            assert(column_touched(s.csv.cells, col as int, Some(description))
                                =~= column_assigned(s.csv.cells, col as int, description));
                        },
                        Err(_) => {},
                    }
                },
                _ => {},
            }
        },
        (StageView::ReadingFile(path), EventView::File(Ok(bytes))) => {
            lemma_table_of_bytes_well_formed(path, bytes);
            match table_of_bytes(path, bytes) {
                Ok(table) => {
                    lemma_mapping_keeps_well_formed(s.tables, None, table);
                },
                Err(_) => {},
            }
        },
        (StageView::Describing(table), EventView::Description(Ok(columns))) => {
            if table < s.tables.tables.len() {
                let described = match s.tables.tables[table as int].fields {
                    Some(_) => s.tables,
                    None => with_fields(s.tables, table as int, described_fields(columns)),
                };
                lemma_mapping_keeps_well_formed(described, Some(table), s.csv);
            }
        },
        _ => {},
    }
}

/// A load that fails leaves the grid and the catalog as they were, whether
/// the file cannot be read or is not a table.
pub proof fn lemma_failed_load_changes_nothing(s: BackendView, event: EventView)
    requires
        s.stage is ReadingFile,
        step(s, event).1 matches ActionView::Reply(ReplyView::FileLoaded(Err(_))),
    ensures
        step(s, event).0.csv == s.csv,
        step(s, event).0.tables == s.tables,
{
}

/// Whether two lists hold the same fields, but for the columns that the
/// fields are mapped to.
pub open spec fn same_fields(before: Seq<TableFieldView>, after: Seq<TableFieldView>) -> bool {
    &&& after.len() == before.len()
    &&& forall|i: int|
        0 <= i < before.len() ==> (#[trigger] after[i]).description == before[i].description
}

/// The mapper keeps the tables of the catalog and the fields of each: it
/// changes at most the columns that fields are mapped to.
pub proof fn lemma_mapping_keeps_the_fields(
    tables: TablesView,
    table_index: Option<usize>,
    csv: ImportedDataView,
    table: int,
)
    requires
        0 <= table < tables.tables.len(),
    ensures
        mapping(tables, table_index, csv).1.tables.len() == tables.tables.len(),
        mapping(tables, table_index, csv).1.tables[table].name == tables.tables[table].name,
        match tables.tables[table].fields {
            Some(fields) => mapping(tables, table_index, csv).1.tables[table].fields is Some
                && same_fields(fields, mapping(tables, table_index, csv).1.tables[table].fields->0),
            None => mapping(tables, table_index, csv).1.tables[table].fields is None,
        },
{
}

/// Once a table has been described, its fields stay as they are: no event
/// adds a field to it, takes one away or changes what the database said of
/// one. Only the column that a field is mapped to can change. The one
/// exception is a new session, whose tables take the place of the catalog.
pub proof fn lemma_described_fields_stay(s: BackendView, event: EventView, table: int)
    requires
        0 <= table < s.tables.tables.len(),
        s.tables.tables[table].fields is Some,
        !(s.stage == StageView::ListingTables && event is TableNames),
    ensures
        table < step(s, event).0.tables.tables.len(),
        step(s, event).0.tables.tables[table].name == s.tables.tables[table].name,
        step(s, event).0.tables.tables[table].fields is Some,
        same_fields(
            s.tables.tables[table].fields->0,
            step(s, event).0.tables.tables[table].fields->0,
        ),
{
    match (s.stage, event) {
        (StageView::Idle, EventView::Command(command)) => {
            match command {
                CommunicationView::GetTableDescription(index) => {
                    if index < s.tables.tables.len() {
                        let selected = TablesView {
                            current_working_table: Some(index),
                            ..s.tables
                        };
                        lemma_mapping_keeps_the_fields(selected, Some(index), s.csv, table);
                    }
                },
                _ => {},
            }
        },
        (StageView::ReadingFile(path), EventView::File(Ok(bytes))) => {
            match table_of_bytes(path, bytes) {
                Ok(loaded) => {
                    lemma_mapping_keeps_the_fields(s.tables, None, loaded, table);
                },
                Err(_) => {},
            }
        },
        (StageView::Describing(index), EventView::Description(Ok(columns))) => {
            if index < s.tables.tables.len() {
                let described = match s.tables.tables[index as int].fields {
                    Some(_) => s.tables,
                    None => with_fields(s.tables, index as int, described_fields(columns)),
                };
                lemma_mapping_keeps_the_fields(described, Some(index), s.csv, table);
            }
        },
        _ => {},
    }
}

/// While the processor is in the middle of a command, a further command
/// changes nothing and is not acted on.
pub proof fn lemma_busy_ignores_commands(s: BackendView, command: CommunicationView)
    requires
        s.stage != StageView::Idle,
    ensures
        step(s, EventView::Command(command)) == ignored(s),
{
}

/// Whether the processor is in the middle of an insertion.
pub open spec fn inserting(stage: StageView) -> bool {
    match stage {
        StageView::DisablingAutocommit(_) => true,
        StageView::Beginning(_) => true,
        StageView::ReportingStart(_) => true,
        StageView::Inserting { .. } => true,
        StageView::Reporting { .. } => true,
        _ => false,
    }
}

/// An insertion, once begun, keeps the processor busy until the stream of
/// results is ended: no event frees the processor but the one that is
/// answered with the end of the stream. Until then, by the law before this
/// one, a commit or a rollback is not acted on.
pub proof fn lemma_insertion_ends_with_the_stream(s: BackendView, event: EventView)
    requires
        inserting(s.stage),
    ensures
        step(s, event).0.stage == StageView::Idle ==> step(s, event).1 == ActionView::Finished,
        step(s, event).0.stage != StageView::Idle ==> inserting(step(s, event).0.stage),
        step(s, event).0.csv == s.csv,
        step(s, event).0.tables == s.tables,
{
}

/// Carries on from an action as the program around the processor does:
/// a statement is answered by what the database says of it, a result that
/// was handed on by the notice that it was delivered, and any other action
/// ends the command. `answers` are the database's answers, in order; `fuel`
/// bounds the number of events.
pub open spec fn pump(
    reached: (BackendView, ActionView),
    answers: Seq<Result<u64, Seq<char>>>,
    fuel: nat,
) -> Seq<ActionView>
    decreases fuel,
{
    let (s, action) = reached;
    match action {
        ActionView::Execute(_) => if fuel > 0 && answers.len() > 0 {
            seq![action] + pump(
                step(s, EventView::Executed(answers[0])),
                answers.skip(1),
                (fuel - 1) as nat,
            )
        } else {
            seq![action]
        },
        ActionView::Opened(_) => if fuel > 0 {
            seq![action] + pump(step(s, EventView::Delivered), answers, (fuel - 1) as nat)
        } else {
            seq![action]
        },
        ActionView::Inserted(_) => if fuel > 0 {
            seq![action] + pump(step(s, EventView::Delivered), answers, (fuel - 1) as nat)
        } else {
            seq![action]
        },
        _ => seq![action],
    }
}

/// The actions that the processor asks for, one after the other, from an
/// event on.
pub open spec fn run(
    s: BackendView,
    event: EventView,
    answers: Seq<Result<u64, Seq<char>>>,
    fuel: nat,
) -> Seq<ActionView> {
    pump(step(s, event), answers, fuel)
}

/// The statement that inserts a row of the grid into a table, or why there
/// is none.
pub open spec fn statement_of(s: BackendView, table: usize, row: int) -> Result<
    StatementView,
    SchemaError,
> {
    if table < s.tables.tables.len() {
        insert_statement(s.tables.tables[table as int], s.csv.cells[row])
    } else {
        Err(SchemaError::NoSuchTable(table))
    }
}

/// What an insertion asks for at one row: the row's statement is sent and
/// its result handed on, or, where no statement can be written, that is
/// handed on as the row's result.
pub open spec fn row_actions(s: BackendView, table: usize, row: int, answer: Result<u64, Seq<char>>)
    -> Seq<ActionView> {
    match statement_of(s, table, row) {
        Ok(statement) => seq![
            ActionView::Execute(statement),
            ActionView::Inserted(settled(statement.query, answer)),
        ],
        Err(e) => seq![
            ActionView::Inserted(
                QueryResultView { query: Seq::empty(), result: Err(QueryFault::Schema(e)) },
            ),
        ],
    }
}

/// The number of rows from `row` on.
pub open spec fn rows_left(s: BackendView, row: int) -> nat {
    if row < s.csv.cells.len() {
        (s.csv.cells.len() - row) as nat
    } else {
        0
    }
}

/// What an insertion asks for from a row on: the actions of each row, in
/// the order of the rows, and then the end of the stream. A row whose
/// statement is sent takes the next of the database's answers.
pub open spec fn rows_trace(
    s: BackendView,
    table: usize,
    row: int,
    answers: Seq<Result<u64, Seq<char>>>,
) -> Seq<ActionView>
    decreases rows_left(s, row),
{
    if row >= s.csv.cells.len() {
        seq![ActionView::Finished]
    } else {
        row_actions(s, table, row, answers[0]) + rows_trace(
            s,
            table,
            row + 1,
            if statement_of(s, table, row) is Ok {
                answers.skip(1)
            } else {
                answers
            },
        )
    }
}

/// How many results of rows a run of actions holds.
pub open spec fn inserted_count(trace: Seq<ActionView>) -> nat
    decreases trace.len(),
{
    if trace.len() == 0 {
        0
    } else if trace.last() is Inserted {
        inserted_count(trace.drop_last()) + 1
    } else {
        inserted_count(trace.drop_last())
    }
}

/// How many times a run of actions ends the stream.
pub open spec fn finished_count(trace: Seq<ActionView>) -> nat
    decreases trace.len(),
{
    if trace.len() == 0 {
        0
    } else if trace.last() is Finished {
        finished_count(trace.drop_last()) + 1
    } else {
        finished_count(trace.drop_last())
    }
}

/// The counts of a run that is made of two runs are the sums of theirs.
pub proof fn lemma_counts_add(a: Seq<ActionView>, b: Seq<ActionView>)
    ensures
        inserted_count(a + b) == inserted_count(a) + inserted_count(b),
        finished_count(a + b) == finished_count(a) + finished_count(b),
    decreases b.len(),
{
    if b.len() == 0 {
        assert(a + b =~= a);
    } else {
        lemma_counts_add(a, b.drop_last());
        assert((a + b).drop_last() =~= a + b.drop_last());
    }
}

/// From a row on, an insertion asks for exactly the actions of the rows, in
/// the order of the rows, and then ends the stream. This holds of every
/// grid and every table, whether a statement can be written for a row or
/// not, and whatever the database answers.
pub proof fn lemma_insertion_follows_the_rows(
    s: BackendView,
    table: usize,
    row: int,
    answers: Seq<Result<u64, Seq<char>>>,
    fuel: nat,
)
    requires
        0 <= row,
        s.csv.cells.len() <= usize::MAX,
        answers.len() >= rows_left(s, row),
        fuel >= 2 * rows_left(s, row),
    ensures
        pump(next_insert(s, table, row), answers, fuel) == rows_trace(s, table, row, answers),
    decreases rows_left(s, row),
{
    let trace = pump(next_insert(s, table, row), answers, fuel);
    if row >= s.csv.cells.len() {
        assert(trace =~= seq![ActionView::Finished]);
    } else {
        let (waits, first) = next_insert(s, table, row);
        match statement_of(s, table, row) {
            Ok(statement) => {
                let (reports, second) = step(waits, EventView::Executed(answers[0]));
                let onward = step(reports, EventView::Delivered);
                assert(onward == next_insert(s, table, row + 1));
                lemma_insertion_follows_the_rows(
                    s,
                    table,
                    row + 1,
                    answers.skip(1),
                    (fuel - 2) as nat,
                );
                let rest = pump(onward, answers.skip(1), (fuel - 2) as nat);
                assert(pump((reports, second), answers.skip(1), (fuel - 1) as nat) == seq![second]
                    + rest);
                assert(trace == seq![first] + (seq![second] + rest));
                assert(trace =~= row_actions(s, table, row, answers[0]) + rest);
            },
            Err(e) => {
                let onward = step(waits, EventView::Delivered);
                assert(onward == next_insert(s, table, row + 1));
                lemma_insertion_follows_the_rows(s, table, row + 1, answers, (fuel - 1) as nat);
                let rest = pump(onward, answers, (fuel - 1) as nat);
                assert(trace == seq![first] + rest);
                assert(trace =~= row_actions(s, table, row, answers[0]) + rest);
            },
        }
    }
}

/// From a row on, an insertion hands on one result for each row that is
/// left, and ends the stream once, with its last action.
pub proof fn lemma_one_result_for_each_row(
    s: BackendView,
    table: usize,
    row: int,
    answers: Seq<Result<u64, Seq<char>>>,
)
    requires
        0 <= row,
    ensures
        inserted_count(rows_trace(s, table, row, answers)) == rows_left(s, row),
        finished_count(rows_trace(s, table, row, answers)) == 1,
        rows_trace(s, table, row, answers).last() == ActionView::Finished,
    decreases rows_left(s, row),
{
    let trace = rows_trace(s, table, row, answers);
    if row >= s.csv.cells.len() {
        reveal_with_fuel(inserted_count, 2);
        reveal_with_fuel(finished_count, 2);
        assert(trace.drop_last() =~= Seq::<ActionView>::empty());
    } else {
        let here = row_actions(s, table, row, answers[0]);
        let onward = if statement_of(s, table, row) is Ok {
            answers.skip(1)
        } else {
            answers
        };
        let rest = rows_trace(s, table, row + 1, onward);
        lemma_one_result_for_each_row(s, table, row + 1, onward);
        lemma_counts_add(here, rest);
        assert(inserted_count(here) == 1 && finished_count(here) == 0) by {
            reveal_with_fuel(inserted_count, 3);
            reveal_with_fuel(finished_count, 3);
            match statement_of(s, table, row) {
                Ok(statement) => {
                    assert(here.drop_last() =~= seq![ActionView::Execute(statement)]);
                    assert(here.drop_last().drop_last() =~= Seq::<ActionView>::empty());
                },
                Err(_) => {
                    assert(here.drop_last() =~= Seq::<ActionView>::empty());
                },
            }
        }
    }
}

/// The statement that inserts a row of the grid into a table.
pub open spec fn row_statement(s: BackendView, table: usize, row: int) -> StatementView {
    insert_statement(s.tables.tables[table as int], s.csv.cells[row])->Ok_0
}

/// Whether a statement can be written for every row of the grid.
pub open spec fn rows_writable(s: BackendView, table: usize) -> bool {
    forall|row: int|
        0 <= row < s.csv.cells.len() ==> insert_statement(
            s.tables.tables[table as int],
            #[trigger] s.csv.cells[row],
        ) is Ok
}

/// Where a statement can be written for every row, an insertion sends the
/// statement of each row and hands on its result before it turns to the
/// next row, in the order of the rows; behind the last row it ends the
/// stream, once. So there is one result for each row, they come in the
/// order of the rows, and the end of the stream comes after them all.
pub proof fn lemma_rows_in_order(
    s: BackendView,
    table: usize,
    row: int,
    answers: Seq<Result<u64, Seq<char>>>,
    fuel: nat,
)
    requires
        0 <= row,
        s.csv.cells.len() <= usize::MAX,
        table < s.tables.tables.len(),
        rows_writable(s, table),
        answers.len() >= rows_left(s, row),
        fuel >= 2 * rows_left(s, row),
    ensures
        ({
            let trace = pump(next_insert(s, table, row), answers, fuel);
            let n = rows_left(s, row) as int;
            &&& trace.len() == 2 * n + 1
            &&& forall|k: int|
                0 <= k < n ==> #[trigger] trace[2 * k] == ActionView::Execute(
                    row_statement(s, table, row + k),
                )
            &&& forall|k: int|
                0 <= k < n ==> #[trigger] trace[2 * k + 1] == ActionView::Inserted(
                    settled(row_statement(s, table, row + k).query, answers[k]),
                )
            &&& trace[2 * n] == ActionView::Finished
        }),
    decreases rows_left(s, row),
{
    lemma_insertion_follows_the_rows(s, table, row, answers, fuel);
    let trace = rows_trace(s, table, row, answers);
    let n = rows_left(s, row) as int;
    if row >= s.csv.cells.len() {
    } else {
        assert(insert_statement(s.tables.tables[table as int], s.csv.cells[row]) is Ok);
        let here = row_actions(s, table, row, answers[0]);
        let rest = rows_trace(s, table, row + 1, answers.skip(1));
        lemma_rows_in_order(s, table, row + 1, answers.skip(1), (fuel - 2) as nat);
        lemma_insertion_follows_the_rows(s, table, row + 1, answers.skip(1), (fuel - 2) as nat);
        assert(trace == here + rest);
        assert(trace.len() == 2 * n + 1);
        assert forall|k: int| 0 <= k < n implies #[trigger] trace[2 * k] == ActionView::Execute(
            row_statement(s, table, row + k),
        ) by {
            if k > 0 {
                assert(trace[2 * k] == rest[2 * (k - 1)]);
                assert(row + 1 + (k - 1) == row + k);
            }
        }
        assert forall|k: int| 0 <= k < n implies #[trigger] trace[2 * k + 1]
            == ActionView::Inserted(
            settled(row_statement(s, table, row + k).query, answers[k]),
        ) by {
            if k > 0 {
                assert(trace[2 * k + 1] == rest[2 * (k - 1) + 1]);
                assert(row + 1 + (k - 1) == row + k);
                assert(answers.skip(1)[k - 1] == answers[k]);
            }
        }
        assert(trace[2 * n] == rest[2 * (n - 1)]);
    }
}

/// How many actions the opening of a transaction takes: the two
/// statements and the result, or one statement and its result where the
/// first statement is refused.
pub open spec fn opening_length(answers: Seq<Result<u64, Seq<char>>>) -> int {
    if answers[0] is Ok {
        3
    } else {
        2
    }
}

/// How many answers of the database the opening of a transaction takes.
pub open spec fn opening_answers(answers: Seq<Result<u64, Seq<char>>>) -> int {
    if answers[0] is Ok {
        2
    } else {
        1
    }
}

/// What the opening of a transaction asks for: the session is told not to
/// commit each statement by itself, the transaction is begun, and what came
/// of it is handed on; after a refusal of the first statement that refusal
/// is handed on and the transaction is not begun.
pub open spec fn opening_actions(answers: Seq<Result<u64, Seq<char>>>) -> Seq<ActionView> {
    if answers[0] is Ok {
        seq![
            ActionView::Execute(plain_statement("SET autocommit = OFF"@)),
            ActionView::Execute(plain_statement("BEGIN"@)),
            ActionView::Opened(settled("BEGIN"@, answers[1])),
        ]
    } else {
        seq![
            ActionView::Execute(plain_statement("SET autocommit = OFF"@)),
            ActionView::Opened(settled("SET autocommit = OFF"@, answers[0])),
        ]
    }
}

/// The opening of a transaction hands on no result of a row and does not
/// end the stream.
pub proof fn lemma_opening_counts(answers: Seq<Result<u64, Seq<char>>>)
    ensures
        inserted_count(opening_actions(answers)) == 0,
        finished_count(opening_actions(answers)) == 0,
{
    let opened = opening_actions(answers);
    reveal_with_fuel(inserted_count, 4);
    reveal_with_fuel(finished_count, 4);
    if answers[0] is Ok {
        assert(opened.drop_last() =~= seq![opened[0], opened[1]]);
        assert(opened.drop_last().drop_last() =~= seq![opened[0]]);
        assert(opened.drop_last().drop_last().drop_last() =~= Seq::<ActionView>::empty());
    } else {
        assert(opened.drop_last() =~= seq![opened[0]]);
        assert(opened.drop_last().drop_last() =~= Seq::<ActionView>::empty());
    }
}

/// A whole insertion, from the command on, into any table of the catalog
/// and whatever the database answers: the transaction is opened, then come
/// the actions of the data rows, in the order of the rows, and the end of
/// the stream.
pub proof fn lemma_insertion_opens_and_follows_the_rows(
    s: BackendView,
    table: usize,
    answers: Seq<Result<u64, Seq<char>>>,
    fuel: nat,
)
    requires
        s.stage == StageView::Idle,
        s.tables.is_connection_verified,
        table < s.tables.tables.len(),
        s.csv.cells.len() <= usize::MAX,
        answers.len() >= 2 + rows_left(s, first_data_row(s.csv.are_headers)),
        fuel >= 3 + 2 * rows_left(s, first_data_row(s.csv.are_headers)),
    ensures
        run(s, EventView::Command(CommunicationView::StartInserting(table)), answers, fuel)
            == opening_actions(answers) + rows_trace(
            s,
            table,
            first_data_row(s.csv.are_headers),
            answers.skip(opening_answers(answers)),
        ),
{
    let command = EventView::Command(CommunicationView::StartInserting(table));
    let trace = run(s, command, answers, fuel);
    let first = first_data_row(s.csv.are_headers);
    let opening = opening_length(answers);
    let used = opening_answers(answers);
    let (asked, set_off) = step(s, command);
    let (answered, second) = step(asked, EventView::Executed(answers[0]));
    let rest = pump(next_insert(s, table, first), answers.skip(used), (fuel - opening) as nat);
    lemma_insertion_follows_the_rows(s, table, first, answers.skip(used), (fuel - opening) as nat);
    if answers[0] is Ok {
        let (begun, third) = step(answered, EventView::Executed(answers.skip(1)[0]));
        let onward = step(begun, EventView::Delivered);
        assert(onward == next_insert(s, table, first));
        assert(answers.skip(1).skip(1) =~= answers.skip(2));
        assert(pump((begun, third), answers.skip(2), (fuel - 2) as nat) == seq![third] + rest);
        assert(pump((answered, second), answers.skip(1), (fuel - 1) as nat) == seq![second] + (
        seq![third] + rest));
        assert(trace == seq![set_off] + (seq![second] + (seq![third] + rest)));
        assert(trace =~= opening_actions(answers) + rest);
    } else {
        let onward = step(answered, EventView::Delivered);
        assert(onward == next_insert(s, table, first));
        assert(pump((answered, second), answers.skip(1), (fuel - 1) as nat) == seq![second] + rest);
        assert(trace == seq![set_off] + (seq![second] + rest));
        assert(trace =~= opening_actions(answers) + rest);
    }
}

/// A whole insertion, from the command on, into any table of the catalog
/// and whatever the database answers, hands on one result for each data
/// row and ends the stream once, with its last action.
pub proof fn lemma_insertion_gives_one_result_for_each_row(
    s: BackendView,
    table: usize,
    answers: Seq<Result<u64, Seq<char>>>,
    fuel: nat,
)
    requires
        s.stage == StageView::Idle,
        s.tables.is_connection_verified,
        table < s.tables.tables.len(),
        s.csv.cells.len() <= usize::MAX,
        answers.len() >= 2 + rows_left(s, first_data_row(s.csv.are_headers)),
        fuel >= 3 + 2 * rows_left(s, first_data_row(s.csv.are_headers)),
    ensures
        ({
            let trace = run(
                s,
                EventView::Command(CommunicationView::StartInserting(table)),
                answers,
                fuel,
            );
            &&& inserted_count(trace) == rows_left(s, first_data_row(s.csv.are_headers))
            &&& finished_count(trace) == 1
            &&& trace.last() == ActionView::Finished
        }),
{
    let first = first_data_row(s.csv.are_headers);
    let rest = rows_trace(s, table, first, answers.skip(opening_answers(answers)));
    lemma_insertion_opens_and_follows_the_rows(s, table, answers, fuel);
    lemma_one_result_for_each_row(s, table, first, answers.skip(opening_answers(answers)));
    lemma_opening_counts(answers);
    lemma_counts_add(opening_actions(answers), rest);
}

/// A whole insertion, from the command on, where a statement can be
/// written for every row. The transaction is opened and what came of that
/// is handed on. Then, for each data row of the grid in turn, the row's
/// statement is sent and its result is handed on. Then the stream is ended,
/// once, and nothing follows. So there are as many row results as data
/// rows, in the order of the rows, and the end of the stream comes after
/// the last of them.
pub proof fn lemma_insertion_in_row_order(
    s: BackendView,
    table: usize,
    answers: Seq<Result<u64, Seq<char>>>,
    fuel: nat,
)
    requires
        s.stage == StageView::Idle,
        s.tables.is_connection_verified,
        table < s.tables.tables.len(),
        s.csv.cells.len() <= usize::MAX,
        rows_writable(s, table),
        answers.len() >= 2 + rows_left(s, first_data_row(s.csv.are_headers)),
        fuel >= 3 + 2 * rows_left(s, first_data_row(s.csv.are_headers)),
    ensures
        ({
            let trace = run(
                s,
                EventView::Command(CommunicationView::StartInserting(table)),
                answers,
                fuel,
            );
            let first = first_data_row(s.csv.are_headers);
            let n = rows_left(s, first) as int;
            let opening = opening_length(answers);
            let used = opening_answers(answers);
            &&& trace.len() == opening + 2 * n + 1
            &&& forall|k: int|
                0 <= k < n ==> #[trigger] trace[opening + 2 * k] == ActionView::Execute(
                    row_statement(s, table, first + k),
                )
            &&& forall|k: int|
                0 <= k < n ==> #[trigger] trace[opening + 2 * k + 1] == ActionView::Inserted(
                    settled(row_statement(s, table, first + k).query, answers[used + k]),
                )
            &&& trace[opening + 2 * n] == ActionView::Finished
        }),
{
    let command = EventView::Command(CommunicationView::StartInserting(table));
    let trace = run(s, command, answers, fuel);
    let first = first_data_row(s.csv.are_headers);
    let n = rows_left(s, first) as int;
    let opening = opening_length(answers);
    let used = opening_answers(answers);
    lemma_insertion_opens_and_follows_the_rows(s, table, answers, fuel);
    let rest = rows_trace(s, table, first, answers.skip(used));
    lemma_insertion_follows_the_rows(s, table, first, answers.skip(used), (fuel - opening) as nat);
    lemma_rows_in_order(s, table, first, answers.skip(used), (fuel - opening) as nat);
    assert(opening_actions(answers).len() == opening);
    assert forall|k: int| 0 <= k < n implies #[trigger] trace[opening + 2 * k]
        == ActionView::Execute(row_statement(s, table, first + k)) by {
        assert(trace[opening + 2 * k] == rest[2 * k]);
    }
    assert forall|k: int| 0 <= k < n implies #[trigger] trace[opening + 2 * k + 1]
        == ActionView::Inserted(
        settled(row_statement(s, table, first + k).query, answers[used + k]),
    ) by {
        assert(trace[opening + 2 * k + 1] == rest[2 * k + 1]);
        assert(answers.skip(used)[k] == answers[used + k]);
    }
    assert(trace[opening + 2 * n] == rest[2 * n]);
}

} // verus!
