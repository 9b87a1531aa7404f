//! What holds of the imported table whatever is done with it.

use crate::backend::csv_handler::{
    column_parsed, column_touched, csv_header, csv_records, evenly_long, first_data_row,
    is_accepted, lemma_push_contains, lemma_without, rectangular, table_of, table_of_bytes,
    table_width, with_column, without, DataEntryView, ImportedDataView,
};
use crate::backend::database_handler::FieldDescriptionView;
use vstd::prelude::*;

verus! {

/// The table counts as parsed exactly when the number of its accepted
/// columns is the number of its columns. A table without columns counts
/// as parsed.
pub proof fn lemma_parsed_flag_counts_columns(table: ImportedDataView)
    requires
        table.well_formed(),
    ensures
        table.is_parsed <==> table.parsed_cols.len() == table.width,
        table.width == 0 ==> table.is_parsed,
{
    if table.width == 0 && table.parsed_cols.len() > 0 {
        assert(table.parsed_cols[0] < table.width);
    }
}

/// Whenever a column has been looked over, the table counts as parsed
/// exactly when the number of its accepted columns is the number of its
/// columns.
pub proof fn lemma_flag_follows_columns(
    table: ImportedDataView,
    cells: Seq<Seq<DataEntryView>>,
    col: usize,
)
    ensures
        with_column(table, cells, col).is_parsed <==> with_column(table, cells, col).parsed_cols.len()
            == with_column(table, cells, col).width,
{
}

/// Once a column has been looked over, it is among the accepted columns
/// exactly when every one of its data cells has been accepted, and the other
/// columns are among them as they were before.
pub proof fn lemma_column_is_listed_when_accepted(
    table: ImportedDataView,
    cells: Seq<Seq<DataEntryView>>,
    col: usize,
    other: usize,
)
    ensures
        with_column(table, cells, col).parsed_cols.contains(col) <==> column_parsed(
            cells,
            col as int,
            table.are_headers,
        ),
        other != col ==> (with_column(table, cells, col).parsed_cols.contains(other)
            <==> table.parsed_cols.contains(other)),
{
    let kept = without(table.parsed_cols, col);
    lemma_without(table.parsed_cols, col);
    lemma_push_contains(kept, col, col);
    lemma_push_contains(kept, col, other);
}

/// Validating the cells of a column keeps the table well formed.
pub proof fn lemma_column_touched_keeps_well_formed(
    table: ImportedDataView,
    col: usize,
    description: Option<FieldDescriptionView>,
)
    requires
        table.well_formed(),
        col < table.width,
    ensures
        with_column(table, column_touched(table.cells, col as int, description), col).well_formed(),
{
    let cells = column_touched(table.cells, col as int, description);
    let after = with_column(table, cells, col);
    let accepted = column_parsed(cells, col as int, table.are_headers);
    let kept = without(table.parsed_cols, col);
    lemma_without(table.parsed_cols, col);
    assert(rectangular(after.cells, after.width)) by {
        assert forall|r: int| 0 <= r < cells.len() implies (#[trigger] cells[r]).len()
            == after.width by {
            assert(table.cells[r].len() == table.width);
        }
    }
    assert forall|r: int, c: int|
        0 <= r < cells.len() && 0 <= c < after.width implies (#[trigger] cells[r][c]).well_formed() by {
        assert(table.cells[r].len() == table.width);
        assert(table.cells[r][c].well_formed());
    }
    assert(after.parsed_cols.no_duplicates()) by {
        if accepted {
            assert(kept.push(col).no_duplicates());
        }
    }
    assert forall|i: int| 0 <= i < after.parsed_cols.len() implies (#[trigger] after.parsed_cols[i])
        < after.width && column_parsed(
        after.cells,
        after.parsed_cols[i] as int,
        after.are_headers,
    ) by {
        let x = after.parsed_cols[i];
        if x != col {
            lemma_push_contains(kept, col, x);
            assert(kept.contains(x)) by {
                if accepted {
                    assert(kept.push(col).contains(x));
                } else {
                    assert(kept[i] == x);
                }
            }
            assert(table.parsed_cols.contains(x));
            let j = choose|j: int| 0 <= j < table.parsed_cols.len() && table.parsed_cols[j] == x;
            assert(table.parsed_cols[j] < table.width);
            assert(column_parsed(table.cells, x as int, table.are_headers));
            assert forall|r: int| first_data_row(table.are_headers) <= r < cells.len() implies is_accepted(
                (#[trigger] cells[r])[x as int],
            ) by {
                assert(table.cells[r].len() == table.width);
                assert(is_accepted(table.cells[r][x as int]));
            }
        } else {
            assert(accepted) by {
                if !accepted {
                    assert(kept[i] == col);
                    assert(kept.contains(col));
                }
            }
        }
    }
}

/// A table that has just been built from a header and records is well
/// formed.
pub proof fn lemma_table_of_well_formed(
    path: Seq<char>,
    header: Option<Seq<Seq<char>>>,
    records: Seq<Seq<Seq<char>>>,
)
    ensures
        table_of(path, header, records) matches Ok(table) ==> table.well_formed(),
{
    let width = table_width(header, records);
    if evenly_long(records, width) {
        let table = table_of(path, header, records)->Ok_0;
        assert forall|r: int| 0 <= r < table.cells.len() implies (#[trigger] table.cells[r]).len()
            == width by {
            if r > 0 {
                assert(records[r - 1].len() == width);
            }
        }
        assert forall|r: int, c: int|
            0 <= r < table.cells.len() && 0 <= c < table.width implies (
        #[trigger] table.cells[r][c]).well_formed() by {
            assert(table.cells[r].len() == width);
            if r > 0 {
                assert(records[r - 1].len() == width);
            }
        }
    }
}

/// A table that has just been read from a file is well formed.
pub proof fn lemma_table_of_bytes_well_formed(path: Seq<char>, bytes: Seq<u8>)
    ensures
        table_of_bytes(path, bytes) matches Ok(table) ==> table.well_formed(),
{
    match csv_records(bytes) {
        Ok(records) => {
            lemma_table_of_well_formed(path, csv_header(bytes), records);
        },
        Err(_) => {},
    }
}

/// In a table that counts as parsed, every data cell of every column has
/// been validated and accepted.
pub proof fn lemma_parsed_table_has_every_column_accepted(table: ImportedDataView, col: int)
    requires
        table.well_formed(),
        table.is_parsed,
        0 <= col < table.width,
    ensures
        column_parsed(table.cells, col, table.are_headers),
{
    let n = table.width as int;
    let listed = table.parsed_cols;
    let numbers = Seq::new(listed.len(), |i: int| listed[i] as int);
    assert(numbers.no_duplicates());
    numbers.unique_seq_to_set();
    let range = vstd::set_lib::set_int_range(0, n);
    vstd::set_lib::lemma_int_range(0, n);
    assert(numbers.to_set().subset_of(range)) by {
        assert forall|x: int| numbers.to_set().contains(x) implies range.contains(x) by {
            let i = choose|i: int| 0 <= i < numbers.len() && numbers[i] == x;
            assert(listed[i] < table.width);
        }
    }
    vstd::set_lib::lemma_len_subset(numbers.to_set(), range);
    vstd::set_lib::lemma_subset_equality(numbers.to_set(), range);
    assert(range.contains(col));
    assert(numbers.to_set().contains(col));
    let i = choose|i: int| 0 <= i < numbers.len() && numbers[i] == col;
    assert(listed[i] as int == col);
}

} // verus!
