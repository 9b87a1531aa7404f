//! The imported table: cells of raw text, each with the field it is assigned
//! to and the outcome of its validation.
//!
//! The table is read from delimited text by the `csv` crate. What that crate
//! makes of a file's bytes is its own matter: the header and the records it
//! finds are given names here, and the two calls are believed to return them.
//! Building the table from them is this module's work.

use crate::backend::database_handler::{FieldDescription, FieldDescriptionView, SchemaError};
use crate::backend::grid_laws::{
    lemma_column_touched_keeps_well_formed, lemma_table_of_well_formed,
};
use crate::backend::parser::{parse, parsed_cell, validate, ParseError, ParseFault};
use crate::backend::table_grid::{
    grid_cells, grid_clone, grid_col_count, grid_get, grid_get_mut, grid_is_empty, grid_new,
    grid_push_row, grid_row_count, grid_width,
};
use vstd::prelude::*;

verus! {

/// One cell of the imported table.
#[derive(Debug)]
pub struct DataEntry {
    pub data: String,
    pub curr_field_description: Option<FieldDescription>,
    pub is_parsed: Option<Result<(), ParseError>>,
}

/// A cell as the contracts see it.
pub struct DataEntryView {
    pub data: Seq<char>,
    pub curr_field_description: Option<FieldDescriptionView>,
    pub is_parsed: Option<Result<(), ParseFault>>,
}

/// The field of a cell as the contracts see it.
pub open spec fn description_view(description: Option<FieldDescription>) -> Option<
    FieldDescriptionView,
> {
    match description {
        Some(d) => Some(d@),
        None => None,
    }
}

/// A field that is passed by reference, as the contracts see it.
pub open spec fn description_view_of(description: Option<&FieldDescription>) -> Option<
    FieldDescriptionView,
> {
    match description {
        Some(d) => Some(d@),
        None => None,
    }
}

/// The outcome of a validation as the contracts see it.
pub open spec fn outcome_view(outcome: Result<(), ParseError>) -> Result<(), ParseFault> {
    match outcome {
        Ok(()) => Ok(()),
        Err(e) => Err(e@),
    }
}

/// What a cell knows of its validation, as the contracts see it.
pub open spec fn parsed_view(parsed: Option<Result<(), ParseError>>) -> Option<
    Result<(), ParseFault>,
> {
    match parsed {
        Some(outcome) => Some(outcome_view(outcome)),
        None => None,
    }
}

impl View for DataEntry {
    type V = DataEntryView;

    open spec fn view(&self) -> DataEntryView {
        DataEntryView {
            data: self.data@,
            curr_field_description: description_view(self.curr_field_description),
            is_parsed: parsed_view(self.is_parsed),
        }
    }
}

impl Clone for DataEntry {
    fn clone(&self) -> (res: Self)
        ensures
            res == *self,
    {
        let data = self.data.clone();
        let curr_field_description = match &self.curr_field_description {
            Some(d) => Some(d.clone()),
            None => None,
        };
        let is_parsed = match &self.is_parsed {
            Some(Ok(unit)) => Some(Ok(*unit)),
            Some(Err(e)) => Some(Err(e.clone())),
            None => None,
        };
        DataEntry { data, curr_field_description, is_parsed }
    }
}

impl Default for DataEntry {
    fn default() -> (res: Self)
        ensures
            res@ == (DataEntryView {
                data: Seq::empty(),
                curr_field_description: None,
                is_parsed: None,
            }),
    {
        DataEntry { data: String::new(), curr_field_description: None, is_parsed: None }
    }
}

impl DataEntry {
    /// A cell that holds `text` and nothing else yet.
    pub fn new(text: String) -> (res: Self)
        ensures
            res.data == text,
            res.curr_field_description is None,
            res.is_parsed is None,
    {
        DataEntry { data: text, curr_field_description: None, is_parsed: None }
    }

    /// A validation outcome is only kept for a cell that has a field.
    pub open spec fn well_formed(&self) -> bool {
        self@.well_formed()
    }
}

/// The header that a `csv` reader with the default settings finds in
/// `bytes`; `None` where it cannot give one.
pub uninterp spec fn csv_header(bytes: Seq<u8>) -> Option<Seq<Seq<char>>>;

/// The records that a `csv` reader with the default settings finds in
/// `bytes` behind the header, or the wording of the first error it meets.
pub uninterp spec fn csv_records(bytes: Seq<u8>) -> Result<Seq<Seq<Seq<char>>>, Seq<char>>;

/// A list of texts as the contracts see it.
pub open spec fn texts_view(texts: Seq<String>) -> Seq<Seq<char>> {
    Seq::new(texts.len(), |i: int| texts[i]@)
}

/// A header that was read, as the contracts see it.
pub open spec fn header_view(header: Option<Vec<String>>) -> Option<Seq<Seq<char>>> {
    match header {
        Some(fields) => Some(texts_view(fields@)),
        None => None,
    }
}

/// A list of records as the contracts see it.
pub open spec fn record_list_view(records: Seq<Vec<String>>) -> Seq<Seq<Seq<char>>> {
    Seq::new(records.len(), |i: int| texts_view(records[i]@))
}

/// The records that were read, or the error, as the contracts see them.
pub open spec fn records_view(records: Result<Vec<Vec<String>>, String>) -> Result<
    Seq<Seq<Seq<char>>>,
    Seq<char>,
> {
    match records {
        Ok(list) => Ok(record_list_view(list@)),
        Err(reason) => Err(reason@),
    }
}

/// `csv::Reader::headers`, on a reader made for `bytes` by
/// `csv::Reader::from_reader`: the fields of the header, each copied into a
/// `String`, or nothing where the reader returns an error.
#[verifier::external_body]
pub(crate) fn read_header(bytes: &[u8]) -> (header: Option<Vec<String>>)
    ensures
        header_view(header) == csv_header(bytes@),
{
    let mut reader = csv::Reader::from_reader(bytes);
    match reader.headers() {
        Ok(record) => Some(record.iter().map(|field| field.to_owned()).collect()),
        Err(_) => None,
    }
}

/// `csv::Reader::records`, on a reader made for `bytes` by
/// `csv::Reader::from_reader`, read to the end: the fields of every record,
/// each copied into a `String`, or the wording of the first error.
#[verifier::external_body]
pub(crate) fn read_records(bytes: &[u8]) -> (records: Result<Vec<Vec<String>>, String>)
    ensures
        records_view(records) == csv_records(bytes@),
{
    let mut reader = csv::Reader::from_reader(bytes);
    let read: Result<Vec<csv::StringRecord>, csv::Error> = reader.records().collect();
    match read {
        Ok(list) => Ok(
            list.iter().map(|record| record.iter().map(|field| field.to_owned()).collect()).collect(),
        ),
        Err(e) => Err(e.to_string()),
    }
}

/// Why a file could not be imported.
#[derive(Debug)]
pub enum ImportError {
    /// The file could not be read; the reason is carried along.
    Unreadable(String),
    /// The file is not delimited text; the reason is carried along.
    Malformed(String),
    /// The records are not all of one length.
    UnequalLengths,
}

/// `ImportError` as the contracts see it.
pub enum ImportFault {
    Unreadable(Seq<char>),
    Malformed(Seq<char>),
    UnequalLengths,
}

impl View for ImportError {
    type V = ImportFault;

    open spec fn view(&self) -> ImportFault {
        match self {
            ImportError::Unreadable(reason) => ImportFault::Unreadable(reason@),
            ImportError::Malformed(reason) => ImportFault::Malformed(reason@),
            ImportError::UnequalLengths => ImportFault::UnequalLengths,
        }
    }
}

/// A cell that holds `text` and nothing else.
pub open spec fn fresh_cell(text: Seq<char>) -> DataEntryView {
    DataEntryView { data: text, curr_field_description: None, is_parsed: None }
}

/// A row of cells that hold the given texts and nothing else.
pub open spec fn fresh_row(texts: Seq<Seq<char>>) -> Seq<DataEntryView> {
    Seq::new(texts.len(), |c: int| fresh_cell(texts[c]))
}

/// A row of `width` cells without text.
pub open spec fn blank_row(width: nat) -> Seq<DataEntryView> {
    Seq::new(width, |c: int| fresh_cell(Seq::empty()))
}

/// How wide the table of a header and records is: as wide as the header,
/// or, where there is none, as the first record.
pub open spec fn table_width(header: Option<Seq<Seq<char>>>, records: Seq<Seq<Seq<char>>>) -> nat {
    match header {
        Some(fields) => fields.len(),
        None => if records.len() > 0 {
            records[0].len()
        } else {
            0
        },
    }
}

/// Whether every record has `width` fields.
pub open spec fn evenly_long(records: Seq<Seq<Seq<char>>>, width: nat) -> bool {
    forall|i: int| 0 <= i < records.len() ==> (#[trigger] records[i]).len() == width
}

/// The first row of a table: the header, or a row of blank cells where
/// there is none.
pub open spec fn first_row(header: Option<Seq<Seq<char>>>, width: nat) -> Seq<DataEntryView> {
    match header {
        Some(fields) => fresh_row(fields),
        None => blank_row(width),
    }
}

/// The table that a header and records make. Records of unequal length
/// make none. A table without columns has no rows either.
pub open spec fn table_of(
    path: Seq<char>,
    header: Option<Seq<Seq<char>>>,
    records: Seq<Seq<Seq<char>>>,
) -> Result<ImportedDataView, ImportFault> {
    let width = table_width(header, records);
    if !evenly_long(records, width) {
        Err(ImportFault::UnequalLengths)
    } else {
        Ok(
            ImportedDataView {
                cells: if width == 0 {
                    Seq::empty()
                } else {
                    seq![first_row(header, width)] + Seq::new(
                        records.len(),
                        |r: int| fresh_row(records[r]),
                    )
                },
                width,
                path,
                are_headers: header is Some,
                parsed_cols: Seq::empty(),
                is_parsed: width == 0,
            },
        )
    }
}

/// The table that the bytes of a file make, read as delimited text.
pub open spec fn table_of_bytes(path: Seq<char>, bytes: Seq<u8>) -> Result<
    ImportedDataView,
    ImportFault,
> {
    match csv_records(bytes) {
        Err(reason) => Err(ImportFault::Malformed(reason)),
        Ok(records) => table_of(path, csv_header(bytes), records),
    }
}

/// A table that was built, or the error, as the contracts see them.
pub open spec fn import_view(r: Result<ImportedData, ImportError>) -> Result<
    ImportedDataView,
    ImportFault,
> {
    match r {
        Ok(table) => Ok(table@),
        Err(e) => Err(e@),
    }
}

/// The imported table, with what is known of its validation.
pub struct ImportedData {
    /// The cells, row by row.
    pub data: grid::Grid<DataEntry>,
    /// Where the table was read from.
    pub path: String,
    /// Whether the first row holds the names of the columns.
    pub are_headers: bool,
    /// The columns whose cells have all been accepted.
    pub parsed_cols: Vec<usize>,
    /// Whether every column is among `parsed_cols`.
    pub is_parsed: bool,
}

/// The imported table as the contracts see it: the cells row by row, the
/// number of columns, and the marks of the table.
pub struct ImportedDataView {
    pub cells: Seq<Seq<DataEntryView>>,
    pub width: nat,
    pub path: Seq<char>,
    pub are_headers: bool,
    pub parsed_cols: Seq<usize>,
    pub is_parsed: bool,
}

/// A row of cells as the contracts see it.
pub open spec fn row_view(row: Seq<DataEntry>) -> Seq<DataEntryView> {
    Seq::new(row.len(), |c: int| row[c]@)
}

/// The rows of the grid as the contracts see them.
pub open spec fn cells_view(rows: Seq<Seq<DataEntry>>) -> Seq<Seq<DataEntryView>> {
    Seq::new(rows.len(), |r: int| row_view(rows[r]))
}

impl View for ImportedData {
    type V = ImportedDataView;

    open spec fn view(&self) -> ImportedDataView {
        ImportedDataView {
            cells: cells_view(grid_cells(self.data)),
            width: grid_width(self.data),
            path: self.path@,
            are_headers: self.are_headers,
            parsed_cols: self.parsed_cols@,
            is_parsed: self.is_parsed,
        }
    }
}

/// The first row that holds data: the one behind the header row, if there
/// is a header row.
pub open spec fn first_data_row(are_headers: bool) -> int {
    if are_headers {
        1
    } else {
        0
    }
}

/// Whether a cell has been validated and accepted.
pub open spec fn is_accepted(cell: DataEntryView) -> bool {
    cell.is_parsed == Some(Ok::<(), ParseFault>(()))
}

/// Whether every data cell of a column has been validated and accepted.
pub open spec fn column_parsed(cells: Seq<Seq<DataEntryView>>, col: int, are_headers: bool) -> bool {
    forall|r: int|
        first_data_row(are_headers) <= r < cells.len() ==> is_accepted((#[trigger] cells[r])[col])
}

/// A cell after it has been validated again.
pub open spec fn revalidated(cell: DataEntryView) -> DataEntryView {
    DataEntryView { is_parsed: parsed_cell(cell), ..cell }
}

/// A cell after it has been given a field and validated for it.
pub open spec fn assigned(cell: DataEntryView, description: FieldDescriptionView) -> DataEntryView {
    DataEntryView {
        data: cell.data,
        curr_field_description: Some(description),
        is_parsed: Some(validate(cell.data, description.field_type)),
    }
}

/// A cell after it has been validated, for the field given or, where none
/// is given, for the field it has.
pub open spec fn touched(cell: DataEntryView, description: Option<FieldDescriptionView>)
    -> DataEntryView {
    match description {
        Some(d) => assigned(cell, d),
        None => revalidated(cell),
    }
}

/// The cells after every cell of a column has been validated in that way.
pub open spec fn column_touched(
    cells: Seq<Seq<DataEntryView>>,
    col: int,
    description: Option<FieldDescriptionView>,
) -> Seq<Seq<DataEntryView>> {
    Seq::new(cells.len(), |r: int| cells[r].update(col, touched(cells[r][col], description)))
}

/// The cells after every cell of a column has been validated again.
pub open spec fn column_revalidated(cells: Seq<Seq<DataEntryView>>, col: int) -> Seq<
    Seq<DataEntryView>,
> {
    Seq::new(cells.len(), |r: int| cells[r].update(col, revalidated(cells[r][col])))
}

/// The cells after every cell of a column has been given a field and
/// validated for it.
pub open spec fn column_assigned(
    cells: Seq<Seq<DataEntryView>>,
    col: int,
    description: FieldDescriptionView,
) -> Seq<Seq<DataEntryView>> {
    Seq::new(cells.len(), |r: int| cells[r].update(col, assigned(cells[r][col], description)))
}

/// `cols` without `col`.
pub open spec fn without(cols: Seq<usize>, col: usize) -> Seq<usize>
    decreases cols.len(),
{
    if cols.len() == 0 {
        Seq::empty()
    } else if cols.last() == col {
        without(cols.drop_last(), col)
    } else {
        without(cols.drop_last(), col).push(cols.last())
    }
}

/// The accepted columns once it is known whether `col` is one of them.
pub open spec fn noted(cols: Seq<usize>, col: usize, accepted: bool) -> Seq<usize> {
    if accepted {
        without(cols, col).push(col)
    } else {
        without(cols, col)
    }
}

/// The table once the cells of a column have become `cells` and the column
/// has been looked over.
pub open spec fn with_column(table: ImportedDataView, cells: Seq<Seq<DataEntryView>>, col: usize)
    -> ImportedDataView {
    let parsed_cols = noted(
        table.parsed_cols,
        col,
        column_parsed(cells, col as int, table.are_headers),
    );
    ImportedDataView {
        cells,
        parsed_cols,
        is_parsed: parsed_cols.len() == table.width,
        ..table
    }
}

/// Every row is as long as the table is wide.
pub open spec fn rectangular(cells: Seq<Seq<DataEntryView>>, width: nat) -> bool {
    forall|r: int| 0 <= r < cells.len() ==> (#[trigger] cells[r]).len() == width
}

impl DataEntryView {
    /// A validation outcome is only kept for a cell that has a field.
    pub open spec fn well_formed(self) -> bool {
        self.is_parsed is Some ==> self.curr_field_description is Some
    }
}

impl ImportedDataView {
    /// What holds of a table that the library has built or changed: its
    /// rows are of one length; only a cell with a field has an outcome; the
    /// accepted columns are columns of the table, each listed once and each
    /// with all its data cells accepted; the table counts as parsed exactly
    /// when as many columns are accepted as it has.
    pub open spec fn well_formed(self) -> bool {
        &&& rectangular(self.cells, self.width)
        &&& forall|r: int, c: int|
            0 <= r < self.cells.len() && 0 <= c < self.width ==> (#[trigger] self.cells[r][c]).well_formed()
        &&& self.parsed_cols.no_duplicates()
        &&& forall|i: int|
            0 <= i < self.parsed_cols.len() ==> (#[trigger] self.parsed_cols[i]) < self.width
                && column_parsed(self.cells, self.parsed_cols[i] as int, self.are_headers)
        &&& self.is_parsed <==> self.parsed_cols.len() == self.width
    }
}

/// Writing one cell of the grid writes the same cell of what the contracts
/// see, and no other.
proof fn lemma_cell_written(rows: Seq<Seq<DataEntry>>, r: int, c: int, cell: DataEntry)
    requires
        0 <= r < rows.len(),
        0 <= c < rows[r].len(),
    ensures
        cells_view(rows.update(r, rows[r].update(c, cell))) == cells_view(rows).update(
            r,
            cells_view(rows)[r].update(c, cell@),
        ),
{
    let left = cells_view(rows.update(r, rows[r].update(c, cell)));
    let right = cells_view(rows).update(r, cells_view(rows)[r].update(c, cell@));
    assert(left.len() == right.len());
    assert forall|i: int| 0 <= i < left.len() implies left[i] == right[i] by {
        if i == r {
            assert(left[i] =~= right[i]);
        }
    }
    assert(left =~= right);
}

/// A list with one more column holds what it held before, and that column.
pub(crate) proof fn lemma_push_contains(s: Seq<usize>, last: usize, x: usize)
    ensures
        s.push(last).contains(x) <==> s.contains(x) || x == last,
{
    let t = s.push(last);
    if s.contains(x) {
        let i = choose|i: int| 0 <= i < s.len() && s[i] == x;
        assert(t[i] == x);
    }
    if x == last {
        assert(t[s.len() as int] == x);
    }
    if t.contains(x) {
        let i = choose|i: int| 0 <= i < t.len() && t[i] == x;
        if i < s.len() {
            assert(s[i] == x);
        }
    }
}

/// What `without` keeps: all but `col`, and nothing twice that did not
/// occur twice before.
pub(crate) proof fn lemma_without(cols: Seq<usize>, col: usize)
    ensures
        !without(cols, col).contains(col),
        forall|x: usize| x != col ==> (without(cols, col).contains(x) <==> cols.contains(x)),
        cols.no_duplicates() ==> without(cols, col).no_duplicates(),
        without(cols, col).len() <= cols.len(),
    decreases cols.len(),
{
    if cols.len() == 0 {
    } else {
        let rest = cols.drop_last();
        let last = cols.last();
        lemma_without(rest, col);
        let w = without(rest, col);
        assert(cols =~= rest.push(last));
        lemma_push_contains(w, last, col);
        assert forall|x: usize| x != col implies (without(cols, col).contains(x) <==> cols.contains(
            x,
        )) by {
            lemma_push_contains(rest, last, x);
            lemma_push_contains(w, last, x);
        }
        if cols.no_duplicates() {
            assert(rest.no_duplicates());
            if last != col {
                assert(!rest.contains(last)) by {
                    if rest.contains(last) {
                        let j = choose|j: int| 0 <= j < rest.len() && rest[j] == last;
                        assert(cols[j] == cols[cols.len() - 1]);
                    }
                }
                assert(!w.contains(last));
                assert(w.push(last).no_duplicates());
            }
        }
    }
}

/// Appending a row to the grid appends it to what the contracts see.
proof fn lemma_row_pushed(rows: Seq<Seq<DataEntry>>, row: Seq<DataEntry>)
    ensures
        cells_view(rows.push(row)) == cells_view(rows).push(row_view(row)),
{
    assert(cells_view(rows.push(row)) =~= cells_view(rows).push(row_view(row)));
}

/// A row of cells that hold the given texts and nothing else.
fn row_of(texts: &Vec<String>) -> (row: Vec<DataEntry>)
    ensures
        row.len() == texts.len(),
        row_view(row@) == fresh_row(texts_view(texts@)),
{
    let mut row: Vec<DataEntry> = Vec::new();
    let mut c: usize = 0;
    while c < texts.len()
        invariant
            c <= texts.len(),
            row.len() == c,
            forall|j: int| 0 <= j < c ==> (#[trigger] row@[j])@ == fresh_cell(texts@[j]@),
        decreases texts.len() - c,
    {
        row.push(DataEntry::new(texts[c].clone()));
        c = c + 1;
    }
    assert(row_view(row@) =~= fresh_row(texts_view(texts@)));
    row
}

/// A row of `width` cells without text.
fn row_of_blanks(width: usize) -> (row: Vec<DataEntry>)
    ensures
        row.len() == width,
        row_view(row@) == blank_row(width as nat),
{
    let mut row: Vec<DataEntry> = Vec::new();
    let mut c: usize = 0;
    while c < width
        invariant
            c <= width,
            row.len() == c,
            forall|j: int| 0 <= j < c ==> (#[trigger] row@[j])@ == fresh_cell(Seq::empty()),
        decreases width - c,
    {
        row.push(DataEntry::new(String::new()));
        c = c + 1;
    }
    assert(row_view(row@) =~= blank_row(width as nat));
    row
}

impl Clone for ImportedData {
    fn clone(&self) -> (res: Self)
        ensures
            res@ == self@,
    {
        ImportedData {
            data: grid_clone(&self.data),
            path: self.path.clone(),
            are_headers: self.are_headers,
            parsed_cols: self.parsed_cols.clone(),
            is_parsed: self.is_parsed,
        }
    }
}

impl Default for ImportedData {
    /// A table without cells. Having no column, it counts as parsed.
    fn default() -> (res: Self)
        ensures
            res@ == (ImportedDataView {
                cells: Seq::empty(),
                width: 0,
                path: Seq::empty(),
                are_headers: false,
                parsed_cols: Seq::empty(),
                is_parsed: true,
            }),
            res@.well_formed(),
    {
        let res = ImportedData {
            data: grid_new(0, 0),
            path: String::new(),
            are_headers: false,
            parsed_cols: Vec::new(),
            is_parsed: true,
        };
        assert(res@.cells =~= Seq::empty());
        res
    }
}

impl ImportedData {
    /// Builds the table of a header and records. Where there is no header,
    /// the first row is made of blank cells. Every cell starts without a
    /// field and without an outcome.
    pub fn from_records(path: String, header: Option<Vec<String>>, records: Vec<Vec<String>>) -> (r:
        Result<ImportedData, ImportError>)
        ensures
            import_view(r) == table_of(path@, header_view(header), record_list_view(records@)),
            r matches Ok(table) ==> table@.well_formed(),
    {
        let ghost texts = record_list_view(records@);
        proof {
            lemma_table_of_well_formed(path@, header_view(header), texts);
        }
        let width: usize = match &header {
            Some(fields) => fields.len(),
            None => if records.len() > 0 {
                records[0].len()
            } else {
                0
            },
        };
        assert(width == table_width(header_view(header), texts));
        let mut i: usize = 0;
        while i < records.len()
            invariant
                i <= records.len(),
                texts == record_list_view(records@),
                width == table_width(header_view(header), texts),
                forall|j: int| 0 <= j < i ==> (#[trigger] texts[j]).len() == width,
            decreases records.len() - i,
        {
            if records[i].len() != width {
                assert(texts[i as int].len() != width);
                return Err(ImportError::UnequalLengths);
            }
            i = i + 1;
        }
        let mut data = grid_new(0, 0);
        if width > 0 {
            let first = match &header {
                Some(fields) => row_of(fields),
                None => row_of_blanks(width),
            };
            proof {
                lemma_row_pushed(grid_cells(data), first@);
            }
            grid_push_row(&mut data, first);
            let ghost head = seq![first_row(header_view(header), width as nat)];
            assert(cells_view(grid_cells(data)) =~= head);
            let mut k: usize = 0;
            while k < records.len()
                invariant
                    k <= records.len(),
                    width > 0,
                    texts == record_list_view(records@),
                    evenly_long(texts, width as nat),
                    grid_width(data) == width,
                    head == seq![first_row(header_view(header), width as nat)],
                    cells_view(grid_cells(data)) == head + Seq::new(
                        k as nat,
                        |r: int| fresh_row(texts[r]),
                    ),
                decreases records.len() - k,
            {
                let row = row_of(&records[k]);
                proof {
                    assert(texts[k as int].len() == width);
                    lemma_row_pushed(grid_cells(data), row@);
                    assert((head + Seq::new(k as nat, |r: int| fresh_row(texts[r]))).push(
                        row_view(row@),
                    ) =~= head + Seq::new((k + 1) as nat, |r: int| fresh_row(texts[r])));
                }
                grid_push_row(&mut data, row);
                k = k + 1;
            }
        } else {
            assert(cells_view(grid_cells(data)) =~= Seq::empty());
        }
        Ok(
            ImportedData {
                data,
                path,
                are_headers: header.is_some(),
                parsed_cols: Vec::new(),
                is_parsed: width == 0,
            },
        )
    }

    /// Reads `bytes` as delimited text and builds the table that they hold.
    pub fn from_bytes(path: String, bytes: &[u8]) -> (r: Result<ImportedData, ImportError>)
        ensures
            import_view(r) == table_of_bytes(path@, bytes@),
            r matches Ok(table) ==> table@.well_formed(),
    {
        let header = read_header(bytes);
        match read_records(bytes) {
            Err(reason) => Err(ImportError::Malformed(reason)),
            Ok(records) => ImportedData::from_records(path, header, records),
        }
    }

    /// Reads `bytes` as delimited text and makes this the table they hold,
    /// under the path that this table has. Where the bytes cannot be read
    /// as a table, this table stays as it is.
    pub fn load_csv(&mut self, bytes: &[u8]) -> (r: Result<(), ImportError>)
        ensures
            match table_of_bytes(old(self)@.path, bytes@) {
                Ok(table) => r is Ok && final(self)@ == table,
                Err(e) => r is Err && r->Err_0@ == e && *final(self) == *old(self),
            },
            old(self)@.well_formed() ==> final(self)@.well_formed(),
    {
        match ImportedData::from_bytes(self.path.clone(), bytes) {
            Ok(table) => {
                *self = table;
                Ok(())
            },
            Err(e) => Err(e),
        }
    }

    /// The number of rows, the header row included.
    pub fn rows(&self) -> (n: usize)
        ensures
            n == self@.cells.len(),
    {
        grid_row_count(&self.data)
    }

    /// The number of columns. Every row has that many cells.
    pub fn cols(&self) -> (n: usize)
        ensures
            n == self@.width,
            rectangular(self@.cells, self@.width),
    {
        let n = grid_col_count(&self.data);
        assert forall|r: int| 0 <= r < self@.cells.len() implies (#[trigger] self@.cells[r]).len()
            == n by {
            assert(grid_cells(self.data)[r].len() == n);
        }
        n
    }

    /// Whether the table holds no cell.
    pub fn is_empty(&self) -> (b: bool)
        ensures
            b == (self@.cells.len() == 0 || self@.width == 0),
    {
        grid_is_empty(&self.data)
    }

    /// Whether every data cell of a column has been validated and accepted.
    pub(crate) fn col_is_parsed(&self, col: usize) -> (b: bool)
        requires
            col < self@.width,
        ensures
            b == column_parsed(self@.cells, col as int, self@.are_headers),
    {
        let rows = grid_row_count(&self.data);
        let width = grid_col_count(&self.data);
        let mut r: usize = if self.are_headers {
            1
        } else {
            0
        };
        while r < rows
            invariant
                first_data_row(self.are_headers) <= r,
                rows == self@.cells.len(),
                col < self@.width,
                forall|i: int|
                    0 <= i < rows ==> (#[trigger] grid_cells(self.data)[i]).len() == self@.width,
                forall|i: int|
                    first_data_row(self.are_headers) <= i < r ==> is_accepted(
                        (#[trigger] self@.cells[i])[col as int],
                    ),
            decreases rows - r,
        {
            let accepted = match grid_get(&self.data, r, col) {
                Some(cell) => match &cell.is_parsed {
                    Some(Ok(_)) => true,
                    _ => false,
                },
                None => false,
            };
            proof {
                let cell = grid_cells(self.data)[r as int][col as int];
                assert(self@.cells[r as int][col as int] == cell@);
                assert(accepted == is_accepted(cell@));
            }
            if !accepted {
                return false;
            }
            r = r + 1;
        }
        true
    }

    /// Validates every cell of a column, for the field given or, where none
    /// is given, each for the field it has; then brings the list of
    /// accepted columns up to date.
    fn touch_col(&mut self, col: usize, description: Option<&FieldDescription>) -> (accepted: bool)
        requires
            col < old(self)@.width,
        ensures
            final(self)@ == with_column(
                old(self)@,
                column_touched(old(self)@.cells, col as int, description_view_of(description)),
                col,
            ),
            accepted == column_parsed(final(self)@.cells, col as int, final(self)@.are_headers),
            old(self)@.well_formed() ==> final(self)@.well_formed(),
    {
        proof {
            if self@.well_formed() {
                lemma_column_touched_keeps_well_formed(
                    self@,
                    col,
                    description_view_of(description),
                );
            }
        }
        let rows = grid_row_count(&self.data);
        let width = grid_col_count(&self.data);
        let ghost before = self@.cells;
        let ghost given = description_view_of(description);
        let mut r: usize = 0;
        while r < rows
            invariant
                r <= rows,
                rows == before.len(),
                col < width,
                width == grid_width(self.data),
                self@.width == old(self)@.width,
                self.path == old(self).path,
                self.are_headers == old(self).are_headers,
                self.parsed_cols == old(self).parsed_cols,
                self.is_parsed == old(self).is_parsed,
                before == old(self)@.cells,
                given == description_view_of(description),
                grid_cells(self.data).len() == rows,
                forall|i: int| 0 <= i < rows ==> (#[trigger] grid_cells(self.data)[i]).len() == width,
                forall|i: int|
                    0 <= i < r ==> (#[trigger] self@.cells[i]) == before[i].update(
                        col as int,
                        touched(before[i][col as int], given),
                    ),
                forall|i: int| r <= i < rows ==> (#[trigger] self@.cells[i]) == before[i],
            decreases rows - r,
        {
            let ghost rows_before = grid_cells(self.data);
            let ghost cells_before = self@.cells;
            let cell = grid_get_mut(&mut self.data, r, col);
            match description {
                Some(d) => {
                    cell.curr_field_description = Some(d.clone());
                },
                None => {},
            }
            parse(cell);
            proof {
                let written = grid_cells(self.data)[r as int][col as int];
                lemma_cell_written(rows_before, r as int, col as int, written);
                assert(self@.cells == cells_before.update(
                    r as int,
                    cells_before[r as int].update(col as int, written@),
                ));
                assert(written@ == touched(before[r as int][col as int], given));
            }
            r = r + 1;
        }
        proof {
            assert(self@.cells =~= column_touched(before, col as int, given));
        }
        let accepted = self.col_is_parsed(col);
        self.note_col(col, accepted);
        accepted
    }

    /// Validates again every cell of a column that has a field, and brings
    /// the list of accepted columns up to date. The answer says whether the
    /// column is now accepted as a whole.
    pub fn parse_col(&mut self, col: usize) -> (r: Result<bool, SchemaError>)
        ensures
            col < old(self)@.width ==> final(self)@ == with_column(
                old(self)@,
                column_revalidated(old(self)@.cells, col as int),
                col,
            ) && r == Ok::<bool, SchemaError>(
                column_parsed(final(self)@.cells, col as int, final(self)@.are_headers),
            ),
            col >= old(self)@.width ==> final(self)@ == old(self)@ && r == Err::<bool, SchemaError>(
                SchemaError::NoSuchColumn(col),
            ),
            old(self)@.well_formed() ==> final(self)@.well_formed(),
    {
        if col >= grid_col_count(&self.data) {
            return Err(SchemaError::NoSuchColumn(col));
        }
        let accepted = self.touch_col(col, None);
        proof {
            assert(column_touched(old(self)@.cells, col as int, None) =~= column_revalidated(
                old(self)@.cells,
                col as int,
            ));
        }
        Ok(accepted)
    }

    /// Gives every cell of a column the field `description`, validates the
    /// cells for it, and brings the list of accepted columns up to date. The
    /// answer says whether the column is now accepted as a whole.
    pub fn assign_col(&mut self, col: usize, description: &FieldDescription) -> (r: Result<
        bool,
        SchemaError,
    >)
        ensures
            col < old(self)@.width ==> final(self)@ == with_column(
                old(self)@,
                column_assigned(old(self)@.cells, col as int, description@),
                col,
            ) && r == Ok::<bool, SchemaError>(
                column_parsed(final(self)@.cells, col as int, final(self)@.are_headers),
            ),
            col >= old(self)@.width ==> final(self)@ == old(self)@ && r == Err::<bool, SchemaError>(
                SchemaError::NoSuchColumn(col),
            ),
            old(self)@.well_formed() ==> final(self)@.well_formed(),
    {
        if col >= grid_col_count(&self.data) {
            return Err(SchemaError::NoSuchColumn(col));
        }
        let accepted = self.touch_col(col, Some(description));
        proof {
            assert(column_touched(old(self)@.cells, col as int, Some(description@))
                =~= column_assigned(old(self)@.cells, col as int, description@));
        }
        Ok(accepted)
    }

    /// Brings the list of accepted columns up to date for `col`, and with it
    /// the mark of the whole table.
    fn note_col(&mut self, col: usize, accepted: bool)
        ensures
            final(self).data == old(self).data,
            final(self).path == old(self).path,
            final(self).are_headers == old(self).are_headers,
            final(self).parsed_cols@ == noted(old(self).parsed_cols@, col, accepted),
            final(self).is_parsed == (final(self).parsed_cols@.len() == grid_width(old(self).data)),
    {
        let mut kept: Vec<usize> = Vec::new();
        let mut i: usize = 0;
        while i < self.parsed_cols.len()
            invariant
                i <= self.parsed_cols.len(),
                *self == *old(self),
                kept@ == without(self.parsed_cols@.take(i as int), col),
            decreases self.parsed_cols.len() - i,
        {
            proof {
                assert(self.parsed_cols@.take(i + 1).drop_last() =~= self.parsed_cols@.take(
                    i as int,
                ));
            }
            if self.parsed_cols[i] != col {
                kept.push(self.parsed_cols[i]);
            }
            i = i + 1;
        }
        proof {
            assert(self.parsed_cols@.take(i as int) =~= self.parsed_cols@);
        }
        if accepted {
            kept.push(col);
        }
        let width = grid_col_count(&self.data);
        self.is_parsed = kept.len() == width;
        self.parsed_cols = kept;
    }
}

} // verus!
