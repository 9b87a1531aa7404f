//! The schema catalog: the tables of the target database, their fields, and
//! the column of the imported grid that each field is mapped to.

use crate::backend::csv_handler::{DataEntry, DataEntryView};
use crate::text::{chars_of, parse_unsigned, unsigned_value};
use vstd::prelude::*;

verus! {

/// What the database says of one column of a table.
#[derive(Debug)]
pub struct FieldDescription {
    pub field: String,
    pub field_type: String,
    pub null: String,
    pub key: String,
    pub default: Option<String>,
    pub extra: String,
}

/// `FieldDescription` as the contracts see it.
pub struct FieldDescriptionView {
    pub field: Seq<char>,
    pub field_type: Seq<char>,
    pub null: Seq<char>,
    pub key: Seq<char>,
    pub default: Option<Seq<char>>,
    pub extra: Seq<char>,
}

/// A text that may be absent, as the contracts see it.
pub open spec fn text_option_view(text: Option<String>) -> Option<Seq<char>> {
    match text {
        Some(s) => Some(s@),
        None => None,
    }
}

impl View for FieldDescription {
    type V = FieldDescriptionView;

    open spec fn view(&self) -> FieldDescriptionView {
        FieldDescriptionView {
            field: self.field@,
            field_type: self.field_type@,
            null: self.null@,
            key: self.key@,
            default: text_option_view(self.default),
            extra: self.extra@,
        }
    }
}

impl Clone for FieldDescription {
    fn clone(&self) -> (res: Self)
        ensures
            res == *self,
    {
        FieldDescription {
            field: self.field.clone(),
            field_type: self.field_type.clone(),
            null: self.null.clone(),
            key: self.key.clone(),
            default: match &self.default {
                Some(text) => Some(text.clone()),
                None => None,
            },
            extra: self.extra.clone(),
        }
    }
}

impl Default for FieldDescription {
    fn default() -> (res: Self)
        ensures
            res@ == (FieldDescriptionView {
                field: Seq::empty(),
                field_type: Seq::empty(),
                null: Seq::empty(),
                key: Seq::empty(),
                default: None,
                extra: Seq::empty(),
            }),
    {
        FieldDescription {
            field: String::new(),
            field_type: String::new(),
            null: String::new(),
            key: String::new(),
            default: None,
            extra: String::new(),
        }
    }
}

/// A field of a table, with the grid column it takes its values from.
#[derive(Debug)]
pub struct TableField {
    pub description: FieldDescription,
    pub mapped_to_col: Option<usize>,
}

/// `TableField` as the contracts see it.
pub struct TableFieldView {
    pub description: FieldDescriptionView,
    pub mapped_to_col: Option<usize>,
}

impl View for TableField {
    type V = TableFieldView;

    open spec fn view(&self) -> TableFieldView {
        TableFieldView { description: self.description@, mapped_to_col: self.mapped_to_col }
    }
}

impl Clone for TableField {
    fn clone(&self) -> (res: Self)
        ensures
            res == *self,
    {
        TableField { description: self.description.clone(), mapped_to_col: self.mapped_to_col }
    }
}

impl Default for TableField {
    fn default() -> (res: Self)
        ensures
            res.mapped_to_col is None,
            res.description@ == FieldDescription::default_view(),
    {
        TableField { description: FieldDescription::default(), mapped_to_col: None }
    }
}

impl FieldDescription {
    /// The description in which every text is empty.
    pub open spec fn default_view() -> FieldDescriptionView {
        FieldDescriptionView {
            field: Seq::empty(),
            field_type: Seq::empty(),
            null: Seq::empty(),
            key: Seq::empty(),
            default: None,
            extra: Seq::empty(),
        }
    }
}

/// A table of the target database. Its fields are unknown until the table
/// has been described.
#[derive(Debug, Clone)]
pub struct Table {
    pub name: String,
    pub fields: Option<Vec<TableField>>,
}

/// `Table` as the contracts see it.
pub struct TableView {
    pub name: Seq<char>,
    pub fields: Option<Seq<TableFieldView>>,
}

/// A list of fields as the contracts see it.
pub open spec fn fields_view(fields: Seq<TableField>) -> Seq<TableFieldView> {
    Seq::new(fields.len(), |i: int| fields[i]@)
}

impl View for Table {
    type V = TableView;

    open spec fn view(&self) -> TableView {
        TableView {
            name: self.name@,
            fields: match self.fields {
                Some(fields) => Some(fields_view(fields@)),
                None => None,
            },
        }
    }
}

/// The tables of the target database, and the one that is being worked on.
#[derive(Debug, Clone)]
pub struct Tables {
    pub tables: Vec<Table>,
    pub current_working_table: Option<usize>,
    pub is_connection_verified: bool,
}

/// `Tables` as the contracts see it.
pub struct TablesView {
    pub tables: Seq<TableView>,
    pub current_working_table: Option<usize>,
    pub is_connection_verified: bool,
}

/// A list of tables as the contracts see it.
pub open spec fn tables_view(tables: Seq<Table>) -> Seq<TableView> {
    Seq::new(tables.len(), |i: int| tables[i]@)
}

impl View for Tables {
    type V = TablesView;

    open spec fn view(&self) -> TablesView {
        TablesView {
            tables: tables_view(self.tables@),
            current_working_table: self.current_working_table,
            is_connection_verified: self.is_connection_verified,
        }
    }
}

impl Default for Table {
    fn default() -> (res: Self)
        ensures
            res@ == (TableView { name: Seq::empty(), fields: None }),
    {
        Table { name: String::new(), fields: None }
    }
}

impl Default for Tables {
    fn default() -> (res: Self)
        ensures
            res@ == (TablesView {
                tables: Seq::empty(),
                current_working_table: None,
                is_connection_verified: false,
            }),
    {
        let res = Tables {
            tables: Vec::new(),
            current_working_table: None,
            is_connection_verified: false,
        };
        assert(res@.tables =~= Seq::empty());
        res
    }
}

/// The catalog of a session that has just listed its tables: one table for
/// each name, not yet described, and none selected.
pub open spec fn listed_tables(names: Seq<Seq<char>>) -> Seq<TableView> {
    Seq::new(names.len(), |i: int| TableView { name: names[i], fields: None })
}

impl Tables {
    /// Makes the catalog that of a session that has just listed its tables.
    pub fn query_for_tables(&mut self, names: Vec<String>)
        ensures
            final(self)@ == (TablesView {
                tables: listed_tables(values_view(names@)),
                current_working_table: None,
                is_connection_verified: old(self).is_connection_verified,
            }),
    {
        let mut tables: Vec<Table> = Vec::new();
        let mut i: usize = 0;
        while i < names.len()
            invariant
                i <= names.len(),
                tables.len() == i,
                forall|j: int|
                    0 <= j < i ==> (#[trigger] tables@[j])@ == (TableView {
                        name: names@[j]@,
                        fields: None,
                    }),
            decreases names.len() - i,
        {
            tables.push(Table::new(names[i].clone()));
            i = i + 1;
        }
        assert(tables_view(tables@) =~= listed_tables(values_view(names@)));
        self.tables = tables;
        self.current_working_table = None;
    }

    /// Takes the columns that the database reports for the table at `index`
    /// as its fields, unless the table has its fields already.
    pub(crate) fn describe_table_at(&mut self, index: usize, description: Vec<FieldDescription>)
        requires
            index < old(self).tables.len(),
        ensures
            final(self)@ == (match old(self)@.tables[index as int].fields {
                Some(_) => old(self)@,
                None => TablesView {
                    tables: old(self)@.tables.update(
                        index as int,
                        TableView {
                            name: old(self)@.tables[index as int].name,
                            fields: Some(described_fields(descriptions_view(description@))),
                        },
                    ),
                    ..old(self)@
                },
            }),
    {
        let ghost before = self@;
        let mut table = self.tables.remove(index);
        assert(table@ == before.tables[index as int]);
        table.describe_table(description);
        let ghost after = table@;
        self.tables.insert(index, table);
        proof {
            assert(self@.tables =~= before.tables.update(index as int, after));
            if before.tables[index as int].fields is Some {
                assert(after == before.tables[index as int]);
                assert(self@.tables =~= before.tables);
            }
        }
    }

    /// Maps a field of a table to a column, and hands back the description
    /// of the field.
    pub(crate) fn set_mapping(&mut self, table: usize, field: usize, col: usize) -> (description:
        FieldDescription)
        requires
            table < old(self).tables.len(),
            old(self)@.tables[table as int].fields is Some,
            field < old(self)@.tables[table as int].fields->0.len(),
        ensures
            description@ == old(self)@.tables[table as int].fields->0[field as int].description,
            final(self)@ == (TablesView {
                tables: old(self)@.tables.update(
                    table as int,
                    TableView {
                        name: old(self)@.tables[table as int].name,
                        fields: Some(
                            old(self)@.tables[table as int].fields->0.update(
                                field as int,
                                TableFieldView {
                                    description: description@,
                                    mapped_to_col: Some(col),
                                },
                            ),
                        ),
                    },
                ),
                ..old(self)@
            }),
    {
        let ghost before = self@;
        let chosen = self.tables.remove(table);
        assert(chosen@ == before.tables[table as int]);
        let Table { name, fields } = chosen;
        let mut list: Vec<TableField> = match fields {
            Some(list) => list,
            None => Vec::new(),
        };
        let ghost known = fields_view(list@);
        let mut entry = list.remove(field);
        assert(entry@ == known[field as int]);
        entry.mapped_to_col = Some(col);
        let description = entry.description.clone();
        list.insert(field, entry);
        proof {
            assert(fields_view(list@) =~= known.update(
                field as int,
                TableFieldView { description: description@, mapped_to_col: Some(col) },
            ));
        }
        let table_after = Table { name, fields: Some(list) };
        let ghost after = table_after@;
        self.tables.insert(table, table_after);
        proof {
            assert(self@.tables =~= before.tables.update(table as int, after));
        }
        description
    }

    /// The table at `index`.
    pub fn table(&self, index: usize) -> (r: Result<&Table, SchemaError>)
        ensures
            index < self.tables.len() ==> r == Ok::<&Table, SchemaError>(&self.tables[index as int]),
            index >= self.tables.len() ==> r == Err::<&Table, SchemaError>(
                SchemaError::NoSuchTable(index),
            ),
    {
        if index < self.tables.len() {
            Ok(&self.tables[index])
        } else {
            Err(SchemaError::NoSuchTable(index))
        }
    }
}

/// Why a table, a field or a column could not be reached.
#[derive(Debug, Clone, Copy, PartialEq, Eq, Structural)]
pub enum SchemaError {
    /// The catalog has no table at this index.
    NoSuchTable(usize),
    /// The table has no field at this index.
    NoSuchField(usize),
    /// The grid has no column at this index.
    NoSuchColumn(usize),
    /// The table at this index has not been described yet.
    NotDescribed(usize),
    /// There is no session with the database.
    NotConnected,
}

/// The mapper found no header that names a field of the table. The fields
/// have to be mapped by hand.
#[derive(Debug, Clone, Copy, PartialEq, Eq, Structural)]
pub enum MappingError {
    NoHeaderMatched,
}

/// A statement for the database: its text, and the values that stand for
/// the question marks in it, in order.
#[derive(Debug, Clone)]
pub struct Statement {
    pub query: String,
    pub values: Vec<String>,
}

/// `Statement` as the contracts see it.
pub struct StatementView {
    pub query: Seq<char>,
    pub values: Seq<Seq<char>>,
}

/// The values of a statement as the contracts see them.
pub open spec fn values_view(values: Seq<String>) -> Seq<Seq<char>> {
    Seq::new(values.len(), |i: int| values[i]@)
}

impl View for Statement {
    type V = StatementView;

    open spec fn view(&self) -> StatementView {
        StatementView { query: self.query@, values: values_view(self.values@) }
    }
}

/// A statement that binds no value.
pub open spec fn plain_statement(query: Seq<char>) -> StatementView {
    StatementView { query, values: Seq::empty() }
}

impl Statement {
    /// A statement that binds no value.
    pub fn plain(query: &str) -> (s: Statement)
        ensures
            s@ == plain_statement(query@),
    {
        let s = Statement { query: query.to_owned(), values: Vec::new() };
        assert(s@.values =~= Seq::empty());
        s
    }

    /// Asks for the names of the tables.
    pub fn show_tables() -> (s: Statement)
        ensures
            s@ == plain_statement("SHOW TABLES"@),
    {
        Statement::plain("SHOW TABLES")
    }

    /// Stops the session from committing each statement by itself.
    pub fn autocommit_off() -> (s: Statement)
        ensures
            s@ == plain_statement("SET autocommit = OFF"@),
    {
        Statement::plain("SET autocommit = OFF")
    }

    /// Opens a transaction.
    pub fn begin() -> (s: Statement)
        ensures
            s@ == plain_statement("BEGIN"@),
    {
        Statement::plain("BEGIN")
    }

    /// Makes the open transaction last.
    pub fn commit() -> (s: Statement)
        ensures
            s@ == plain_statement("COMMIT"@),
    {
        Statement::plain("COMMIT")
    }

    /// Undoes the open transaction.
    pub fn rollback() -> (s: Statement)
        ensures
            s@ == plain_statement("ROLLBACK"@),
    {
        Statement::plain("ROLLBACK")
    }
}

/// Why a statement did not succeed.
#[derive(Debug)]
pub enum QueryError {
    /// The database did not carry the statement out. The text of the
    /// statement and the reason that the database gave are carried along.
    Rejected { query: String, reason: String },
    /// The statement could not be written.
    Schema(SchemaError),
}

/// `QueryError` as the contracts see it.
pub enum QueryFault {
    Rejected { query: Seq<char>, reason: Seq<char> },
    Schema(SchemaError),
}

impl View for QueryError {
    type V = QueryFault;

    open spec fn view(&self) -> QueryFault {
        match self {
            QueryError::Rejected { query, reason } => QueryFault::Rejected {
                query: query@,
                reason: reason@,
            },
            QueryError::Schema(e) => QueryFault::Schema(*e),
        }
    }
}

impl Clone for QueryError {
    fn clone(&self) -> (res: Self)
        ensures
            res == *self,
    {
        match self {
            QueryError::Rejected { query, reason } => QueryError::Rejected {
                query: query.clone(),
                reason: reason.clone(),
            },
            QueryError::Schema(e) => QueryError::Schema(*e),
        }
    }
}

/// A statement that was sent, and what came of it: the number of rows that
/// it changed, or why it did not succeed.
#[derive(Debug)]
pub struct QueryResult {
    pub query: String,
    pub result: Result<u64, QueryError>,
}

/// `QueryResult` as the contracts see it.
pub struct QueryResultView {
    pub query: Seq<char>,
    pub result: Result<u64, QueryFault>,
}

impl View for QueryResult {
    type V = QueryResultView;

    open spec fn view(&self) -> QueryResultView {
        QueryResultView {
            query: self.query@,
            result: match self.result {
                Ok(rows) => Ok(rows),
                Err(e) => Err(e@),
            },
        }
    }
}

/// What the database answered to a statement: the number of rows that it
/// changed, or the reason why it did not carry the statement out.
pub open spec fn answer_view(answer: Result<u64, String>) -> Result<u64, Seq<char>> {
    match answer {
        Ok(rows) => Ok(rows),
        Err(reason) => Err(reason@),
    }
}

/// The result of a statement, given its text and the database's answer.
pub open spec fn settled(query: Seq<char>, answer: Result<u64, Seq<char>>) -> QueryResultView {
    QueryResultView {
        query,
        result: match answer {
            Ok(rows) => Ok(rows),
            Err(reason) => Err(QueryFault::Rejected { query, reason }),
        },
    }
}

impl Clone for QueryResult {
    fn clone(&self) -> (res: Self)
        ensures
            res == *self,
    {
        QueryResult {
            query: self.query.clone(),
            result: match &self.result {
                Ok(rows) => Ok(*rows),
                Err(e) => Err(e.clone()),
            },
        }
    }
}

impl QueryResult {
    /// The result of a statement, given its text and the database's answer.
    pub fn settle(query: String, answer: Result<u64, String>) -> (r: QueryResult)
        ensures
            r@ == settled(query@, answer_view(answer)),
    {
        match answer {
            Ok(rows) => QueryResult { query, result: Ok(rows) },
            Err(reason) => {
                let text = query.clone();
                QueryResult { query, result: Err(QueryError::Rejected { query: text, reason }) }
            },
        }
    }

    /// The result of a statement that could not be written.
    pub fn unwritten(e: SchemaError) -> (r: QueryResult)
        ensures
            r@ == (QueryResultView {
                query: Seq::empty(),
                result: Err(QueryFault::Schema(e)),
            }),
    {
        QueryResult { query: String::new(), result: Err(QueryError::Schema(e)) }
    }
}

/// The items of a list, with a separator between each two.
pub open spec fn joined(items: Seq<Seq<char>>, separator: Seq<char>) -> Seq<char>
    decreases items.len(),
{
    if items.len() == 0 {
        Seq::empty()
    } else if items.len() == 1 {
        items[0]
    } else {
        joined(items.drop_last(), separator) + separator + items.last()
    }
}

/// The fields that are mapped to a column, in the order of the fields.
pub open spec fn mapped(fields: Seq<TableFieldView>) -> Seq<TableFieldView>
    decreases fields.len(),
{
    if fields.len() == 0 {
        Seq::empty()
    } else if fields.last().mapped_to_col is Some {
        mapped(fields.drop_last()).push(fields.last())
    } else {
        mapped(fields.drop_last())
    }
}

/// The column of the first field, from `from` on, that is mapped to a
/// column which a row of `width` cells does not have.
pub open spec fn misfit(fields: Seq<TableFieldView>, width: nat, from: int) -> Option<usize>
    decreases fields.len() - from,
{
    if from < 0 || from >= fields.len() {
        None
    } else {
        match fields[from].mapped_to_col {
            Some(col) => if col >= width {
                Some(col)
            } else {
                misfit(fields, width, from + 1)
            },
            None => misfit(fields, width, from + 1),
        }
    }
}

/// The names of the given fields.
pub open spec fn field_names(fields: Seq<TableFieldView>) -> Seq<Seq<char>> {
    Seq::new(fields.len(), |i: int| fields[i].description.field)
}

/// `n` question marks.
pub open spec fn placeholders(n: nat) -> Seq<Seq<char>> {
    Seq::new(n, |i: int| "?"@)
}

/// The values that a row holds for the given fields.
pub open spec fn field_values(fields: Seq<TableFieldView>, row: Seq<DataEntryView>) -> Seq<
    Seq<char>,
> {
    Seq::new(fields.len(), |i: int| row[fields[i].mapped_to_col->0 as int].data)
}

/// The fields of a table, none for a table that has not been described.
pub open spec fn known_fields(table: TableView) -> Seq<TableFieldView> {
    match table.fields {
        Some(fields) => fields,
        None => Seq::empty(),
    }
}

/// The text of the statement that inserts a row into a table: the table,
/// the names of the given fields, and a question mark for each.
pub open spec fn insert_text(name: Seq<char>, fields: Seq<TableFieldView>) -> Seq<char> {
    "INSERT INTO "@ + name + "("@ + joined(field_names(fields), ", "@) + ") VALUES("@ + joined(
        placeholders(fields.len()),
        ", "@,
    ) + ")"@
}

/// The statement that inserts a row of the grid into a table. It names the
/// fields that are mapped to a column, in their order, and binds to each the
/// text of the row's cell in that column. There is none where a field is
/// mapped to a column that the row does not have.
pub open spec fn insert_statement(table: TableView, row: Seq<DataEntryView>) -> Result<
    StatementView,
    SchemaError,
> {
    let fields = known_fields(table);
    match misfit(fields, row.len(), 0) {
        Some(col) => Err(SchemaError::NoSuchColumn(col)),
        None => Ok(
            StatementView {
                query: insert_text(table.name, mapped(fields)),
                values: field_values(mapped(fields), row),
            },
        ),
    }
}

/// A row that is passed as references to its cells, as the contracts see
/// it.
pub open spec fn row_refs_view(row: Seq<&DataEntry>) -> Seq<DataEntryView> {
    Seq::new(row.len(), |c: int| (*row[c])@)
}

/// A statement that was written, or the error, as the contracts see them.
pub open spec fn statement_view(r: Result<Statement, SchemaError>) -> Result<
    StatementView,
    SchemaError,
> {
    match r {
        Ok(s) => Ok(s@),
        Err(e) => Err(e),
    }
}

/// The fields of a table that has just been described: one for each column
/// that the database reports, none mapped yet.
pub open spec fn described_fields(description: Seq<FieldDescriptionView>) -> Seq<TableFieldView> {
    Seq::new(
        description.len(),
        |i: int| TableFieldView { description: description[i], mapped_to_col: None },
    )
}

/// A list of descriptions as the contracts see it.
pub open spec fn descriptions_view(description: Seq<FieldDescription>) -> Seq<FieldDescriptionView> {
    Seq::new(description.len(), |i: int| description[i]@)
}

impl Table {
    /// A table of which only the name is known.
    pub fn new(name: String) -> (t: Table)
        ensures
            t@ == (TableView { name: name@, fields: None }),
    {
        Table { name, fields: None }
    }

    /// Asks the database for the columns of this table.
    pub fn describe_statement(&self) -> (s: Statement)
        ensures
            s@ == plain_statement("DESCRIBE "@ + self.name@),
    {
        let mut query = "DESCRIBE ".to_owned();
        query.append(self.name.as_str());
        let s = Statement { query, values: Vec::new() };
        assert(s@.values =~= Seq::empty());
        s
    }

    /// Empties this table in the database.
    pub fn truncate_statement(&self) -> (s: Statement)
        ensures
            s@ == plain_statement("truncate "@ + self.name@),
    {
        let mut query = "truncate ".to_owned();
        query.append(self.name.as_str());
        let s = Statement { query, values: Vec::new() };
        assert(s@.values =~= Seq::empty());
        s
    }

    /// Takes the columns that the database reports for this table as its
    /// fields, none of them mapped. A table that has its fields keeps them.
    pub fn describe_table(&mut self, description: Vec<FieldDescription>)
        ensures
            final(self).name == old(self).name,
            old(self).fields is Some ==> final(self).fields == old(self).fields,
            old(self).fields is None ==> final(self)@.fields == Some(
                described_fields(descriptions_view(description@)),
            ),
    {
        if self.fields.is_some() {
            return ;
        }
        let mut fields: Vec<TableField> = Vec::new();
        let mut i: usize = 0;
        while i < description.len()
            invariant
                i <= description.len(),
                fields.len() == i,
                forall|j: int|
                    0 <= j < i ==> (#[trigger] fields@[j])@ == (TableFieldView {
                        description: description@[j]@,
                        mapped_to_col: None,
                    }),
            decreases description.len() - i,
        {
            fields.push(TableField { description: description[i].clone(), mapped_to_col: None });
            i = i + 1;
        }
        assert(fields_view(fields@) =~= described_fields(descriptions_view(description@)));
        self.fields = Some(fields);
    }

    /// Writes the statement that inserts a row of the grid into this table.
    pub fn insert_into_table(&self, csv_row: Vec<&DataEntry>) -> (r: Result<Statement, SchemaError>)
        ensures
            statement_view(r) == insert_statement(self@, row_refs_view(csv_row@)),
    {
        let ghost fields = known_fields(self@);
        let ghost row = row_refs_view(csv_row@);
        let mut names = String::new();
        let mut marks = String::new();
        let mut values: Vec<String> = Vec::new();
        let none: Vec<TableField> = Vec::new();
        let list: &Vec<TableField> = match &self.fields {
            Some(list) => list,
            None => &none,
        };
        assert(fields_view(list@) =~= fields);
        let count: usize = list.len();
        let mut i: usize = 0;
        proof {
            assert(fields.take(0) =~= Seq::empty());
            assert(values_view(values@) =~= field_values(mapped(fields.take(0)), row));
        }
        while i < count
            invariant
                i <= count,
                count == list.len(),
                fields == fields_view(list@),
                fields == known_fields(self@),
                row == row_refs_view(csv_row@),
                misfit(fields, row.len(), 0) == misfit(fields, row.len(), i as int),
                names@ == joined(field_names(mapped(fields.take(i as int))), ", "@),
                marks@ == joined(placeholders(mapped(fields.take(i as int)).len()), ", "@),
                values_view(values@) == field_values(mapped(fields.take(i as int)), row),
                values.len() == mapped(fields.take(i as int)).len(),
            decreases count - i,
        {
            let ghost before = mapped(fields.take(i as int));
            proof {
                assert(fields.take(i + 1).drop_last() =~= fields.take(i as int));
                assert(fields.take(i + 1).last() == fields[i as int]);
            }
            let field: &TableField = &list[i];
            assert(field@ == fields[i as int]);
            match field.mapped_to_col {
                Some(col) => {
                    if col >= csv_row.len() {
                        return Err(SchemaError::NoSuchColumn(col));
                    }
                    if values.len() > 0 {
                        names.append(", ");
                        marks.append(", ");
                    }
                    names.append(field.description.field.as_str());
                    marks.append("?");
                    let ghost earlier = values@;
                    values.push(csv_row[col].data.clone());
                    proof {
                        let after = mapped(fields.take(i + 1));
                        assert(after == before.push(fields[i as int]));
                        assert(field_names(after).drop_last() =~= field_names(before));
                        assert(placeholders(after.len()).drop_last() =~= placeholders(before.len()));
                        assert forall|j: int| 0 <= j < after.len() implies values_view(values@)[j]
                            == field_values(after, row)[j] by {
                            if j < before.len() {
                                assert(values@[j] == earlier[j]);
                                assert(values_view(earlier)[j] == field_values(before, row)[j]);
                            } else {
                                assert(row[col as int] == (*csv_row@[col as int])@);
                            }
                        }
                        assert(values_view(values@) =~= field_values(after, row));
                    }
                },
                None => {},
            }
            i = i + 1;
        }
        proof {
            assert(fields.take(count as int) =~= fields);
        }
        let mut query = "INSERT INTO ".to_owned();
        query.append(self.name.as_str());
        query.append("(");
        query.append(names.as_str());
        query.append(") VALUES(");
        query.append(marks.as_str());
        query.append(")");
        Ok(Statement { query, values })
    }

    /// What has come of the statement that makes the transaction last.
    pub fn transaction_commit(answer: Result<u64, String>) -> (r: QueryResult)
        ensures
            r@ == settled("COMMIT"@, answer_view(answer)),
    {
        QueryResult::settle("COMMIT".to_owned(), answer)
    }

    /// What has come of the statement that undoes the transaction.
    pub fn transaction_rollback(answer: Result<u64, String>) -> (r: QueryResult)
        ensures
            r@ == settled("ROLLBACK"@, answer_view(answer)),
    {
        QueryResult::settle("ROLLBACK".to_owned(), answer)
    }

    /// How the opening of a transaction goes on once the database has
    /// answered the request to stop committing each statement by itself.
    /// After a refusal the opening ends with that result; else the
    /// transaction is begun.
    pub fn start_transaction(answer: Result<u64, String>) -> (r: Result<Statement, QueryResult>)
        ensures
            answer is Ok ==> r is Ok && r->Ok_0@ == plain_statement("BEGIN"@),
            answer is Err ==> r is Err && r->Err_0@ == settled(
                "SET autocommit = OFF"@,
                answer_view(answer),
            ),
    {
        match answer {
            Ok(_) => Ok(Statement::begin()),
            Err(reason) => Err(QueryResult::settle("SET autocommit = OFF".to_owned(), Err(reason))),
        }
    }

    /// What has come of the statement that empties this table.
    pub fn truncate_table(&self, answer: Result<u64, String>) -> (r: QueryResult)
        ensures
            r@ == settled("truncate "@ + self.name@, answer_view(answer)),
    {
        let statement = self.truncate_statement();
        QueryResult::settle(statement.query, answer)
    }
}

/// What is needed to open a session with the database, as it was typed in.
#[derive(Debug)]
pub struct DBLoginData {
    pub user_name: String,
    pub database: String,
    pub host: String,
    pub port: String,
    pub password: String,
    pub should_remember: bool,
    pub is_verified: bool,
}

/// `DBLoginData` as the contracts see it.
pub struct DBLoginDataView {
    pub user_name: Seq<char>,
    pub database: Seq<char>,
    pub host: Seq<char>,
    pub port: Seq<char>,
    pub password: Seq<char>,
    pub should_remember: bool,
    pub is_verified: bool,
}

impl View for DBLoginData {
    type V = DBLoginDataView;

    open spec fn view(&self) -> DBLoginDataView {
        DBLoginDataView {
            user_name: self.user_name@,
            database: self.database@,
            host: self.host@,
            port: self.port@,
            password: self.password@,
            should_remember: self.should_remember,
            is_verified: self.is_verified,
        }
    }
}

impl Clone for DBLoginData {
    fn clone(&self) -> (res: Self)
        ensures
            res == *self,
    {
        DBLoginData {
            user_name: self.user_name.clone(),
            database: self.database.clone(),
            host: self.host.clone(),
            port: self.port.clone(),
            password: self.password.clone(),
            should_remember: self.should_remember,
            is_verified: self.is_verified,
        }
    }
}

impl Default for DBLoginData {
    fn default() -> (res: Self)
        ensures
            res@ == (DBLoginDataView {
                user_name: Seq::empty(),
                database: Seq::empty(),
                host: Seq::empty(),
                port: Seq::empty(),
                password: Seq::empty(),
                should_remember: false,
                is_verified: false,
            }),
    {
        DBLoginData {
            user_name: String::new(),
            database: String::new(),
            host: String::new(),
            port: String::new(),
            password: String::new(),
            should_remember: false,
            is_verified: false,
        }
    }
}

/// What is handed to the database driver to open a session.
#[derive(Debug)]
pub struct ConnectionRequest {
    pub host: String,
    pub port: u16,
    pub user_name: String,
    pub password: String,
    pub database: String,
}

/// `ConnectionRequest` as the contracts see it.
pub struct ConnectionRequestView {
    pub host: Seq<char>,
    pub port: u16,
    pub user_name: Seq<char>,
    pub password: Seq<char>,
    pub database: Seq<char>,
}

impl View for ConnectionRequest {
    type V = ConnectionRequestView;

    open spec fn view(&self) -> ConnectionRequestView {
        ConnectionRequestView {
            host: self.host@,
            port: self.port,
            user_name: self.user_name@,
            password: self.password@,
            database: self.database@,
        }
    }
}

/// Why no session with the database came about.
#[derive(Debug)]
pub enum ConnectionError {
    /// The port is not a number between 0 and 65535; its text is carried
    /// along.
    BadPort(String),
    /// The database did not let the session in; its reason is carried along.
    Refused(String),
    /// The session was opened, but the tables could not be listed; the
    /// reason is carried along.
    NoTables(String),
}

/// `ConnectionError` as the contracts see it.
pub enum ConnectionFault {
    BadPort(Seq<char>),
    Refused(Seq<char>),
    NoTables(Seq<char>),
}

impl View for ConnectionError {
    type V = ConnectionFault;

    open spec fn view(&self) -> ConnectionFault {
        match self {
            ConnectionError::BadPort(text) => ConnectionFault::BadPort(text@),
            ConnectionError::Refused(reason) => ConnectionFault::Refused(reason@),
            ConnectionError::NoTables(reason) => ConnectionFault::NoTables(reason@),
        }
    }
}

/// The request that credentials make, or why they make none: the port has
/// to be a number that fits in sixteen bits.
pub open spec fn connection_request(login: DBLoginDataView) -> Result<
    ConnectionRequestView,
    ConnectionFault,
> {
    match unsigned_value(login.port, 0xffff) {
        Some(port) => Ok(
            ConnectionRequestView {
                host: login.host,
                port: port as u16,
                user_name: login.user_name,
                password: login.password,
                database: login.database,
            },
        ),
        None => Err(ConnectionFault::BadPort(login.port)),
    }
}

/// A request that was written, or the error, as the contracts see them.
pub open spec fn request_view(r: Result<ConnectionRequest, ConnectionError>) -> Result<
    ConnectionRequestView,
    ConnectionFault,
> {
    match r {
        Ok(request) => Ok(request@),
        Err(e) => Err(e@),
    }
}

impl DBLoginData {
    /// Checks the credentials as far as that can be done without the
    /// database, and writes the request to open a session with them.
    pub fn validate_creditentials(&self) -> (r: Result<ConnectionRequest, ConnectionError>)
        ensures
            request_view(r) == connection_request(self@),
    {
        let chars = chars_of(self.port.as_str());
        proof {
            assert(chars@.subrange(0, chars.len() as int) =~= chars@);
        }
        match parse_unsigned(&chars, 0, chars.len(), 0xffff) {
            Some(port) => Ok(
                ConnectionRequest {
                    host: self.host.clone(),
                    port: port as u16,
                    user_name: self.user_name.clone(),
                    password: self.password.clone(),
                    database: self.database.clone(),
                },
            ),
            None => Err(ConnectionError::BadPort(self.port.clone())),
        }
    }
}

} // verus!
