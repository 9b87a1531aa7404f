//! What passes between the command processor and the program around it.
//!
//! The processor does not talk to the database or read files itself. It
//! answers each event with an action. The program carries the action out and
//! comes back with the event that tells how it went, until the action is a
//! reply or the end of a stream: then the command is done and the next one
//! can be taken up.

use crate::backend::csv_handler::{texts_view, ImportError, ImportFault};
use crate::backend::database_handler::{
    descriptions_view, answer_view, ConnectionError, ConnectionFault, ConnectionRequest,
    ConnectionRequestView, DBLoginData, DBLoginDataView, FieldDescription, FieldDescriptionView,
    MappingError, QueryResult, QueryResultView, SchemaError, Statement, StatementView,
};
use vstd::prelude::*;

verus! {

/// A command to the processor.
#[derive(Debug)]
pub enum Communication {
    /// Open a session with these credentials and list the tables.
    ValidateCreditentials(DBLoginData),
    /// Import the file at this path.
    LoadImportFilePath(String),
    /// Select the table at this index, describe it if that has not been
    /// done, and map its fields to the columns of the grid.
    GetTableDescription(usize),
    /// Validate again the cells of this column that have a field.
    TryParseCol(usize),
    /// Map a field of a table to a column: the table, the field in it, and
    /// the column.
    MapFieldToCol(usize, usize, usize),
    /// Insert the rows of the grid into the table at this index.
    StartInserting(usize),
    /// Make the open transaction last.
    TryCommit,
    /// Undo the open transaction.
    TryRollBack,
}

/// `Communication` as the contracts see it.
pub enum CommunicationView {
    ValidateCreditentials(DBLoginDataView),
    LoadImportFilePath(Seq<char>),
    GetTableDescription(usize),
    TryParseCol(usize),
    MapFieldToCol(usize, usize, usize),
    StartInserting(usize),
    TryCommit,
    TryRollBack,
}

impl View for Communication {
    type V = CommunicationView;

    open spec fn view(&self) -> CommunicationView {
        match self {
            Communication::ValidateCreditentials(login) => CommunicationView::ValidateCreditentials(
                login@,
            ),
            Communication::LoadImportFilePath(path) => CommunicationView::LoadImportFilePath(path@),
            Communication::GetTableDescription(table) => CommunicationView::GetTableDescription(
                *table,
            ),
            Communication::TryParseCol(col) => CommunicationView::TryParseCol(*col),
            Communication::MapFieldToCol(table, field, col) => CommunicationView::MapFieldToCol(
                *table,
                *field,
                *col,
            ),
            Communication::StartInserting(table) => CommunicationView::StartInserting(*table),
            Communication::TryCommit => CommunicationView::TryCommit,
            Communication::TryRollBack => CommunicationView::TryRollBack,
        }
    }
}

/// What the program reports to the processor.
#[derive(Debug)]
pub enum Event {
    /// A command has been taken from the queue.
    Command(Communication),
    /// The session has been opened.
    Connected,
    /// The session could not be opened, for the reason given.
    ConnectionFailed(String),
    /// The file has been read: its bytes, or why it could not be read.
    File(Result<Vec<u8>, String>),
    /// The tables have been listed: their names, or why they could not be.
    TableNames(Result<Vec<String>, String>),
    /// The table has been described: its columns, or why it could not be.
    Description(Result<Vec<FieldDescription>, String>),
    /// The statement has been sent: the number of rows it changed, or why
    /// the database did not carry it out.
    Executed(Result<u64, String>),
    /// The result has been handed to the one who waits for it.
    Delivered,
}

/// `Event` as the contracts see it.
pub enum EventView {
    Command(CommunicationView),
    Connected,
    ConnectionFailed(Seq<char>),
    File(Result<Seq<u8>, Seq<char>>),
    TableNames(Result<Seq<Seq<char>>, Seq<char>>),
    Description(Result<Seq<FieldDescriptionView>, Seq<char>>),
    Executed(Result<u64, Seq<char>>),
    Delivered,
}

impl View for Event {
    type V = EventView;

    open spec fn view(&self) -> EventView {
        match self {
            Event::Command(command) => EventView::Command(command@),
            Event::Connected => EventView::Connected,
            Event::ConnectionFailed(reason) => EventView::ConnectionFailed(reason@),
            Event::File(Ok(bytes)) => EventView::File(Ok(bytes@)),
            Event::File(Err(reason)) => EventView::File(Err(reason@)),
            Event::TableNames(Ok(names)) => EventView::TableNames(Ok(texts_view(names@))),
            Event::TableNames(Err(reason)) => EventView::TableNames(Err(reason@)),
            Event::Description(Ok(columns)) => EventView::Description(
                Ok(descriptions_view(columns@)),
            ),
            Event::Description(Err(reason)) => EventView::Description(Err(reason@)),
            Event::Executed(answer) => EventView::Executed(answer_view(*answer)),
            Event::Delivered => EventView::Delivered,
        }
    }
}

/// The answer to a command.
#[derive(Debug)]
pub enum Reply {
    /// Whether the session was opened and its tables listed.
    Credentials(Result<(), ConnectionError>),
    /// Whether the file was imported.
    FileLoaded(Result<(), ImportError>),
    /// Whether the mapper found a column for a field of the table.
    Mapped(Result<(), MappingError>),
    /// Whether the column is accepted as a whole.
    ColumnParsed(bool),
    /// What came of the statement that the command stands for.
    Query(QueryResult),
    /// The command names something that is not there, or asks for the
    /// database without a session.
    Rejected(SchemaError),
}

/// `Reply` as the contracts see it.
pub enum ReplyView {
    Credentials(Result<(), ConnectionFault>),
    FileLoaded(Result<(), ImportFault>),
    Mapped(Result<(), MappingError>),
    ColumnParsed(bool),
    Query(QueryResultView),
    Rejected(SchemaError),
}

impl View for Reply {
    type V = ReplyView;

    open spec fn view(&self) -> ReplyView {
        match self {
            Reply::Credentials(Ok(_)) => ReplyView::Credentials(Ok(())),
            Reply::Credentials(Err(e)) => ReplyView::Credentials(Err(e@)),
            Reply::FileLoaded(Ok(_)) => ReplyView::FileLoaded(Ok(())),
            Reply::FileLoaded(Err(e)) => ReplyView::FileLoaded(Err(e@)),
            Reply::Mapped(Ok(_)) => ReplyView::Mapped(Ok(())),
            Reply::Mapped(Err(e)) => ReplyView::Mapped(Err(*e)),
            Reply::ColumnParsed(accepted) => ReplyView::ColumnParsed(*accepted),
            Reply::Query(result) => ReplyView::Query(result@),
            Reply::Rejected(e) => ReplyView::Rejected(*e),
        }
    }
}

/// What the processor asks the program to do.
#[derive(Debug)]
pub enum Action {
    /// Open a session. Answered by `Connected` or `ConnectionFailed`.
    Connect(ConnectionRequest),
    /// Read the file at this path. Answered by `File`.
    ReadFile(String),
    /// Send the statement and collect the first column of every row of its
    /// answer. Answered by `TableNames`.
    ListTables(Statement),
    /// Send the statement and collect the rows of its answer as columns of
    /// a table. Answered by `Description`.
    Describe(Statement),
    /// Send the statement. Answered by `Executed`.
    Execute(Statement),
    /// Hand on what came of opening the transaction. Answered by
    /// `Delivered`.
    Opened(QueryResult),
    /// Append what came of inserting a row to the stream of results.
    /// Answered by `Delivered`, once the stream has room.
    Inserted(QueryResult),
    /// Tell that the stream of results has ended. The command is done.
    Finished,
    /// Hand the reply to the one who sent the command. The command is done.
    Reply(Reply),
    /// The event is not one that is waited for. Nothing has changed; a
    /// command has to be offered again.
    Ignored,
}

/// `Action` as the contracts see it.
pub enum ActionView {
    Connect(ConnectionRequestView),
    ReadFile(Seq<char>),
    ListTables(StatementView),
    Describe(StatementView),
    Execute(StatementView),
    Opened(QueryResultView),
    Inserted(QueryResultView),
    Finished,
    Reply(ReplyView),
    Ignored,
}

impl View for Action {
    type V = ActionView;

    open spec fn view(&self) -> ActionView {
        match self {
            Action::Connect(request) => ActionView::Connect(request@),
            Action::ReadFile(path) => ActionView::ReadFile(path@),
            Action::ListTables(statement) => ActionView::ListTables(statement@),
            Action::Describe(statement) => ActionView::Describe(statement@),
            Action::Execute(statement) => ActionView::Execute(statement@),
            Action::Opened(result) => ActionView::Opened(result@),
            Action::Inserted(result) => ActionView::Inserted(result@),
            Action::Finished => ActionView::Finished,
            Action::Reply(reply) => ActionView::Reply(reply@),
            Action::Ignored => ActionView::Ignored,
        }
    }
}

/// What the processor is in the middle of.
#[derive(Debug)]
pub enum Stage {
    /// Nothing: the next command can be taken up.
    Idle,
    /// A session is being opened.
    Connecting,
    /// The tables are being listed.
    ListingTables,
    /// The file at this path is being read.
    ReadingFile(String),
    /// The table at this index is being described.
    Describing(usize),
    /// For an insertion into the table at this index, the session is being
    /// told not to commit each statement by itself.
    DisablingAutocommit(usize),
    /// The transaction is being begun.
    Beginning(usize),
    /// What came of opening the transaction is being handed on.
    ReportingStart(usize),
    /// The statement for a row of the grid has been sent.
    Inserting { table: usize, row: usize, query: String },
    /// What came of inserting a row is being handed on.
    Reporting { table: usize, row: usize },
    /// The transaction is being made to last.
    Committing,
    /// The transaction is being undone.
    RollingBack,
}

/// `Stage` as the contracts see it.
pub enum StageView {
    Idle,
    Connecting,
    ListingTables,
    ReadingFile(Seq<char>),
    Describing(usize),
    DisablingAutocommit(usize),
    Beginning(usize),
    ReportingStart(usize),
    Inserting { table: usize, row: usize, query: Seq<char> },
    Reporting { table: usize, row: usize },
    Committing,
    RollingBack,
}

impl View for Stage {
    type V = StageView;

    open spec fn view(&self) -> StageView {
        match self {
            Stage::Idle => StageView::Idle,
            Stage::Connecting => StageView::Connecting,
            Stage::ListingTables => StageView::ListingTables,
            Stage::ReadingFile(path) => StageView::ReadingFile(path@),
            Stage::Describing(table) => StageView::Describing(*table),
            Stage::DisablingAutocommit(table) => StageView::DisablingAutocommit(*table),
            Stage::Beginning(table) => StageView::Beginning(*table),
            Stage::ReportingStart(table) => StageView::ReportingStart(*table),
            Stage::Inserting { table, row, query } => StageView::Inserting {
                table: *table,
                row: *row,
                query: query@,
            },
            Stage::Reporting { table, row } => StageView::Reporting { table: *table, row: *row },
            Stage::Committing => StageView::Committing,
            Stage::RollingBack => StageView::RollingBack,
        }
    }
}

impl Clone for Stage {
    fn clone(&self) -> (res: Self)
        ensures
            res == *self,
    {
        match self {
            Stage::Idle => Stage::Idle,
            Stage::Connecting => Stage::Connecting,
            Stage::ListingTables => Stage::ListingTables,
            Stage::ReadingFile(path) => Stage::ReadingFile(path.clone()),
            Stage::Describing(table) => Stage::Describing(*table),
            Stage::DisablingAutocommit(table) => Stage::DisablingAutocommit(*table),
            Stage::Beginning(table) => Stage::Beginning(*table),
            Stage::ReportingStart(table) => Stage::ReportingStart(*table),
            Stage::Inserting { table, row, query } => Stage::Inserting {
                table: *table,
                row: *row,
                query: query.clone(),
            },
            Stage::Reporting { table, row } => Stage::Reporting { table: *table, row: *row },
            Stage::Committing => Stage::Committing,
            Stage::RollingBack => Stage::RollingBack,
        }
    }
}

} // verus!
