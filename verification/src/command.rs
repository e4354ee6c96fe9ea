//! What the service asks of its store, and what the store answers.
//!
//! The store is one table, `todo`, of an identifier that the store assigns
//! and a text. Three statements are all the service ever runs on it, after
//! the one that creates the table.

use vstd::prelude::*;
use crate::entry::{rows_of, Row, TodoEntry};
use crate::error::MyError;

verus! {

/// Creates the table unless it is there already.
pub const CREATE_TABLE: &'static str =
    "CREATE TABLE IF NOT EXISTS todo (id INTEGER PRIMARY KEY AUTOINCREMENT, text TEXT NOT NULL)";

/// Reads every entry.
pub const SELECT_ENTRIES: &'static str = "SELECT id, text FROM todo";

/// Adds an entry; its one parameter is the text.
pub const INSERT_ENTRY: &'static str = "INSERT INTO todo (text) VALUES (?)";

/// Removes an entry; its one parameter is the identifier.
pub const DELETE_ENTRY: &'static str = "DELETE FROM todo WHERE id=?";

/// One operation on the store.
#[derive(Debug)]
pub enum Command {
    /// Read every entry.
    List,
    /// Add an entry with this text; the store assigns its identifier.
    Insert(String),
    /// Remove the entry with this identifier, if there is one.
    Delete(u32),
}

/// What a command is, mathematically.
pub enum CommandView {
    List,
    Insert(Seq<char>),
    Delete(u32),
}

impl View for Command {
    type V = CommandView;

    open spec fn view(&self) -> CommandView {
        match *self {
            Command::List => CommandView::List,
            Command::Insert(text) => CommandView::Insert(text@),
            Command::Delete(id) => CommandView::Delete(id),
        }
    }
}

impl CommandView {
    /// The statement that carries out a command.
    pub open spec fn statement(self) -> Seq<char> {
        match self {
            CommandView::List => SELECT_ENTRIES@,
            CommandView::Insert(_) => INSERT_ENTRY@,
            CommandView::Delete(_) => DELETE_ENTRY@,
        }
    }
}

impl Command {
    /// The SQL statement that carries this command out. The text of an
    /// insert and the identifier of a delete are bound to its one parameter,
    /// never spliced into it.
    pub fn statement(&self) -> (sql: &'static str)
        ensures
            sql@ == self@.statement(),
    {
        match self {
            Command::List => SELECT_ENTRIES,
            Command::Insert(_) => INSERT_ENTRY,
            Command::Delete(_) => DELETE_ENTRY,
        }
    }
}

/// The store's answer to a command.
#[derive(Debug)]
pub enum Outcome {
    /// The entries read, in the store's order.
    Listed(Vec<TodoEntry>),
    /// The change was made.
    Written,
    /// The command was not carried out.
    Failed(MyError),
}

/// What an answer is, mathematically.
pub enum OutcomeView {
    Listed(Seq<Row>),
    Written,
    Failed(MyError),
}

impl View for Outcome {
    type V = OutcomeView;

    open spec fn view(&self) -> OutcomeView {
        match *self {
            Outcome::Listed(entries) => OutcomeView::Listed(rows_of(entries@)),
            Outcome::Written => OutcomeView::Written,
            Outcome::Failed(error) => OutcomeView::Failed(error),
        }
    }
}

} // verus!
