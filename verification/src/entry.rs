//! The one entity of the service: a to-do entry.

use vstd::prelude::*;

verus! {

/// What an entry is, mathematically: its identifier and its text.
pub type Row = (nat, Seq<char>);

/// One to-do record. The store assigns `id`; `text` is whatever the caller
/// submitted, kept as it came.
#[derive(Debug)]
pub struct TodoEntry {
    pub id: u32,
    pub text: String,
}

impl View for TodoEntry {
    type V = Row;

    open spec fn view(&self) -> Row {
        (self.id as nat, self.text@)
    }
}

/// The rows that a sequence of entries stands for, in the same order.
pub open spec fn rows_of(entries: Seq<TodoEntry>) -> Seq<Row> {
    Seq::new(entries.len(), |i: int| entries[i]@)
}

impl TodoEntry {
    /// A new entry with the given identifier and text.
    pub fn new(id: u32, text: String) -> (entry: TodoEntry)
        ensures
            entry@ == (id as nat, text@),
            entry.id == id,
            entry.text == text,
    {
        TodoEntry { id, text }
    }
}

impl Clone for TodoEntry {
    fn clone(&self) -> (copy: TodoEntry)
        ensures
            copy == *self,
    {
        TodoEntry { id: self.id, text: self.text.clone() }
    }
}

} // verus!
