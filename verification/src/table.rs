//! The table of entries, as a mathematical model and as a table in memory.
//!
//! Identifiers are assigned in rising order, starting at 1, and never again
//! once given out, whether or not their entry is still there. Entries are
//! read in the order of their identifiers.

use vstd::prelude::*;
use crate::command::{Command, CommandView, Outcome, OutcomeView};
use crate::entry::{rows_of, Row, TodoEntry};
use crate::error::MyError;

verus! {

/// The rows with any identifier but the given one.
pub open spec fn other_than(id: nat) -> spec_fn(Row) -> bool {
    |row: Row| row.0 != id
}

/// The state of the table: its rows, and the last identifier it gave out.
pub struct TableView {
    pub rows: Seq<Row>,
    pub last_id: nat,
}

impl TableView {
    /// The table before anything was added.
    pub open spec fn empty() -> TableView {
        TableView { rows: Seq::empty(), last_id: 0 }
    }

    /// The state is one that a table can be in: identifiers rise along the
    /// rows, so none occurs twice, and each was given out.
    pub open spec fn wf(self) -> bool {
        &&& self.last_id <= u32::MAX
        &&& forall|i: int| 0 <= i < self.rows.len() ==> 1 <= (#[trigger] self.rows[i]).0 <= self.last_id
        &&& forall|i: int, j: int|
            0 <= i < j < self.rows.len() ==> (#[trigger] self.rows[i]).0 < (#[trigger] self.rows[j]).0
    }

    /// Some row has the identifier.
    pub open spec fn holds(self, id: nat) -> bool {
        exists|i: int| 0 <= i < self.rows.len() && (#[trigger] self.rows[i]).0 == id
    }

    /// No identifier is left to give out.
    pub open spec fn full(self) -> bool {
        self.last_id >= u32::MAX
    }

    /// The table after an entry with the given text was added: it is the
    /// last row, under the identifier after the last one given out.
    pub open spec fn inserted(self, text: Seq<char>) -> TableView {
        TableView { rows: self.rows.push((self.last_id + 1, text)), last_id: self.last_id + 1 }
    }

    /// The table after the entry with the given identifier was removed: the
    /// other rows, in their order.
    pub open spec fn deleted(self, id: nat) -> TableView {
        TableView { rows: self.rows.filter(other_than(id)), last_id: self.last_id }
    }

    /// The table after a command, and the answer to it. Reading changes
    /// nothing. Adding fails, and changes nothing, only where no identifier
    /// is left. Removing succeeds whether or not the entry was there.
    pub open spec fn ran(self, command: CommandView) -> (TableView, OutcomeView) {
        match command {
            CommandView::List => (self, OutcomeView::Listed(self.rows)),
            CommandView::Insert(text) => if self.full() {
                (self, OutcomeView::Failed(MyError::StorageFailure))
            } else {
                (self.inserted(text), OutcomeView::Written)
            },
            CommandView::Delete(id) => (self.deleted(id as nat), OutcomeView::Written),
        }
    }
}

/// Where every row passes a filter, the filter keeps them all.
pub proof fn lemma_filter_keeps_all(rows: Seq<Row>, id: nat)
    requires
        forall|i: int| 0 <= i < rows.len() ==> (#[trigger] rows[i]).0 != id,
    ensures
        rows.filter(other_than(id)) == rows,
    decreases rows.len(),
{
    reveal(Seq::filter);
    if rows.len() > 0 {
        lemma_filter_keeps_all(rows.drop_last(), id);
        assert(rows.drop_last().push(rows.last()) =~= rows);
    }
}

/// Where identifiers do not repeat, removing by identifier removes the one
/// row that has it.
pub proof fn lemma_filter_removes_one(rows: Seq<Row>, id: nat, at: int)
    requires
        0 <= at < rows.len(),
        rows[at].0 == id,
        forall|i: int| 0 <= i < rows.len() && i != at ==> (#[trigger] rows[i]).0 != id,
    ensures
        rows.filter(other_than(id)) == rows.remove(at),
    decreases rows.len(),
{
    reveal(Seq::filter);
    if at == rows.len() - 1 {
        lemma_filter_keeps_all(rows.drop_last(), id);
        assert(rows.remove(at) =~= rows.drop_last());
    } else {
        lemma_filter_removes_one(rows.drop_last(), id, at);
        assert(rows.drop_last().remove(at).push(rows.last()) =~= rows.remove(at));
    }
}

/// Adding keeps a table well formed, as long as an identifier is left.
pub proof fn lemma_inserted_wf(table: TableView, text: Seq<char>)
    requires
        table.wf(),
        !table.full(),
    ensures
        table.inserted(text).wf(),
{
}

/// Removing keeps a table well formed: the row with the identifier leaves,
/// if there is one, and every other row stays where it was among the rest.
pub proof fn lemma_deleted_wf(table: TableView, id: nat)
    requires
        table.wf(),
    ensures
        table.deleted(id).wf(),
        !table.deleted(id).holds(id),
        !table.holds(id) ==> table.deleted(id) == table,
        forall|i: int|
            0 <= i < table.rows.len() && (#[trigger] table.rows[i]).0 == id ==> table.deleted(
                id,
            ).rows == table.rows.remove(i),
{
    if table.holds(id) {
        let at = choose|i: int| 0 <= i < table.rows.len() && (#[trigger] table.rows[i]).0 == id;
        assert forall|i: int| 0 <= i < table.rows.len() && i != at implies (
        #[trigger] table.rows[i]).0 != id by {
            if i < at {
                assert(table.rows[i].0 < table.rows[at].0);
            } else {
                assert(table.rows[at].0 < table.rows[i].0);
            }
        }
        lemma_filter_removes_one(table.rows, id, at);
        let rest = table.rows.remove(at);
        assert forall|i: int| 0 <= i < rest.len() implies (#[trigger] rest[i]).0 != id && 1
            <= rest[i].0 <= table.last_id by {
            if i < at {
                assert(rest[i] == table.rows[i]);
            } else {
                assert(rest[i] == table.rows[i + 1]);
            }
        }
        assert forall|i: int, j: int| 0 <= i < j < rest.len() implies (#[trigger] rest[i]).0 < (
        #[trigger] rest[j]).0 by {
            let from = if i < at { i } else { i + 1 };
            let to = if j < at { j } else { j + 1 };
            assert(rest[i] == table.rows[from]);
            assert(rest[j] == table.rows[to]);
        }
        assert forall|i: int|
            0 <= i < table.rows.len() && (#[trigger] table.rows[i]).0 == id implies table.deleted(
            id,
        ).rows == table.rows.remove(i) by {
            assert(i == at);
        }
    } else {
        lemma_filter_keeps_all(table.rows, id);
    }
}

/// A table of entries in memory.
#[derive(Debug)]
pub struct TodoTable {
    entries: Vec<TodoEntry>,
    last_id: u32,
}

impl View for TodoTable {
    type V = TableView;

    closed spec fn view(&self) -> TableView {
        TableView { rows: rows_of(self.entries@), last_id: self.last_id as nat }
    }
}

impl TodoTable {
    /// The table is in a state that its operations keep.
    pub open spec fn wf(&self) -> bool {
        self@.wf()
    }

    /// A table without entries, which has given out no identifier yet.
    pub fn new() -> (table: TodoTable)
        ensures
            table.wf(),
            table@ == TableView::empty(),
    {
        let table = TodoTable { entries: Vec::new(), last_id: 0 };
        assert(table@.rows =~= Seq::empty());
        table
    }

    /// A table with the given entries that has given out the identifiers up
    /// to `last_id`, where that is a state a table can be in: the entries'
    /// identifiers rise, start at 1 or above and end at `last_id` or below.
    pub fn restore(entries: Vec<TodoEntry>, last_id: u32) -> (table: Option<TodoTable>)
        ensures
            match table {
                Some(restored) => restored.wf() && restored@ == (TableView {
                    rows: rows_of(entries@),
                    last_id: last_id as nat,
                }),
                None => !(TableView { rows: rows_of(entries@), last_id: last_id as nat }).wf(),
            },
    {
        let ghost rows = rows_of(entries@);
        let mut below: u32 = 0;
        let mut i: usize = 0;
        while i < entries.len()
            invariant
                i <= entries.len(),
                rows == rows_of(entries@),
                below <= last_id,
                i == 0 ==> below == 0,
                i > 0 ==> below == rows[i - 1].0,
                forall|j: int| 0 <= j < i ==> 1 <= (#[trigger] rows[j]).0 <= below,
                forall|j: int, k: int|
                    0 <= j < k < i ==> (#[trigger] rows[j]).0 < (#[trigger] rows[k]).0,
            decreases entries.len() - i,
        {
            let id: u32 = entries[i].id;
            assert(rows[i as int].0 == id);
            if id <= below || id > last_id {
                proof {
                    let state = TableView { rows, last_id: last_id as nat };
                    if state.wf() {
                        assert(1 <= state.rows[i as int].0 <= last_id);
                        if i > 0 {
                            assert(state.rows[i - 1].0 < state.rows[i as int].0);
                        }
                    }
                }
                return None;
            }
            below = id;
            i += 1;
        }
        Some(TodoTable { entries, last_id })
    }

    /// The last identifier given out; 0 before the first.
    pub fn last_id(&self) -> (id: u32)
        ensures
            id == self@.last_id,
    {
        self.last_id
    }

    /// Every entry, in the order of the identifiers.
    pub fn list(&self) -> (entries: Vec<TodoEntry>)
        ensures
            rows_of(entries@) == self@.rows,
    {
        let mut entries: Vec<TodoEntry> = Vec::new();
        let mut i: usize = 0;
        while i < self.entries.len()
            invariant
                i <= self.entries.len(),
                entries@.len() == i,
                forall|j: int| 0 <= j < i ==> entries@[j] == self.entries@[j],
            decreases self.entries.len() - i,
        {
            entries.push(self.entries[i].clone());
            i += 1;
        }
        assert(rows_of(entries@) =~= rows_of(self.entries@));
        entries
    }

    /// Adds an entry with the given text under the next identifier. Fails,
    /// and changes nothing, only where no identifier is left.
    pub fn insert(&mut self, text: String) -> (done: Result<(), MyError>)
        requires
            old(self).wf(),
        ensures
            final(self).wf(),
            match done {
                Ok(_) => !old(self)@.full() && final(self)@ == old(self)@.inserted(text@),
                Err(error) => error == MyError::StorageFailure && old(self)@.full() && final(self)@
                    == old(self)@,
            },
    {
        if self.last_id == u32::MAX {
            return Err(MyError::StorageFailure);
        }
        let id: u32 = self.last_id + 1;
        self.last_id = id;
        self.entries.push(TodoEntry::new(id, text));
        proof {
            assert(final(self)@.rows =~= old(self)@.inserted(text@).rows);
            lemma_inserted_wf(old(self)@, text@);
        }
        Ok(())
    }

    /// Removes the entry with the given identifier. Where there is none, the
    /// table stays as it is.
    pub fn delete(&mut self, id: u32)
        requires
            old(self).wf(),
        ensures
            final(self).wf(),
            final(self)@ == old(self)@.deleted(id as nat),
    {
        let mut i: usize = 0;
        while i < self.entries.len()
            invariant
                *self == *old(self),
                self.wf(),
                i <= self.entries.len(),
                forall|j: int| 0 <= j < i ==> (#[trigger] self@.rows[j]).0 != id as nat,
            decreases self.entries.len() - i,
        {
            if self.entries[i].id == id {
                assert(self@.rows[i as int].0 == id as nat);
                self.entries.remove(i);
                proof {
                    lemma_deleted_wf(old(self)@, id as nat);
                    assert(self@.rows =~= old(self)@.rows.remove(i as int));
                }
                return ;
            }
            assert(self@.rows[i as int].0 != id as nat);
            i += 1;
        }
        proof {
            lemma_deleted_wf(old(self)@, id as nat);
        }
    }

    /// Carries out a command and answers it.
    pub fn run(&mut self, command: Command) -> (outcome: Outcome)
        requires
            old(self).wf(),
        ensures
            final(self).wf(),
            (final(self)@, outcome@) == old(self)@.ran(command@),
    {
        match command {
            Command::List => Outcome::Listed(self.list()),
            Command::Insert(text) => match self.insert(text) {
                Ok(_) => Outcome::Written,
                Err(error) => Outcome::Failed(error),
            },
            Command::Delete(id) => {
                self.delete(id);
                Outcome::Written
            },
        }
    }
}

} // verus!
