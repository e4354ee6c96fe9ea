//! The three endpoints.
//!
//! A request is served in two decisions with the store's work between them.
//! The first reads the request and says what to do next: reply at once, or
//! run a command on the store. The second turns the store's answer into the
//! reply. A request that is refused never reaches the store.
//!
//! | request        | form      | success             | failure                        |
//! |----------------|-----------|---------------------|--------------------------------|
//! | `GET /`        |           | 200, the page       | 500                            |
//! | `POST /add`    | `text=..` | 303, `Location: /`  | 400 for the form, 500 otherwise |
//! | `POST /delete` | `id=..`   | 303, `Location: /`  | 400 for the form, 500 otherwise |

use vstd::prelude::*;
use crate::command::{Command, CommandView, Outcome, OutcomeView};
use crate::error::MyError;
use crate::form::{add_params, delete_params, fields_of, AddParams, DeleteParams, Fields};
use crate::page::{document, render};
use crate::response::{failure_reply, page_reply, redirect_reply, Response, ResponseView};
use crate::table::{TableView, TodoTable};

verus! {

/// What to do next with a request.
#[derive(Debug)]
pub enum Step {
    /// Send this reply; the store is not touched.
    Reply(Response),
    /// Run this command on the store, and reply according to its answer.
    Run(Command),
}

/// What a step is, mathematically.
pub enum StepView {
    Reply(ResponseView),
    Run(CommandView),
}

impl View for Step {
    type V = StepView;

    open spec fn view(&self) -> StepView {
        match *self {
            Step::Reply(reply) => StepView::Reply(reply@),
            Step::Run(command) => StepView::Run(command@),
        }
    }
}

/// The step for `GET /`: read every entry.
pub open spec fn index_step() -> StepView {
    StepView::Run(CommandView::List)
}

/// The step for `POST /add`: add the text of the form's one `text` field, or
/// refuse a form that has no such field or more than one.
pub open spec fn add_step(fields: Fields) -> StepView {
    match add_params(fields) {
        Some(text) => StepView::Run(CommandView::Insert(text)),
        None => StepView::Reply(failure_reply(MyError::ClientInput)),
    }
}

/// The step for `POST /delete`: remove the entry that the form's one `id`
/// field names, or refuse a form whose `id` is missing, repeated or no
/// number.
pub open spec fn delete_step(fields: Fields) -> StepView {
    match delete_params(fields) {
        Some(id) => StepView::Run(CommandView::Delete(id)),
        None => StepView::Reply(failure_reply(MyError::ClientInput)),
    }
}

/// The reply to the store's answer: the page for the entries read, the way
/// back to the page after a change, the failure's status otherwise.
pub open spec fn finished(outcome: OutcomeView) -> ResponseView {
    match outcome {
        OutcomeView::Listed(rows) => page_reply(document(rows)),
        OutcomeView::Written => redirect_reply(),
        OutcomeView::Failed(error) => failure_reply(error),
    }
}

/// A step taken on a table: the table afterwards, and the reply.
pub open spec fn served(table: TableView, step: StepView) -> (TableView, ResponseView) {
    match step {
        StepView::Reply(reply) => (table, reply),
        StepView::Run(command) => (table.ran(command).0, finished(table.ran(command).1)),
    }
}

/// `GET /`: asks for every entry. The reply to the store's answer carries
/// them as a page.
pub fn index() -> (step: Step)
    ensures
        step@ == index_step(),
{
    Step::Run(Command::List)
}

/// `POST /add`: reads the form and asks for an entry with its text to be
/// added. A form without exactly one `text` field is answered with 400.
pub fn add_todo(form: &Vec<(String, String)>) -> (step: Step)
    ensures
        step@ == add_step(fields_of(form@)),
{
    match AddParams::parse(form) {
        Ok(params) => Step::Run(Command::Insert(params.text)),
        Err(error) => Step::Reply(Response::failure(error)),
    }
}

/// `POST /delete`: reads the form and asks for the entry it names to be
/// removed. A form without exactly one `id` field, or whose `id` is no
/// number, is answered with 400.
pub fn delete_todo(form: &Vec<(String, String)>) -> (step: Step)
    ensures
        step@ == delete_step(fields_of(form@)),
{
    match DeleteParams::parse(form) {
        Ok(params) => Step::Run(Command::Delete(params.id)),
        Err(error) => Step::Reply(Response::failure(error)),
    }
}

/// Turns the store's answer into the reply: 200 with the rendered page for
/// the entries read, 303 to the page after a change, and for a failure its
/// status and nothing more.
pub fn finish(outcome: Outcome) -> (reply: Response)
    ensures
        reply@ == finished(outcome@),
{
    match outcome {
        Outcome::Listed(entries) => Response::page(render(&entries)),
        Outcome::Written => Response::see_other(),
        Outcome::Failed(error) => Response::failure(error),
    }
}

/// Takes a step on a table in memory: replies at once where the step says
/// so, else runs its command on the table and replies to the answer.
pub fn serve(table: &mut TodoTable, step: Step) -> (reply: Response)
    requires
        old(table).wf(),
    ensures
        final(table).wf(),
        (final(table)@, reply@) == served(old(table)@, step@),
{
    match step {
        Step::Reply(reply) => reply,
        Step::Run(command) => finish(table.run(command)),
    }
}

} // verus!
