//! What holds of the service as a whole, proved from the definitions of its
//! parts.

use vstd::prelude::*;
use crate::command::CommandView;
use crate::error::MyError;
use crate::form::{
    add_params, all_digits, decimal_u32, delete_params, digits_value, is_digit, is_sole,
    sole_value, unsigned_part, Fields, ID_FIELD, TEXT_FIELD,
};
use crate::handlers::{add_step, delete_step, index_step, served, StepView};
use crate::entry::Row;
use crate::page::{decimal, digit_char, document, escaped, escaped_char, item, items, PAGE_HEAD};
use crate::response::{failure_reply, page_reply, redirect_reply};
use crate::table::{lemma_deleted_wf, other_than, TableView};

verus! {

/// An added entry shows. After `POST /add` with a text, on a table that has
/// an identifier left, the client is sent back to the page, and `GET /` then
/// shows the entries that were there, followed by one with the submitted
/// text. Its identifier is new: larger than every identifier the table has
/// given out, so no entry has it, nor ever had.
pub proof fn law_added_entry_is_shown(table: TableView, fields: Fields, text: Seq<char>)
    requires
        table.wf(),
        !table.full(),
        add_params(fields) == Some(text),
    ensures
        ({
            let (after, reply) = served(table, add_step(fields));
            let id = table.last_id + 1;
            &&& reply == redirect_reply()
            &&& after.wf()
            &&& after.rows == table.rows.push((id, text))
            &&& after.rows.last() == (id, text)
            &&& served(after, index_step()) == (after, page_reply(document(after.rows)))
            &&& !table.holds(id)
            &&& forall|i: int| 0 <= i < table.rows.len() ==> (#[trigger] table.rows[i]).0 < id
            &&& id > table.last_id
        }),
{
}

/// A deleted entry is gone. After `POST /delete` with an identifier, the
/// client is sent back to the page, and `GET /` then shows no entry with
/// that identifier, and every other entry that was there.
pub proof fn law_deleted_entry_is_gone(table: TableView, fields: Fields, id: u32)
    requires
        table.wf(),
        delete_params(fields) == Some(id),
    ensures
        ({
            let (after, reply) = served(table, delete_step(fields));
            &&& reply == redirect_reply()
            &&& after.wf()
            &&& !after.holds(id as nat)
            &&& after.rows == table.rows.filter(other_than(id as nat))
            &&& after.last_id == table.last_id
            &&& served(after, index_step()) == (after, page_reply(document(after.rows)))
        }),
{
    lemma_deleted_wf(table, id as nat);
}

/// Deleting what is not there changes nothing: the client is still sent
/// back to the page, and the table is as it was.
pub proof fn law_delete_of_absent_is_no_op(table: TableView, fields: Fields, id: u32)
    requires
        table.wf(),
        delete_params(fields) == Some(id),
        !table.holds(id as nat),
    ensures
        served(table, delete_step(fields)) == (table, redirect_reply()),
        redirect_reply().status == 303,
{
    lemma_deleted_wf(table, id as nat);
}

/// Adding and then deleting the added entry gives back the entries that
/// were there. The identifier stays spent: the next entry gets another.
pub proof fn law_add_then_delete_restores(
    table: TableView,
    add: Fields,
    text: Seq<char>,
    delete: Fields,
    id: u32,
)
    requires
        table.wf(),
        !table.full(),
        add_params(add) == Some(text),
        id == table.last_id + 1,
        delete_params(delete) == Some(id),
    ensures
        ({
            let added = served(table, add_step(add)).0;
            let after = served(added, delete_step(delete)).0;
            &&& after.rows == table.rows
            &&& after.last_id == id
        }),
{
    let added = table.inserted(text);
    let at = table.rows.len() as int;
    assert(served(table, add_step(add)).0 == added);
    assert(served(added, delete_step(delete)).0 == added.deleted(id as nat));
    assert(added.rows[at] == (id as nat, text));
    assert(added.wf());
    assert(added.deleted(id as nat).rows == added.rows.remove(at)) by {
        lemma_deleted_wf(added, id as nat);
    }
    assert(added.rows.remove(at) =~= table.rows);
}

/// A form without a `text` field adds nothing: the reply is 400 and the
/// table is as it was.
pub proof fn law_add_without_text_is_refused(table: TableView, fields: Fields)
    requires
        forall|i: int| 0 <= i < fields.len() ==> (#[trigger] fields[i]).0 != TEXT_FIELD@,
    ensures
        served(table, add_step(fields)) == (table, failure_reply(MyError::ClientInput)),
        failure_reply(MyError::ClientInput).status == 400,
{
    assert forall|i: int| !is_sole(fields, TEXT_FIELD@, i) by {
        if is_sole(fields, TEXT_FIELD@, i) {
            assert(fields[i].0 != TEXT_FIELD@);
        }
    }
}

/// A form whose `id` is no number deletes nothing: where no `id` field of
/// the form holds a `u32` in decimal, the reply is 400 and the table is as
/// it was.
pub proof fn law_delete_without_number_is_refused(table: TableView, fields: Fields)
    requires
        forall|i: int|
            0 <= i < fields.len() && (#[trigger] fields[i]).0 == ID_FIELD@ ==> decimal_u32(
                fields[i].1,
            ) is None,
    ensures
        served(table, delete_step(fields)) == (table, failure_reply(MyError::ClientInput)),
        failure_reply(MyError::ClientInput).status == 400,
{
    if exists|i: int| is_sole(fields, ID_FIELD@, i) {
        let at = choose|i: int| is_sole(fields, ID_FIELD@, i);
        assert(fields[at].0 == ID_FIELD@);
        assert(sole_value(fields, ID_FIELD@) == Some(fields[at].1));
    }
}

/// Looking changes nothing, so looking twice shows the same: `GET /` leaves
/// the table as it was and replies with the page of its rows, the second
/// time as the first.
pub proof fn law_index_is_repeatable(table: TableView)
    ensures
        served(table, index_step()) == (table, page_reply(document(table.rows))),
        served(served(table, index_step()).0, index_step()) == served(table, index_step()),
{
}

/// Whatever the step, a well-formed table stays well formed: no identifier
/// ever names two entries. Nor is one given out twice: the last identifier
/// never falls, and a row that was not there before has an identifier
/// beyond the last that had been given out.
pub proof fn law_identifiers_are_unique_and_new(table: TableView, step: StepView)
    requires
        table.wf(),
    ensures
        ({
            let after = served(table, step).0;
            &&& after.wf()
            &&& after.last_id >= table.last_id
            &&& forall|i: int|
                0 <= i < after.rows.len() && !table.rows.contains(#[trigger] after.rows[i])
                    ==> after.rows[i].0 > table.last_id
        }),
{
    let after = served(table, step).0;
    match step {
        StepView::Reply(_) => {
            assert forall|i: int| 0 <= i < after.rows.len() implies table.rows.contains(
                #[trigger] after.rows[i],
            ) by {
                assert(table.rows[i] == after.rows[i]);
            }
        },
        StepView::Run(command) => {
            match command {
                CommandView::List => {
                    assert forall|i: int| 0 <= i < after.rows.len() implies table.rows.contains(
                        #[trigger] after.rows[i],
                    ) by {
                        assert(table.rows[i] == after.rows[i]);
                    }
                },
                CommandView::Insert(text) => {
                    assert forall|i: int|
                        0 <= i < after.rows.len() && !table.rows.contains(
                            #[trigger] after.rows[i],
                        ) implies after.rows[i].0 > table.last_id by {
                        if i < table.rows.len() {
                            assert(table.rows[i] == after.rows[i]);
                        }
                    }
                },
                CommandView::Delete(id) => {
                    lemma_deleted_wf(table, id as nat);
                    assert forall|i: int| 0 <= i < after.rows.len() implies table.rows.contains(
                        #[trigger] after.rows[i],
                    ) by {
                        if table.holds(id as nat) {
                            let at = choose|k: int|
                                0 <= k < table.rows.len() && (#[trigger] table.rows[k]).0
                                    == id as nat;
                            assert(after.rows == table.rows.remove(at));
                            if i < at {
                                assert(table.rows[i] == after.rows[i]);
                            } else {
                                assert(table.rows[i + 1] == after.rows[i]);
                            }
                        } else {
                            assert(table.rows[i] == after.rows[i]);
                        }
                    }
                },
            }
        },
    }
}

/// The items of two lists, one after the other, are the items of the lists
/// joined.
pub proof fn lemma_items_of_joined(front: Seq<Row>, back: Seq<Row>)
    ensures
        items(front + back) == items(front) + items(back),
    decreases back.len(),
{
    if back.len() == 0 {
        assert(front + back =~= front);
        assert(items(front) + items(back) =~= items(front));
    } else {
        lemma_items_of_joined(front, back.drop_last());
        assert((front + back).drop_last() =~= front + back.drop_last());
        assert((front + back).last() == back.last());
        assert(items(front + back) =~= items(front) + items(back));
    }
}

/// The page shows every entry it was given: the item of each row stands in
/// the document, whole, after the items of the rows before it.
pub proof fn law_page_shows_each_entry(rows: Seq<Row>, i: int)
    requires
        0 <= i < rows.len(),
    ensures
        ({
            let at = (PAGE_HEAD@.len() + items(rows.take(i)).len()) as int;
            &&& at + item(rows[i]).len() <= document(rows).len()
            &&& document(rows).subrange(at, at + item(rows[i]).len()) == item(rows[i])
        }),
{
    let before = rows.take(i);
    let after = rows.skip(i + 1);
    assert(rows =~= before.push(rows[i]) + after);
    lemma_items_of_joined(before.push(rows[i]), after);
    assert(before.push(rows[i]).drop_last() =~= before);
    assert(items(before.push(rows[i])) == items(before) + item(rows[i]));
    let at = (PAGE_HEAD@.len() + items(before).len()) as int;
    assert(document(rows).subrange(at, at + item(rows[i]).len()) =~= item(rows[i]));
}

/// A number in decimal is digits only, and denotes the number.
pub proof fn lemma_decimal_is_digits(n: nat)
    ensures
        decimal(n).len() > 0,
        all_digits(decimal(n)),
        digits_value(decimal(n)) == n,
    decreases n,
{
    if n < 10 {
        assert(decimal(n).drop_last() =~= Seq::<char>::empty());
        assert(digits_value(decimal(n).drop_last()) == 0);
        assert(decimal(n).last() == digit_char(n));
    } else {
        lemma_decimal_is_digits(n / 10);
        assert(decimal(n).drop_last() =~= decimal(n / 10));
        assert(decimal(n).last() == digit_char(n % 10));
    }
}

/// The page's delete forms work: the identifier as the page writes it into
/// the hidden field reads back as that identifier, so the form that the
/// page shows beside an entry deletes that entry and no other.
pub proof fn law_shown_identifier_reads_back(id: u32)
    ensures
        decimal_u32(decimal(id as nat)) == Some(id),
        delete_params(seq![(ID_FIELD@, decimal(id as nat))]) == Some(id),
        delete_step(seq![(ID_FIELD@, decimal(id as nat))]) == StepView::Run(
            CommandView::Delete(id),
        ),
{
    let text = decimal(id as nat);
    lemma_decimal_is_digits(id as nat);
    assert(is_digit(text[0]));
    assert(unsigned_part(text) == text);
    let fields: Fields = seq![(ID_FIELD@, text)];
    assert(is_sole(fields, ID_FIELD@, 0));
    let at = choose|i: int| is_sole(fields, ID_FIELD@, i);
    assert(at == 0);
}

/// Escaped text is inert: it holds none of the characters that open or
/// close a tag or an attribute value, whatever the text was.
pub proof fn law_escaped_text_is_inert(text: Seq<char>)
    ensures
        forall|i: int|
            0 <= i < escaped(text).len() ==> {
                let c = #[trigger] escaped(text)[i];
                c != '<' && c != '>' && c != '"' && c != '\''
            },
    decreases text.len(),
{
    if text.len() > 0 {
        law_escaped_text_is_inert(text.drop_last());
        let head = escaped(text.drop_last());
        let tail = escaped_char(text.last());
        assert forall|i: int| 0 <= i < escaped(text).len() implies {
            let c = #[trigger] escaped(text)[i];
            c != '<' && c != '>' && c != '"' && c != '\''
        } by {
            if i < head.len() {
                assert(escaped(text)[i] == head[i]);
            } else {
                assert(escaped(text)[i] == tail[i - head.len()]);
            }
        }
    }
}

/// Text that holds nothing to escape is shown as it is.
pub proof fn law_plain_text_is_kept(text: Seq<char>)
    requires
        forall|i: int|
            0 <= i < text.len() ==> {
                let c = #[trigger] text[i];
                c != '<' && c != '>' && c != '&' && c != '"' && c != '\''
            },
    ensures
        escaped(text) == text,
    decreases text.len(),
{
    if text.len() > 0 {
        law_plain_text_is_kept(text.drop_last());
        assert(escaped(text) =~= text) by {
            assert(escaped_char(text.last()) == seq![text.last()]);
            assert(text.drop_last().push(text.last()) =~= text);
        }
    } else {
        assert(escaped(text) =~= text);
    }
}

} // verus!
