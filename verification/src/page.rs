//! The view: a list of entries as one HTML document.
//!
//! The document is fixed markup around one list item per entry. An item shows
//! the entry's identifier and its text, and carries a form whose hidden field
//! posts the identifier back for deletion. Text is escaped on the way in, so
//! nothing a caller submitted can act as markup.

use vstd::prelude::*;
use crate::entry::{rows_of, Row, TodoEntry};

verus! {

/// The markup before the first list item.
pub const PAGE_HEAD: &'static str =
    "<!DOCTYPE html>\n<html>\n<head>\n<meta charset=\"utf-8\">\n<title>To-do</title>\n</head>\n<body>\n<h1>To-do</h1>\n<ul>\n";

/// The markup after the last list item, with the form that adds an entry.
pub const PAGE_TAIL: &'static str =
    "</ul>\n<form action=\"/add\" method=\"post\">\n<input type=\"text\" name=\"text\">\n<button>add</button>\n</form>\n</body>\n</html>\n";

/// Opens a list item; the identifier follows.
pub const ITEM_OPEN: &'static str = "<li>\n<span>";

/// Stands between the identifier and the text of an item.
pub const ITEM_LABEL: &'static str = ": ";

/// Closes the text of an item and opens its delete form up to the value of
/// the hidden field; the identifier follows once more.
pub const ITEM_FORM: &'static str =
    "</span>\n<form action=\"/delete\" method=\"post\">\n<input type=\"hidden\" name=\"id\" value=\"";

/// Closes the hidden field, the delete form and the list item.
pub const ITEM_CLOSE: &'static str = "\">\n<button>delete</button>\n</form>\n</li>\n";

/// What one character becomes in HTML text: the five characters that can
/// open or close markup, an attribute value or an entity become entities,
/// every other character stays.
pub open spec fn escaped_char(c: char) -> Seq<char> {
    if c == '<' {
        seq!['&', 'l', 't', ';']
    } else if c == '>' {
        seq!['&', 'g', 't', ';']
    } else if c == '&' {
        seq!['&', 'a', 'm', 'p', ';']
    } else if c == '"' {
        seq!['&', 'q', 'u', 'o', 't', ';']
    } else if c == '\'' {
        seq!['&', '#', 'x', '2', '7', ';']
    } else {
        seq![c]
    }
}

/// A text with each character escaped, in order.
pub open spec fn escaped(text: Seq<char>) -> Seq<char>
    decreases text.len(),
{
    if text.len() == 0 {
        Seq::empty()
    } else {
        escaped(text.drop_last()) + escaped_char(text.last())
    }
}

/// The character of a decimal digit.
pub open spec fn digit_char(d: nat) -> char
    recommends
        d < 10,
{
    if d == 0 {
        '0'
    } else if d == 1 {
        '1'
    } else if d == 2 {
        '2'
    } else if d == 3 {
        '3'
    } else if d == 4 {
        '4'
    } else if d == 5 {
        '5'
    } else if d == 6 {
        '6'
    } else if d == 7 {
        '7'
    } else if d == 8 {
        '8'
    } else {
        '9'
    }
}

/// A number in decimal, without sign or leading zeros.
pub open spec fn decimal(n: nat) -> Seq<char>
    decreases n,
{
    if n < 10 {
        seq![digit_char(n)]
    } else {
        decimal(n / 10).push(digit_char(n % 10))
    }
}

/// The list item of one entry.
pub open spec fn item(row: Row) -> Seq<char> {
    ITEM_OPEN@ + decimal(row.0) + ITEM_LABEL@ + escaped(row.1) + ITEM_FORM@ + decimal(row.0)
        + ITEM_CLOSE@
}

/// The list items of some entries, one after the other.
pub open spec fn items(rows: Seq<Row>) -> Seq<char>
    decreases rows.len(),
{
    if rows.len() == 0 {
        Seq::empty()
    } else {
        items(rows.drop_last()) + item(rows.last())
    }
}

/// The whole document for a list of entries.
pub open spec fn document(rows: Seq<Row>) -> Seq<char> {
    PAGE_HEAD@ + items(rows) + PAGE_TAIL@
}

/// Escapes a text for HTML with askama, as its templates do for every
/// expression they print: `askama::MarkupDisplay::new_unsafe` with the
/// `askama::Html` escaper, written out by `to_string`.
///
/// Trusted, not proved: the result is the text with `&lt;`, `&gt;`, `&amp;`,
/// `&quot;` and `&#x27;` in place of `<`, `>`, `&`, `"` and `'`, and every
/// other character as it was. The escaper fails only where the writer under
/// it does, and writing to a `String` does not fail, so there is always a
/// result.
#[verifier::external_body]
fn escape_html(text: &str) -> (out: String)
    ensures
        out@ == escaped(text@),
{
    askama::MarkupDisplay::new_unsafe(text, askama::Html).to_string()
}

/// One decimal digit as text.
fn digit_text(d: u32) -> (text: &'static str)
    requires
        d < 10,
    ensures
        text@ == seq![digit_char(d as nat)],
{
    let text = if d == 0 {
        "0"
    } else if d == 1 {
        "1"
    } else if d == 2 {
        "2"
    } else if d == 3 {
        "3"
    } else if d == 4 {
        "4"
    } else if d == 5 {
        "5"
    } else if d == 6 {
        "6"
    } else if d == 7 {
        "7"
    } else if d == 8 {
        "8"
    } else {
        "9"
    };
    proof {
        reveal_strlit("0");
        reveal_strlit("1");
        reveal_strlit("2");
        reveal_strlit("3");
        reveal_strlit("4");
        reveal_strlit("5");
        reveal_strlit("6");
        reveal_strlit("7");
        reveal_strlit("8");
        reveal_strlit("9");
        assert(text@ =~= seq![digit_char(d as nat)]);
    }
    text
}

/// Appends a number in decimal.
fn push_decimal(out: &mut String, n: u32)
    ensures
        final(out)@ == old(out)@ + decimal(n as nat),
    decreases n,
{
    if n >= 10 {
        push_decimal(out, n / 10);
    }
    out.append(digit_text(n % 10));
    assert(final(out)@ =~= old(out)@ + decimal(n as nat));
}

/// A number in decimal.
pub fn decimal_text(n: u32) -> (text: String)
    ensures
        text@ == decimal(n as nat),
{
    let mut text = String::new();
    push_decimal(&mut text, n);
    assert(text@ =~= decimal(n as nat));
    text
}

/// Appends the list item of one entry.
fn push_item(out: &mut String, entry: &TodoEntry)
    ensures
        final(out)@ == old(out)@ + item(entry@),
{
    let text = escape_html(entry.text.as_str());
    out.append(ITEM_OPEN);
    push_decimal(out, entry.id);
    out.append(ITEM_LABEL);
    out.append(text.as_str());
    out.append(ITEM_FORM);
    push_decimal(out, entry.id);
    out.append(ITEM_CLOSE);
    assert(final(out)@ =~= old(out)@ + item(entry@));
}

/// Renders the entries as an HTML document, in the order given. There is no
/// text it refuses: whatever an entry holds is escaped and shown.
pub fn render(entries: &Vec<TodoEntry>) -> (html: String)
    ensures
        html@ == document(rows_of(entries@)),
{
    let mut html = String::new();
    html.append(PAGE_HEAD);
    let mut i: usize = 0;
    while i < entries.len()
        invariant
            i <= entries.len(),
            html@ == PAGE_HEAD@ + items(rows_of(entries@).take(i as int)),
        decreases entries.len() - i,
    {
        push_item(&mut html, &entries[i]);
        proof {
            let rows = rows_of(entries@);
            assert(rows.take(i + 1).drop_last() =~= rows.take(i as int));
            assert(rows.take(i + 1).last() == entries[i as int]@);
        }
        i += 1;
    }
    html.append(PAGE_TAIL);
    proof {
        let rows = rows_of(entries@);
        assert(rows.take(i as int) =~= rows);
    }
    html
}

} // verus!
