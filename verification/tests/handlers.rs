use todo_list::command::{Command, Outcome};
use todo_list::entry::TodoEntry;
use todo_list::error::MyError;
use todo_list::handlers::{add_todo, delete_todo, finish, index, serve, Step};
use todo_list::response::Response;
use todo_list::table::TodoTable;

const EMPTY_PAGE: &str = "<!DOCTYPE html>\n<html>\n<head>\n<meta charset=\"utf-8\">\n<title>To-do</title>\n</head>\n<body>\n<h1>To-do</h1>\n<ul>\n</ul>\n<form action=\"/add\" method=\"post\">\n<input type=\"text\" name=\"text\">\n<button>add</button>\n</form>\n</body>\n</html>\n";

fn form(pairs: &[(&str, &str)]) -> Vec<(String, String)> {
    pairs.iter().map(|(name, value)| (name.to_string(), value.to_string())).collect()
}

fn shown(table: &TodoTable) -> Vec<(u32, String)> {
    table.list().into_iter().map(|entry| (entry.id, entry.text)).collect()
}

fn assert_redirect(reply: &Response) {
    assert_eq!(reply.status, 303);
    assert_eq!(reply.location.as_deref(), Some("/"));
    assert_eq!(reply.content_type, None);
    assert_eq!(reply.body, "");
}

fn assert_failure(reply: &Response, status: u16) {
    assert_eq!(reply.status, status);
    assert_eq!(reply.location, None);
    assert_eq!(reply.content_type, None);
    assert_eq!(reply.body, "");
}

fn item(id: u32, text: &str) -> String {
    format!(
        "<li>\n<span>{}: {}</span>\n<form action=\"/delete\" method=\"post\">\n<input type=\"hidden\" name=\"id\" value=\"{}\">\n<button>delete</button>\n</form>\n</li>\n",
        id, text, id
    )
}

#[test]
fn scenario_add_add_delete() {
    let mut table = TodoTable::new();
    assert_eq!(shown(&table), vec![]);

    let reply = serve(&mut table, add_todo(&form(&[("text", "Buy milk")])));
    assert_redirect(&reply);
    let page = serve(&mut table, index());
    assert_eq!(page.status, 200);
    assert!(page.body.contains(&item(1, "Buy milk")));
    assert_eq!(shown(&table), vec![(1, "Buy milk".to_string())]);

    let reply = serve(&mut table, add_todo(&form(&[("text", "Walk dog")])));
    assert_redirect(&reply);
    let page = serve(&mut table, index());
    assert!(page.body.contains(&item(1, "Buy milk")));
    assert!(page.body.contains(&item(2, "Walk dog")));
    assert_eq!(shown(&table), vec![(1, "Buy milk".to_string()), (2, "Walk dog".to_string())]);

    let reply = serve(&mut table, delete_todo(&form(&[("id", "1")])));
    assert_redirect(&reply);
    let page = serve(&mut table, index());
    assert!(!page.body.contains(&item(1, "Buy milk")));
    assert!(page.body.contains(&item(2, "Walk dog")));
    assert_eq!(shown(&table), vec![(2, "Walk dog".to_string())]);
}

#[test]
fn index_of_an_empty_table_is_the_bare_page() {
    let mut table = TodoTable::new();
    let page = serve(&mut table, index());
    assert_eq!(page.status, 200);
    assert_eq!(page.content_type.as_deref(), Some("text/html"));
    assert_eq!(page.location, None);
    assert_eq!(page.body, EMPTY_PAGE);
}

#[test]
fn index_asks_for_the_list() {
    assert!(matches!(index(), Step::Run(Command::List)));
}

#[test]
fn added_text_is_shown_under_a_fresh_id() {
    let mut table = TodoTable::new();
    for text in ["first", "second", "third"] {
        let before = shown(&table);
        let reply = serve(&mut table, add_todo(&form(&[("text", text)])));
        assert_redirect(&reply);
        let after = shown(&table);
        assert_eq!(after.len(), before.len() + 1);
        assert_eq!(after[..before.len()], before[..]);
        let (id, added) = after.last().unwrap().clone();
        assert_eq!(added, text);
        assert!(before.iter().all(|(seen, _)| *seen < id));
        let page = serve(&mut table, index());
        assert!(page.body.contains(&item(id, text)));
    }
}

#[test]
fn add_asks_for_an_insert_of_the_text() {
    match add_todo(&form(&[("other", "x"), ("text", "Buy milk")])) {
        Step::Run(Command::Insert(text)) => assert_eq!(text, "Buy milk"),
        other => panic!("unexpected step: {:?}", other),
    }
}

#[test]
fn add_accepts_empty_and_blank_text() {
    let mut table = TodoTable::new();
    assert_redirect(&serve(&mut table, add_todo(&form(&[("text", "")]))));
    assert_redirect(&serve(&mut table, add_todo(&form(&[("text", "   ")]))));
    assert_eq!(shown(&table), vec![(1, String::new()), (2, "   ".to_string())]);
}

#[test]
fn add_without_text_is_a_bad_request() {
    let mut table = TodoTable::new();
    serve(&mut table, add_todo(&form(&[("text", "kept")])));
    let before = shown(&table);
    for fields in [form(&[]), form(&[("id", "1")]), form(&[("Text", "x")]), form(&[("text ", "x")])] {
        let step = add_todo(&fields);
        assert!(matches!(step, Step::Reply(_)));
        let reply = serve(&mut table, step);
        assert_failure(&reply, 400);
        assert_eq!(shown(&table), before);
        assert_eq!(table.last_id(), 1);
    }
}

#[test]
fn add_with_text_twice_is_a_bad_request() {
    let mut table = TodoTable::new();
    let reply = serve(&mut table, add_todo(&form(&[("text", "a"), ("text", "b")])));
    assert_failure(&reply, 400);
    assert_eq!(shown(&table), vec![]);
}

#[test]
fn deleted_id_is_no_longer_shown() {
    let mut table = TodoTable::new();
    for text in ["a", "b", "c"] {
        serve(&mut table, add_todo(&form(&[("text", text)])));
    }
    let reply = serve(&mut table, delete_todo(&form(&[("id", "2")])));
    assert_redirect(&reply);
    assert_eq!(shown(&table), vec![(1, "a".to_string()), (3, "c".to_string())]);
    let page = serve(&mut table, index());
    assert!(!page.body.contains("name=\"id\" value=\"2\""));
    assert!(page.body.contains(&item(1, "a")));
    assert!(page.body.contains(&item(3, "c")));
}

#[test]
fn delete_asks_for_a_delete_of_the_id() {
    assert!(matches!(delete_todo(&form(&[("id", "42")])), Step::Run(Command::Delete(42))));
    assert!(matches!(delete_todo(&form(&[("id", "+7")])), Step::Run(Command::Delete(7))));
    assert!(matches!(
        delete_todo(&form(&[("id", "4294967295")])),
        Step::Run(Command::Delete(4294967295))
    ));
}

#[test]
fn deleting_an_absent_id_redirects_and_changes_nothing() {
    let mut table = TodoTable::new();
    serve(&mut table, add_todo(&form(&[("text", "a")])));
    serve(&mut table, add_todo(&form(&[("text", "b")])));
    let before = shown(&table);
    for id in ["0", "3", "99", "4294967295"] {
        let reply = serve(&mut table, delete_todo(&form(&[("id", id)])));
        assert_redirect(&reply);
        assert_eq!(shown(&table), before);
        assert_eq!(table.last_id(), 2);
    }
}

#[test]
fn deleting_twice_is_the_same_as_once() {
    let mut table = TodoTable::new();
    serve(&mut table, add_todo(&form(&[("text", "a")])));
    serve(&mut table, add_todo(&form(&[("text", "b")])));
    assert_redirect(&serve(&mut table, delete_todo(&form(&[("id", "1")]))));
    let once = shown(&table);
    assert_redirect(&serve(&mut table, delete_todo(&form(&[("id", "1")]))));
    assert_eq!(shown(&table), once);
}

#[test]
fn delete_with_a_non_integer_id_is_a_bad_request() {
    let mut table = TodoTable::new();
    serve(&mut table, add_todo(&form(&[("text", "a")])));
    let before = shown(&table);
    for id in ["abc", "", "1.0", "-1", " 1", "1 ", "0x1", "4294967296", "+", "1a"] {
        let step = delete_todo(&form(&[("id", id)]));
        assert!(matches!(step, Step::Reply(_)), "id {:?}", id);
        let reply = serve(&mut table, step);
        assert_failure(&reply, 400);
        assert_eq!(shown(&table), before);
    }
}

#[test]
fn delete_without_id_or_with_id_twice_is_a_bad_request() {
    let mut table = TodoTable::new();
    serve(&mut table, add_todo(&form(&[("text", "a")])));
    for fields in [form(&[]), form(&[("text", "1")]), form(&[("id", "1"), ("id", "1")])] {
        let reply = serve(&mut table, delete_todo(&fields));
        assert_failure(&reply, 400);
        assert_eq!(shown(&table), vec![(1, "a".to_string())]);
    }
}

#[test]
fn index_twice_shows_the_same() {
    let mut table = TodoTable::new();
    serve(&mut table, add_todo(&form(&[("text", "a")])));
    serve(&mut table, add_todo(&form(&[("text", "<b>")])));
    let first = serve(&mut table, index());
    let entries = shown(&table);
    let second = serve(&mut table, index());
    assert_eq!(first.status, 200);
    assert_eq!(first.status, second.status);
    assert_eq!(first.content_type, second.content_type);
    assert_eq!(first.body, second.body);
    assert_eq!(shown(&table), entries);
}

#[test]
fn identifiers_are_not_given_out_again() {
    let mut table = TodoTable::new();
    serve(&mut table, add_todo(&form(&[("text", "a")])));
    serve(&mut table, delete_todo(&form(&[("id", "1")])));
    assert_eq!(shown(&table), vec![]);
    serve(&mut table, add_todo(&form(&[("text", "b")])));
    assert_eq!(shown(&table), vec![(2, "b".to_string())]);
}

#[test]
fn the_delete_form_of_the_page_deletes_its_entry() {
    let mut table = TodoTable::restore(vec![TodoEntry::new(4294967295, "last".to_string())], 4294967295).unwrap();
    let page = serve(&mut table, index());
    assert!(page.body.contains("name=\"id\" value=\"4294967295\""));
    assert_redirect(&serve(&mut table, delete_todo(&form(&[("id", "4294967295")]))));
    assert_eq!(shown(&table), vec![]);
}

#[test]
fn add_to_a_full_table_fails_with_500() {
    let mut table = TodoTable::restore(vec![TodoEntry::new(7, "kept".to_string())], u32::MAX).unwrap();
    let reply = serve(&mut table, add_todo(&form(&[("text", "one too many")])));
    assert_failure(&reply, 500);
    assert_eq!(shown(&table), vec![(7, "kept".to_string())]);
    assert_eq!(table.last_id(), u32::MAX);
}

#[test]
fn a_reply_at_once_leaves_the_table_alone() {
    let mut table = TodoTable::new();
    serve(&mut table, add_todo(&form(&[("text", "a")])));
    let reply = serve(&mut table, Step::Reply(Response::failure(MyError::ClientInput)));
    assert_failure(&reply, 400);
    assert_eq!(shown(&table), vec![(1, "a".to_string())]);
}

#[test]
fn finish_renders_the_entries_read() {
    let reply = finish(Outcome::Listed(vec![
        TodoEntry::new(3, "Buy milk".to_string()),
        TodoEntry::new(10, "a < b".to_string()),
    ]));
    assert_eq!(reply.status, 200);
    assert_eq!(reply.content_type.as_deref(), Some("text/html"));
    assert_eq!(reply.location, None);
    let expected = EMPTY_PAGE.replace(
        "<ul>\n",
        &format!("<ul>\n{}{}", item(3, "Buy milk"), item(10, "a &lt; b")),
    );
    assert_eq!(reply.body, expected);
}

#[test]
fn finish_redirects_after_a_change() {
    assert_redirect(&finish(Outcome::Written));
}

#[test]
fn finish_answers_each_failure_with_its_status() {
    assert_failure(&finish(Outcome::Failed(MyError::ClientInput)), 400);
    assert_failure(&finish(Outcome::Failed(MyError::PoolUnavailable)), 500);
    assert_failure(&finish(Outcome::Failed(MyError::StorageFailure)), 500);
    assert_failure(&finish(Outcome::Failed(MyError::RenderFailure)), 500);
}
