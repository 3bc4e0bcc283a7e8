use reportee_tree::page::{Cursor, UsersResponse};
use reportee_tree::user::User;

fn named(id: &str) -> User {
    User {
        id: id.to_string(),
        display_name: format!("User {}", id),
        job_title: None,
        department: None,
        mail: None,
        office_location: None,
    }
}

fn page(ids: &[&str], next_link: Option<&str>) -> UsersResponse {
    UsersResponse {
        value: ids.iter().map(|id| named(id)).collect(),
        next_link: next_link.map(|s| s.to_string()),
    }
}

/// Drives a cursor over the answers in order and records each query sent.
fn drain(query: &str, answers: Vec<UsersResponse>) -> (Vec<String>, Vec<String>) {
    let mut cursor = Cursor::new(query.to_string());
    let mut queries = Vec::new();
    let mut ids = Vec::new();
    for answer in answers {
        let sent = match cursor.pending() {
            Some(q) => q.to_string(),
            None => break,
        };
        queries.push(sent);
        for user in cursor.accept(answer) {
            ids.push(user.id);
        }
    }
    (queries, ids)
}

#[test]
fn cursor_reads_every_page_in_order() {
    let (queries, ids) = drain(
        "q0",
        vec![
            page(&["a", "b"], Some("q1")),
            page(&["c"], Some("q2")),
            page(&["d", "e"], None),
        ],
    );
    assert_eq!(queries, vec!["q0", "q1", "q2"]);
    assert_eq!(ids, vec!["a", "b", "c", "d", "e"]);
}

#[test]
fn cursor_over_a_single_page() {
    let (queries, ids) = drain("q0", vec![page(&["a"], None)]);
    assert_eq!(queries, vec!["q0"]);
    assert_eq!(ids, vec!["a"]);
}

#[test]
fn an_empty_page_without_link_ends_at_once() {
    let (queries, ids) = drain("q0", vec![page(&[], None), page(&["x"], None)]);
    assert_eq!(queries, vec!["q0"]);
    assert!(ids.is_empty());
}

#[test]
fn an_empty_page_with_a_link_ends_the_cursor_too() {
    let (queries, ids) = drain("q0", vec![page(&[], Some("q1")), page(&["x"], None)]);
    assert_eq!(queries, vec!["q0"]);
    assert!(ids.is_empty());
}

#[test]
fn a_new_cursor_holds_its_query() {
    let cursor = Cursor::new("q0".to_string());
    assert_eq!(cursor.pending(), Some("q0"));
    assert!(!cursor.is_exhausted());
}

#[test]
fn accept_moves_to_the_link() {
    let mut cursor = Cursor::new("q0".to_string());
    let users = cursor.accept(page(&["a", "b"], Some("q1")));
    assert_eq!(users, vec![named("a"), named("b")]);
    assert_eq!(cursor.pending(), Some("q1"));
    assert!(!cursor.is_exhausted());
}

#[test]
fn accept_of_a_last_page_ends_the_cursor() {
    let mut cursor = Cursor::new("q0".to_string());
    let users = cursor.accept(page(&["a"], None));
    assert_eq!(users.len(), 1);
    assert_eq!(cursor.pending(), None);
    assert!(cursor.is_exhausted());
}

#[test]
fn a_cursor_at_its_end_hands_on_nothing() {
    let mut cursor = Cursor::new("q0".to_string());
    cursor.accept(page(&[], None));
    assert!(cursor.is_exhausted());
    let users = cursor.accept(page(&["late"], Some("q9")));
    assert!(users.is_empty());
    assert!(cursor.is_exhausted());
    assert_eq!(cursor.pending(), None);
}
