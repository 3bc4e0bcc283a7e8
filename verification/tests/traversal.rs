use std::collections::HashMap;

use reportee_tree::client::{reports_url, DirectoryError, HttpStatus, MAX_CONCURRENT_REQUESTS};
use reportee_tree::page::UsersResponse;
use reportee_tree::traversal::{Action, Traversal};
use reportee_tree::user::User;

fn named(id: &str) -> User {
    User {
        id: id.to_string(),
        display_name: format!("Name {}", id),
        job_title: None,
        department: None,
        mail: None,
        office_location: None,
    }
}

fn page(ids: &[&str], next_link: Option<&str>) -> Result<UsersResponse, DirectoryError> {
    Ok(UsersResponse {
        value: ids.iter().map(|id| named(id)).collect(),
        next_link: next_link.map(|s| s.to_string()),
    })
}

fn not_found() -> DirectoryError {
    DirectoryError::Remote { status: HttpStatus::new(404).unwrap(), body: "gone".to_string() }
}

fn row(id: &str, manager: Option<&str>) -> String {
    match manager {
        Some(m) => format!(
            "{}, Name {}, unknown, unknown, unknown, unknown, Employee, On-Site, {}, Name {}",
            id, id, m, m
        ),
        None => format!(
            "{}, Name {}, unknown, unknown, unknown, unknown, Employee, On-Site, none, none",
            id, id
        ),
    }
}

struct Run {
    rows: Vec<String>,
    queries: Vec<String>,
    last: Action,
    engine: Traversal,
}

/// Drives a walk against a directory given as a table from query to answer.
/// A query that the table lacks is answered with an empty last page.
fn run(root: &str, directory: &HashMap<String, Result<UsersResponse, DirectoryError>>) -> Run {
    let (mut engine, mut action) = Traversal::begin(&named(root));
    let mut rows = Vec::new();
    let mut queries = Vec::new();
    loop {
        match action {
            Action::Request { row, url } => {
                assert!(engine.is_awaiting());
                assert_eq!(engine.in_flight(), 1);
                if let Some(text) = row {
                    rows.push(text);
                }
                let answer = match directory.get(&url) {
                    Some(answer) => answer.clone(),
                    None => page(&[], None),
                };
                queries.push(url);
                action = engine.deliver(answer);
            }
            last => {
                assert!(!engine.is_awaiting());
                assert_eq!(engine.in_flight(), 0);
                return Run { rows, queries, last, engine };
            }
        }
    }
}

fn fixture() -> HashMap<String, Result<UsersResponse, DirectoryError>> {
    let mut directory = HashMap::new();
    directory.insert(reports_url("root"), page(&["A", "B"], None));
    directory.insert(reports_url("A"), page(&["C"], None));
    directory.insert(reports_url("B"), page(&[], None));
    directory.insert(reports_url("C"), page(&[], None));
    directory
}

#[test]
fn walk_is_depth_first() {
    let run = run("root", &fixture());
    assert_eq!(
        run.rows,
        vec![row("root", None), row("A", Some("root")), row("C", Some("A")), row("B", Some("root"))]
    );
    assert_eq!(run.last, Action::Finished);
    assert!(run.engine.failure().is_none());
}

#[test]
fn walk_asks_for_each_user_once() {
    let run = run("root", &fixture());
    assert_eq!(
        run.queries,
        vec![reports_url("root"), reports_url("A"), reports_url("C"), reports_url("B")]
    );
}

#[test]
fn begin_writes_the_root_and_asks_for_its_reports() {
    let (engine, action) = Traversal::begin(&named("root"));
    assert_eq!(
        action,
        Action::Request { row: Some(row("root", None)), url: reports_url("root") }
    );
    assert!(engine.is_awaiting());
    assert_eq!(engine.in_flight(), 1);
    assert!(engine.failure().is_none());
}

#[test]
fn a_root_without_reports_is_a_leaf() {
    let run = run("solo", &HashMap::new());
    assert_eq!(run.rows, vec![row("solo", None)]);
    assert_eq!(run.queries, vec![reports_url("solo")]);
    assert_eq!(run.last, Action::Finished);
}

#[test]
fn reports_over_several_pages_stay_in_page_order() {
    let mut directory = HashMap::new();
    directory.insert(reports_url("root"), page(&["A", "B"], Some("page-2")));
    directory.insert("page-2".to_string(), page(&["C"], Some("page-3")));
    directory.insert("page-3".to_string(), page(&["D"], None));
    directory.insert(reports_url("A"), page(&["A1"], None));
    directory.insert(reports_url("C"), page(&["C1"], Some("c-2")));
    directory.insert("c-2".to_string(), page(&["C2"], None));
    let run = run("root", &directory);
    assert_eq!(
        run.rows,
        vec![
            row("root", None),
            row("A", Some("root")),
            row("A1", Some("A")),
            row("B", Some("root")),
            row("C", Some("root")),
            row("C1", Some("C")),
            row("C2", Some("C")),
            row("D", Some("root")),
        ]
    );
    assert_eq!(
        run.queries,
        vec![
            reports_url("root"),
            reports_url("A"),
            reports_url("A1"),
            reports_url("B"),
            "page-2".to_string(),
            reports_url("C"),
            reports_url("C1"),
            "c-2".to_string(),
            reports_url("C2"),
            "page-3".to_string(),
            reports_url("D"),
        ]
    );
    assert_eq!(run.last, Action::Finished);
}

#[test]
fn the_next_page_is_asked_for_without_a_row() {
    let (mut engine, _) = Traversal::begin(&named("root"));
    let first = engine.deliver(page(&["A"], Some("page-2")));
    assert_eq!(
        first,
        Action::Request { row: Some(row("A", Some("root"))), url: reports_url("A") }
    );
    let second = engine.deliver(page(&[], None));
    assert_eq!(second, Action::Request { row: None, url: "page-2".to_string() });
    let third = engine.deliver(page(&[], None));
    assert_eq!(third, Action::Finished);
}

#[test]
fn an_empty_page_ends_a_manager_even_with_a_link() {
    let mut directory = HashMap::new();
    directory.insert(reports_url("root"), page(&["A"], Some("page-2")));
    directory.insert("page-2".to_string(), page(&[], Some("page-3")));
    directory.insert("page-3".to_string(), page(&["never"], None));
    let run = run("root", &directory);
    assert_eq!(run.rows, vec![row("root", None), row("A", Some("root"))]);
    assert_eq!(
        run.queries,
        vec![reports_url("root"), reports_url("A"), "page-2".to_string()]
    );
    assert_eq!(run.last, Action::Finished);
}

#[test]
fn a_deep_chain_is_walked_to_its_end() {
    let mut directory = HashMap::new();
    for level in 0..2000 {
        let next = format!("n{}", level + 1);
        directory.insert(reports_url(&format!("n{}", level)), page(&[next.as_str()], None));
    }
    let run = run("n0", &directory);
    assert_eq!(run.rows.len(), 2001);
    assert_eq!(run.rows[2000], row("n2000", Some("n1999")));
    assert_eq!(run.last, Action::Finished);
}

#[test]
fn a_failed_fetch_aborts_the_run() {
    let mut directory = fixture();
    directory.insert(reports_url("C"), Err(not_found()));
    let run = run("root", &directory);
    assert_eq!(
        run.rows,
        vec![row("root", None), row("A", Some("root")), row("C", Some("A"))]
    );
    assert_eq!(run.last, Action::Aborted);
    assert_eq!(run.engine.failure(), Some(&not_found()));
    assert_eq!(
        run.queries,
        vec![reports_url("root"), reports_url("A"), reports_url("C")]
    );
}

#[test]
fn a_failure_on_the_first_fetch_leaves_only_the_root_row() {
    let mut directory = HashMap::new();
    directory.insert(
        reports_url("root"),
        Err(DirectoryError::Transport("connection reset".to_string())),
    );
    let run = run("root", &directory);
    assert_eq!(run.rows, vec![row("root", None)]);
    assert_eq!(run.last, Action::Aborted);
    assert_eq!(
        run.engine.failure(),
        Some(&DirectoryError::Transport("connection reset".to_string()))
    );
}

#[test]
fn a_failure_on_a_later_page_aborts_too() {
    let mut directory = HashMap::new();
    directory.insert(reports_url("root"), page(&["A"], Some("page-2")));
    directory.insert(
        "page-2".to_string(),
        Err(DirectoryError::Deserialization("not a page".to_string())),
    );
    let run = run("root", &directory);
    assert_eq!(run.rows, vec![row("root", None), row("A", Some("root"))]);
    assert_eq!(run.last, Action::Aborted);
    assert_eq!(
        run.engine.failure(),
        Some(&DirectoryError::Deserialization("not a page".to_string()))
    );
}

#[test]
fn an_aborted_walk_stays_aborted() {
    let (mut engine, _) = Traversal::begin(&named("root"));
    assert_eq!(engine.deliver(page(&["A", "B"], None)), Action::Request {
        row: Some(row("A", Some("root"))),
        url: reports_url("A"),
    });
    assert_eq!(engine.deliver(Err(not_found())), Action::Aborted);
    assert_eq!(engine.deliver(page(&["X"], None)), Action::Aborted);
    assert_eq!(
        engine.deliver(Err(DirectoryError::Transport("late".to_string()))),
        Action::Aborted
    );
    assert_eq!(engine.failure(), Some(&not_found()));
    assert!(!engine.is_awaiting());
    assert_eq!(engine.in_flight(), 0);
}

#[test]
fn a_finished_walk_stays_finished() {
    let (mut engine, _) = Traversal::begin(&named("root"));
    assert_eq!(engine.deliver(page(&[], None)), Action::Finished);
    assert_eq!(engine.deliver(page(&["X"], None)), Action::Finished);
    assert_eq!(engine.deliver(Err(not_found())), Action::Finished);
    assert!(engine.failure().is_none());
    assert_eq!(engine.in_flight(), 0);
}

#[test]
fn a_user_under_two_managers_is_walked_twice() {
    let mut directory = HashMap::new();
    directory.insert(reports_url("root"), page(&["A", "B"], None));
    directory.insert(reports_url("A"), page(&["S"], None));
    directory.insert(reports_url("B"), page(&["S"], None));
    let run = run("root", &directory);
    assert_eq!(
        run.rows,
        vec![
            row("root", None),
            row("A", Some("root")),
            row("S", Some("A")),
            row("B", Some("root")),
            row("S", Some("B")),
        ]
    );
}

#[test]
fn one_call_is_outstanding_at_most() {
    let run = run("root", &fixture());
    assert!(run.engine.in_flight() <= MAX_CONCURRENT_REQUESTS);
    assert_eq!(run.engine.in_flight(), 0);
}

#[test]
fn wide_fan_out_keeps_sibling_order() {
    let ids: Vec<String> = (0..40).map(|i| format!("r{}", i)).collect();
    let refs: Vec<&str> = ids.iter().map(|s| s.as_str()).collect();
    let mut directory = HashMap::new();
    directory.insert(reports_url("root"), page(&refs, None));
    let run = run("root", &directory);
    assert_eq!(run.rows.len(), 41);
    for (i, id) in ids.iter().enumerate() {
        assert_eq!(run.rows[i + 1], row(id, Some("root")));
    }
    assert_eq!(run.queries.len(), 41);
}

#[test]
fn a_cycle_is_walked_without_end() {
    let mut directory = HashMap::new();
    directory.insert(reports_url("root"), page(&["A"], None));
    directory.insert(reports_url("A"), page(&["root"], None));
    let (mut engine, mut action) = Traversal::begin(&named("root"));
    let mut rows = Vec::new();
    for _ in 0..25 {
        match action {
            Action::Request { row, url } => {
                rows.extend(row);
                action = engine.deliver(directory[&url].clone());
            }
            _ => break,
        }
    }
    assert!(engine.is_awaiting());
    assert_eq!(rows.len(), 25);
    assert_eq!(rows[23], row("A", Some("root")));
    assert_eq!(rows[24], row("root", Some("A")));
}
