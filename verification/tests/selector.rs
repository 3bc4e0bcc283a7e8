use reportee_tree::selector::select;
use reportee_tree::user::User;

fn named(id: &str) -> User {
    User {
        id: id.to_string(),
        display_name: format!("User {}", id),
        job_title: None,
        department: None,
        mail: None,
        office_location: None,
    }
}

#[test]
fn select_counts_from_one() {
    let matches = vec![named("a"), named("b"), named("c")];
    assert_eq!(select(&matches, 1), Some(&matches[0]));
    assert_eq!(select(&matches, 2), Some(&matches[1]));
    assert_eq!(select(&matches, 3), Some(&matches[2]));
}

#[test]
fn select_refuses_zero() {
    let matches = vec![named("a")];
    assert_eq!(select(&matches, 0), None);
}

#[test]
fn select_refuses_an_index_past_the_end() {
    let matches = vec![named("a"), named("b")];
    assert_eq!(select(&matches, 3), None);
    assert_eq!(select(&matches, usize::MAX), None);
}

#[test]
fn select_from_no_matches_chooses_nobody() {
    let matches: Vec<User> = Vec::new();
    assert_eq!(select(&matches, 0), None);
    assert_eq!(select(&matches, 1), None);
}
