use reportee_tree::text::{chars_of, contains, find_in, join, split};

#[test]
fn contains_finds_a_needle_anywhere() {
    assert!(contains("Senior OUTSOURCE Engineer", "OUTSOURCE"));
    assert!(contains("OUTSOURCE", "OUTSOURCE"));
    assert!(contains("xOff-Site", "Off-Site"));
    assert!(contains("Off-Sitex", "Off-Site"));
}

#[test]
fn contains_rejects_what_is_not_there() {
    assert!(!contains("unknown", "CONSULT"));
    assert!(!contains("CONSUL", "CONSULT"));
    assert!(!contains("", "a"));
    assert!(!contains("CONSUL T", "CONSULT"));
    assert!(!contains("aab", "aba"));
}

#[test]
fn contains_backs_up_after_a_partial_match() {
    assert!(contains("aaab", "aab"));
    assert!(contains("OffOff-Site", "Off-Site"));
}

#[test]
fn the_empty_needle_is_everywhere() {
    assert!(contains("abc", ""));
    assert!(contains("", ""));
}

#[test]
fn contains_compares_characters_not_bytes() {
    assert!(contains("Zoë Ångström", "ë Å"));
    assert!(!contains("Zoë", "e"));
}

#[test]
fn find_in_gives_the_first_position_from_the_start() {
    let hay = chars_of("a, b, c");
    let sep = chars_of(", ");
    assert_eq!(find_in(&hay, &sep, 0), Some(1));
    assert_eq!(find_in(&hay, &sep, 1), Some(1));
    assert_eq!(find_in(&hay, &sep, 2), Some(4));
    assert_eq!(find_in(&hay, &sep, 5), None);
    assert_eq!(find_in(&hay, &sep, 100), None);
}

#[test]
fn chars_of_counts_characters() {
    assert_eq!(chars_of("Zoë"), vec!['Z', 'o', 'ë']);
    assert_eq!(chars_of(""), Vec::<char>::new());
}

#[test]
fn join_puts_the_separator_between_parts() {
    assert_eq!(join(&vec!["a", "b", "c"], ", "), "a, b, c");
    assert_eq!(join(&vec!["a"], ", "), "a");
    assert_eq!(join(&Vec::new(), ", "), "");
    assert_eq!(join(&vec!["", ""], ", "), ", ");
}

#[test]
fn split_cuts_at_every_separator() {
    assert_eq!(split("a, b, c", ", "), vec!["a", "b", "c"]);
    assert_eq!(split("abc", ", "), vec!["abc"]);
    assert_eq!(split("", ", "), vec![""]);
    assert_eq!(split(", ", ", "), vec!["", ""]);
    assert_eq!(split(", a, ", ", "), vec!["", "a", ""]);
    assert_eq!(split("a,, b", ", "), vec!["a,", "b"]);
}

#[test]
fn split_with_an_empty_separator_cuts_nowhere() {
    assert_eq!(split("abc", ""), vec!["abc"]);
}

#[test]
fn split_undoes_join() {
    let parts = vec!["x", "", "y z", ",", " "];
    let joined = join(&parts, ", ");
    assert_eq!(joined, "x, , y z, ,,  ");
    assert_eq!(split(&joined, ", "), parts);
}
