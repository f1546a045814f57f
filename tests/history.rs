use minishell::history::{decimal_text, entries_since, history_listing, parse_count};

fn strings(v: &[&str]) -> Vec<String> {
    v.iter().map(|s| s.to_string()).collect()
}

#[test]
fn full_listing() {
    let e = strings(&["ls", "pwd", "cd /"]);
    assert_eq!(history_listing(&e, &vec![]), "    1  ls\n    2  pwd\n    3  cd /\n");
}

#[test]
fn last_entries_keep_their_numbers() {
    let e = strings(&["ls", "pwd", "cd /"]);
    assert_eq!(history_listing(&e, &strings(&["2"])), "    2  pwd\n    3  cd /\n");
    assert_eq!(history_listing(&e, &strings(&["10"])), "    1  ls\n    2  pwd\n    3  cd /\n");
    assert_eq!(history_listing(&e, &strings(&["0"])), "");
}

#[test]
fn listing_complaints() {
    let e = strings(&["ls"]);
    assert_eq!(history_listing(&e, &strings(&["x"])), "x: provide correct arguments for command\n");
    assert_eq!(history_listing(&e, &strings(&["1", "2"])), "Too many arguments provided\n");
}

#[test]
fn counts() {
    assert_eq!(parse_count("5"), Some(5));
    assert_eq!(parse_count("+12"), Some(12));
    assert_eq!(parse_count("007"), Some(7));
    assert_eq!(parse_count(""), None);
    assert_eq!(parse_count("+"), None);
    assert_eq!(parse_count("-1"), None);
    assert_eq!(parse_count("1a"), None);
    assert_eq!(parse_count("99999999999999999999999"), None);
    assert_eq!(parse_count(&usize::MAX.to_string()), Some(usize::MAX));
}

#[test]
fn decimals() {
    assert_eq!(decimal_text(0), vec!['0']);
    assert_eq!(decimal_text(1234), vec!['1', '2', '3', '4']);
    assert_eq!(decimal_text(10), vec!['1', '0']);
}

#[test]
fn entries_added_since() {
    let e = strings(&["a", "b", "c"]);
    assert_eq!(entries_since(&e, 1), strings(&["b", "c"]));
    assert_eq!(entries_since(&e, 3), Vec::<String>::new());
    assert_eq!(entries_since(&e, 7), Vec::<String>::new());
    assert_eq!(entries_since(&e, 0), e);
}
