use tack_it_on::error::TackError;
use tack_it_on::init::{query_init, read_answer, Query};

fn path(parts: &[&str]) -> Vec<String> {
    parts.iter().map(|p| p.to_string()).collect()
}

#[test]
fn answers_are_yes_or_no() {
    assert_eq!(read_answer("y"), Some(true));
    assert_eq!(read_answer("yes"), Some(true));
    assert_eq!(read_answer("n"), Some(false));
    assert_eq!(read_answer("no"), Some(false));
}

#[test]
fn anything_else_is_no_answer() {
    for text in ["", "Y", "YES", "Yes", "N", "No", "ye", "nope", " y", "y ", "yes\n", "1", "ok"] {
        assert_eq!(read_answer(text), None);
    }
}

#[test]
fn a_marker_in_the_directory_itself_is_an_error() {
    let cwd = path(&["/", "home", "me", "project"]);
    let marker = path(&["/", "home", "me", "project", ".tacked"]);
    assert_eq!(query_init(&cwd, &marker, None), Err(TackError::AlreadyInitialized));
    assert_eq!(query_init(&cwd, &marker, Some("y")), Err(TackError::AlreadyInitialized));
    assert_eq!(
        TackError::AlreadyInitialized.message(),
        "Current directory already has notes tacked on."
    );
}

#[test]
fn a_marker_above_is_asked_about() {
    let cwd = path(&["/", "home", "me", "project", "sub"]);
    let marker = path(&["/", "home", "me", "project", ".tacked"]);
    assert_eq!(query_init(&cwd, &marker, None), Ok(Query::Ask));
    assert_eq!(query_init(&cwd, &marker, Some("maybe")), Ok(Query::AskAgain));
    assert_eq!(query_init(&cwd, &marker, Some("")), Ok(Query::AskAgain));
    assert_eq!(query_init(&cwd, &marker, Some("y")), Ok(Query::Decided(true)));
    assert_eq!(query_init(&cwd, &marker, Some("yes")), Ok(Query::Decided(true)));
    assert_eq!(query_init(&cwd, &marker, Some("n")), Ok(Query::Decided(false)));
    assert_eq!(query_init(&cwd, &marker, Some("no")), Ok(Query::Decided(false)));
}

#[test]
fn only_the_marker_of_the_directory_itself_counts() {
    let cwd = path(&["/", "a"]);
    assert_eq!(query_init(&cwd, &path(&["/", "a"]), None), Ok(Query::Ask));
    assert_eq!(query_init(&cwd, &path(&["/", "a", "tacked"]), None), Ok(Query::Ask));
    assert_eq!(query_init(&cwd, &path(&["/", "b", ".tacked"]), None), Ok(Query::Ask));
    assert_eq!(query_init(&cwd, &path(&["/", "a", "b", ".tacked"]), None), Ok(Query::Ask));
    assert_eq!(query_init(&cwd, &path(&["/", ".tacked"]), None), Ok(Query::Ask));
    assert_eq!(query_init(&cwd, &Vec::new(), None), Ok(Query::Ask));
    assert_eq!(
        query_init(&Vec::new(), &path(&[".tacked"]), None),
        Err(TackError::AlreadyInitialized)
    );
}
