use tack_it_on::error::TackError;
use tack_it_on::note::{add_note, create_note, new_item, parse_priority, todo_from_flags};
use tack_it_on::tackables::{Note, Tackable, Tacked, ToDo};
use tack_it_on::todo::{create_todo, DEFAULT_PRIORITY};

fn path(parts: &[&str]) -> Vec<String> {
    parts.iter().map(|p| p.to_string()).collect()
}

fn tacked_dir() -> Vec<String> {
    path(&["/", "tmp", "create_test", ".tacked"])
}

#[test]
fn create_and_get_note() {
    let tacked_path = tacked_dir();
    let content = String::from("This is a test note.");
    let maybe_on = None;
    let mut notes: Vec<Tacked> = Vec::new();
    create_note(content.clone(), maybe_on, None, &tacked_path, &mut notes).unwrap();
    let note = notes.pop().unwrap();
    assert_eq!(note.content(), &content);
    assert!(matches!(note, Tacked::Note(_)));
}

#[test]
fn create_and_get_todo() {
    let tacked_path = tacked_dir();
    let content = String::from("This is a test to do item.");
    let maybe_on = None;
    let mut tacked_items: Vec<Tacked> = Vec::new();
    create_todo(content.clone(), maybe_on, &tacked_path, &mut tacked_items).unwrap();
    let tacked = tacked_items.pop().unwrap();
    if let Tacked::ToDo(ref todo) = tacked {
        assert_eq!(todo.content, content);
    } else {
        panic!("Test expected a to do item but has received another Tacked variant.");
    }
}

#[test]
fn a_new_todo_item_is_open_and_of_the_default_priority() {
    let mut notes: Vec<Tacked> = Vec::new();
    create_todo(String::from("Do it"), None, &tacked_dir(), &mut notes).unwrap();
    assert_eq!(DEFAULT_PRIORITY, 3);
    assert_eq!(notes[0].todo(), Some((3, false)));
}

#[test]
fn a_new_item_carries_a_timestamp_that_chrono_reads() {
    let mut notes: Vec<Tacked> = Vec::new();
    create_note(String::from("Buy milk"), None, None, &tacked_dir(), &mut notes).unwrap();
    let stamp = notes[0].datetime().clone();
    assert!(!stamp.is_empty());
    assert!(chrono::DateTime::parse_from_rfc3339(&stamp).is_ok());
}

#[test]
fn a_new_item_goes_last_and_the_others_stay() {
    let mut notes: Vec<Tacked> = Vec::new();
    let stamp = String::from("2018-06-01T12:34:56+01:00");
    add_note(String::from("one"), None, None, &tacked_dir(), stamp.clone(), &mut notes).unwrap();
    add_note(String::from("two"), None, Some((9, false)), &tacked_dir(), stamp.clone(), &mut notes)
        .unwrap();
    let before = notes.clone();
    add_note(String::from("three"), None, None, &tacked_dir(), stamp.clone(), &mut notes).unwrap();
    assert_eq!(notes.len(), 3);
    assert_eq!(&notes[..2], &before[..]);
    assert_eq!(
        notes[2],
        Tacked::Note(Note { content: String::from("three"), on: None, datetime: stamp.clone() })
    );
    assert_eq!(
        notes[1],
        Tacked::ToDo(ToDo {
            content: String::from("two"),
            on: None,
            datetime: stamp,
            priority: 9,
            complete: false,
        })
    );
}

#[test]
fn a_new_item_holds_the_relative_path() {
    let tacked = path(&["/", "home", "me", "project", ".tacked"]);
    let target = path(&["/", "home", "me", "project", "src", "lib.rs"]);
    let mut notes: Vec<Tacked> = Vec::new();
    create_note(String::from("Tidy up"), Some(&target), None, &tacked, &mut notes).unwrap();
    assert_eq!(notes[0].get_on(), &Some(String::from("src/lib.rs")));
}

#[test]
fn whitespace_only_content_is_rejected() {
    let mut notes: Vec<Tacked> = Vec::new();
    let outcome = create_note(String::from("   "), None, None, &tacked_dir(), &mut notes);
    assert_eq!(outcome, Err(TackError::EmptyContent));
    assert!(notes.is_empty());
}

#[test]
fn blank_content_leaves_the_store_as_it_was() {
    let mut notes: Vec<Tacked> = Vec::new();
    create_note(String::from("kept"), None, None, &tacked_dir(), &mut notes).unwrap();
    let before = notes.clone();
    for blank in ["", " ", "\t\n", "\r\n \u{a0}\u{2003}\u{3000}", "\u{85}\u{1680}\u{2028}\u{2029}"] {
        let outcome = create_note(String::from(blank), None, None, &tacked_dir(), &mut notes);
        assert_eq!(outcome, Err(TackError::EmptyContent));
        assert_eq!(create_todo(String::from(blank), None, &tacked_dir(), &mut notes), Err(TackError::EmptyContent));
        assert_eq!(notes, before);
    }
}

#[test]
fn content_with_anything_but_whitespace_is_accepted() {
    let mut notes: Vec<Tacked> = Vec::new();
    for content in ["x", "  x  ", "\n.\n", "\u{200b}", "\u{feff}"] {
        create_note(String::from(content), None, None, &tacked_dir(), &mut notes).unwrap();
        assert_eq!(notes.last().unwrap().content(), content);
    }
    assert_eq!(notes.len(), 5);
}

#[test]
fn blank_content_is_refused_before_the_target_is_looked_at() {
    let tacked = path(&["/", "home", "me", "project", ".tacked"]);
    let target = path(&["/", "etc", "passwd"]);
    let mut notes: Vec<Tacked> = Vec::new();
    let outcome = create_note(String::from(" "), Some(&target), None, &tacked, &mut notes);
    assert_eq!(outcome, Err(TackError::EmptyContent));
}

#[test]
fn a_target_outside_the_project_leaves_the_store_as_it_was() {
    let tacked = path(&["/", "home", "me", "project", ".tacked"]);
    let target = path(&["/", "etc", "passwd"]);
    let mut notes: Vec<Tacked> = Vec::new();
    create_note(String::from("kept"), None, None, &tacked, &mut notes).unwrap();
    let before = notes.clone();
    let outcome = create_note(String::from("Look here"), Some(&target), None, &tacked, &mut notes);
    assert_eq!(outcome, Err(TackError::PathOutsideProject(String::from("/etc/passwd"))));
    assert_eq!(notes, before);
}

#[test]
fn new_item_is_a_note_or_a_todo_item() {
    let stamp = String::from("2018-06-01T12:34:56+01:00");
    assert_eq!(
        new_item(String::from("a"), Some(String::from("f")), None, stamp.clone()),
        Tacked::Note(Note {
            content: String::from("a"),
            on: Some(String::from("f")),
            datetime: stamp.clone(),
        })
    );
    assert_eq!(
        new_item(String::from("a"), None, Some((-5, true)), stamp.clone()),
        Tacked::ToDo(ToDo {
            content: String::from("a"),
            on: None,
            datetime: stamp,
            priority: -5,
            complete: true,
        })
    );
}

#[test]
fn priorities_are_read_as_signed_decimal_numbers() {
    assert_eq!(parse_priority("0"), Some(0));
    assert_eq!(parse_priority("3"), Some(3));
    assert_eq!(parse_priority("+3"), Some(3));
    assert_eq!(parse_priority("-3"), Some(-3));
    assert_eq!(parse_priority("127"), Some(127));
    assert_eq!(parse_priority("-128"), Some(-128));
    assert_eq!(parse_priority("007"), Some(7));
    assert_eq!(parse_priority("-0"), Some(0));
    assert_eq!(parse_priority("0000000000000000000000000000000127"), Some(127));
}

#[test]
fn priorities_out_of_range_or_ill_written_are_none() {
    for text in [
        "", "+", "-", "128", "-129", "1000", "99999999999999999999999999", "1x", "x1", " 1", "1 ",
        "--1", "+-1", "1.0", "0x10", "١",
    ] {
        assert_eq!(parse_priority(text), None);
    }
}

#[test]
fn priorities_agree_with_the_standard_reading() {
    for text in ["5", "-5", "+5", "130", "-130", "12a", "", "-", "00", "-00128", "+127", "+128"] {
        assert_eq!(parse_priority(text), text.parse::<i8>().ok());
    }
    for value in i8::MIN..=i8::MAX {
        assert_eq!(parse_priority(&value.to_string()), Some(value));
    }
}

#[test]
fn flags_make_a_todo_item_only_with_a_priority() {
    assert_eq!(todo_from_flags(true, Some("5")), Ok(Some((5, false))));
    assert_eq!(todo_from_flags(true, None), Ok(None));
    assert_eq!(todo_from_flags(false, Some("5")), Ok(None));
    assert_eq!(todo_from_flags(false, None), Ok(None));
}

#[test]
fn a_priority_that_cannot_be_read_is_an_error() {
    assert_eq!(todo_from_flags(true, Some("300")), Err(TackError::PriorityOutOfRange));
    assert_eq!(todo_from_flags(true, Some("high")), Err(TackError::PriorityOutOfRange));
    assert_eq!(todo_from_flags(false, Some("high")), Ok(None));
}
