use tack_it_on::error::TackError;
use tack_it_on::text::{
    blank, chars_of, clip, first_line_of, has_prefix, is_space, join, same_text, strip_trailing,
};

#[test]
fn characters_of_a_text() {
    assert_eq!(chars_of("aé€"), vec!['a', 'é', '€']);
    assert!(chars_of("").is_empty());
}

#[test]
fn whitespace_is_what_unicode_says() {
    for code in 0..=0x10FFFFu32 {
        if let Some(c) = char::from_u32(code) {
            assert_eq!(is_space(c), c.is_whitespace());
        }
    }
}

#[test]
fn blank_texts() {
    assert!(blank(""));
    assert!(blank("   "));
    assert!(blank(" \t\r\n"));
    assert!(!blank(" a "));
    assert!(!blank("_"));
}

#[test]
fn same_text_compares_character_by_character() {
    assert!(same_text("", ""));
    assert!(same_text("abc", "abc"));
    assert!(!same_text("abc", "abd"));
    assert!(!same_text("abc", "ab"));
    assert!(!same_text("ab", "abc"));
}

#[test]
fn prefixes() {
    assert!(has_prefix("abcdef", "abc"));
    assert!(has_prefix("abcdef", ""));
    assert!(has_prefix("abcdef", "abcdef"));
    assert!(!has_prefix("abcdef", "abcdefg"));
    assert!(!has_prefix("abcdef", "abd"));
    assert!(!has_prefix("", "a"));
    assert!(has_prefix("", ""));
}

#[test]
fn first_lines() {
    assert_eq!(first_line_of("one\ntwo\nthree"), "one");
    assert_eq!(first_line_of("one"), "one");
    assert_eq!(first_line_of("\none"), "");
    assert_eq!(first_line_of(""), "");
    assert_eq!(first_line_of("one\r\ntwo"), "one\r");
}

#[test]
fn clipping() {
    assert_eq!(clip("abcdef", 3), "abc");
    assert_eq!(clip("abcdef", 6), "abcdef");
    assert_eq!(clip("abcdef", 60), "abcdef");
    assert_eq!(clip("abcdef", 0), "");
    assert_eq!(clip("ééé", 2), "éé");
}

#[test]
fn stripping_one_trailing_character() {
    assert_eq!(strip_trailing("src/", '/'), "src");
    assert_eq!(strip_trailing("src//", '/'), "src/");
    assert_eq!(strip_trailing("src", '/'), "src");
    assert_eq!(strip_trailing("/", '/'), "");
    assert_eq!(strip_trailing("", '/'), "");
}

#[test]
fn joining() {
    let parts = vec![String::from("a"), String::from("b"), String::from("c")];
    assert_eq!(join(&parts, "/"), "a/b/c");
    assert_eq!(join(&parts, ""), "abc");
    assert_eq!(join(&parts, ", "), "a, b, c");
    assert_eq!(join(&vec![String::from("a")], "/"), "a");
    assert_eq!(join(&Vec::new(), "/"), "");
    assert_eq!(join(&vec![String::new(), String::new()], "/"), "/");
}

#[test]
fn messages_of_the_errors() {
    assert_eq!(
        TackError::NoProjectFound.message(),
        "No `.tacked` directory found. Run `init` before adding notes."
    );
    assert_eq!(TackError::EmptyContent.message(), "Note has no content. Aborting.");
    assert_eq!(TackError::NotFound.message(), "No notes matching that ID.");
    assert_eq!(
        TackError::PriorityOutOfRange.message(),
        "Priority outside possible range of -128 to 127."
    );
    assert_eq!(
        TackError::StoreCorrupt(String::from("expected value at line 1 column 1")).message(),
        "The note store cannot be read: expected value at line 1 column 1"
    );
    assert_eq!(
        TackError::PathOutsideProject(String::from("/etc")).message(),
        "/etc is outside of the tack-it-on project."
    );
    assert_eq!(
        TackError::Ambiguous(Vec::new()).message(),
        "ID portion not unique, increase length. Could be:\n    "
    );
}
