use std::collections::hash_map::DefaultHasher;
use std::hash::Hasher;

use tack_it_on::ident::{hex, identify, short_id};
use tack_it_on::tackables::{Note, Tackable, Tacked, ToDo};
use tack_it_on::text::{decimal_of, signed_decimal_of};

fn note(content: &str, on: Option<&str>) -> Note {
    Note {
        content: content.to_string(),
        on: on.map(|p| p.to_string()),
        datetime: String::from("2018-06-01T12:34:56+01:00"),
    }
}

fn todo(content: &str, priority: i8, complete: bool) -> ToDo {
    ToDo {
        content: content.to_string(),
        on: None,
        datetime: String::from("2018-06-01T12:34:56+01:00"),
        priority,
        complete,
    }
}

#[test]
fn hex_writes_leading_zeros() {
    assert_eq!(hex(255, 4), "00ff");
    assert_eq!(hex(0, 16), "0000000000000000");
    assert_eq!(hex(u64::MAX, 16), "ffffffffffffffff");
    assert_eq!(hex(0x0123_4567_89ab_cdef, 16), "0123456789abcdef");
}

#[test]
fn hex_keeps_the_last_digits_only() {
    assert_eq!(hex(0x1234, 2), "34");
    assert_eq!(hex(0x1234, 0), "");
}

#[test]
fn decimal_numbers() {
    assert_eq!(decimal_of(0), "0");
    assert_eq!(decimal_of(7), "7");
    assert_eq!(decimal_of(128), "128");
    assert_eq!(decimal_of(4_294_967_295), "4294967295");
    assert_eq!(signed_decimal_of(0), "0");
    assert_eq!(signed_decimal_of(3), "3");
    assert_eq!(signed_decimal_of(127), "127");
    assert_eq!(signed_decimal_of(-1), "-1");
    assert_eq!(signed_decimal_of(-128), "-128");
}

#[test]
fn short_form_is_the_first_eight_characters() {
    assert_eq!(short_id("abcdef1234567890"), "abcdef12");
    assert_eq!(short_id("abc"), "abc");
    assert_eq!(short_id(""), "");
}

#[test]
fn identifier_is_sixteen_hex_digits() {
    let id = note("Buy milk", None).gen_id();
    assert_eq!(id.len(), 16);
    assert!(id.chars().all(|c| c.is_ascii_digit() || ('a'..='f').contains(&c)));
}

#[test]
fn identifier_is_the_same_each_time() {
    let first = note("Buy milk", Some("a/b"));
    let again = note("Buy milk", Some("a/b"));
    assert_eq!(first.gen_id(), first.gen_id());
    assert_eq!(first.gen_id(), again.gen_id());
    assert_eq!(Tacked::Note(first.clone()).get_id(), first.gen_id());
    assert_eq!(Tacked::Note(first.clone()).gen_id(), first.gen_id());
}

#[test]
fn identifier_goes_by_the_fields() {
    let id = identify("Buy milk", &None, "2018-06-01T12:34:56+01:00", None);
    assert_eq!(note("Buy milk", None).gen_id(), id);
    let id = identify("Do it", &None, "2018-06-01T12:34:56+01:00", Some((4, true)));
    assert_eq!(todo("Do it", 4, true).gen_id(), id);
    assert_eq!(Tacked::ToDo(todo("Do it", 4, true)).get_id(), id);
}

#[test]
fn every_field_counts_for_the_identifier() {
    let base = note("Buy milk", Some("a"));
    let base_id = base.gen_id();
    assert_ne!(note("Buy milk!", Some("a")).gen_id(), base_id);
    assert_ne!(note("Buy milk", Some("b")).gen_id(), base_id);
    assert_ne!(note("Buy milk", None).gen_id(), base_id);
    let mut later = base.clone();
    later.datetime = String::from("2018-06-01T12:34:57+01:00");
    assert_ne!(later.gen_id(), base_id);
    let plain = note("Buy milk", None);
    let as_todo = todo("Buy milk", 0, false);
    assert_ne!(as_todo.gen_id(), plain.gen_id());
    assert_ne!(todo("Buy milk", 1, false).gen_id(), as_todo.gen_id());
    assert_ne!(todo("Buy milk", -1, false).gen_id(), as_todo.gen_id());
    assert_ne!(todo("Buy milk", 0, true).gen_id(), as_todo.gen_id());
}

#[test]
fn text_does_not_run_over_into_the_next_field() {
    let one = Note {
        content: String::from("ab"),
        on: None,
        datetime: String::from("c"),
    };
    let other = Note {
        content: String::from("a"),
        on: None,
        datetime: String::from("bc"),
    };
    assert_ne!(one.gen_id(), other.gen_id());
}

#[test]
fn note_simple_form() {
    let item = note("Buy milk", None);
    let id = item.gen_id();
    assert_eq!(
        item.show_simple(),
        format!("[{}] 2018-06-01T12:34:56+01:00\nBuy milk\n", &id[..8])
    );
    let item = note("Buy milk", Some("shop/list.txt"));
    let id = item.gen_id();
    assert_eq!(
        item.show_simple(),
        format!("[{}] 2018-06-01T12:34:56+01:00\nOn shop/list.txt: Buy milk\n", &id[..8])
    );
}

#[test]
fn todo_simple_form() {
    assert_eq!(todo("Write tests", 3, false).show_simple(), "[ ] Write tests\n");
    assert_eq!(todo("Write tests", 3, true).show_simple(), "[X] Write tests\n");
}

#[test]
fn show_picks_the_form() {
    let item = todo("Write tests", 3, false);
    assert_eq!(item.show(false), item.show_simple());
    assert_eq!(item.show(true), item.show_verbose());
    assert_eq!(item.show_verbose(), "[ ] Write tests\n");
    let wrapped = Tacked::ToDo(item.clone());
    assert_eq!(wrapped.show(), "[ ] Write tests\n");
    let plain = note("Buy milk", None);
    assert_eq!(Tacked::Note(plain.clone()).show(), plain.show_simple());
}

#[test]
fn full_note_shows_the_date_as_chrono_writes_it() {
    let item = note("Buy milk\nand bread", None);
    let id = item.gen_id();
    assert_eq!(item.full_note(), format!("({}) 2018-06-01 12:34:56\nBuy milk\nand bread", &id[..8]));
}

#[test]
fn full_note_keeps_the_offset_of_the_stamp() {
    let mut item = note("x", None);
    item.datetime = String::from("2020-02-29T23:59:59.123456789-08:00");
    let id = item.gen_id();
    assert_eq!(item.full_note(), format!("({}) 2020-02-29 23:59:59\nx", &id[..8]));
}

#[test]
fn full_note_names_the_file() {
    let item = note("Buy milk", Some("shop/list.txt"));
    let id = item.gen_id();
    assert_eq!(
        item.full_note(),
        format!("({}) 2018-06-01 12:34:56\nOn: shop/list.txt\nBuy milk", &id[..8])
    );
}

#[test]
fn full_note_of_a_todo_item_tells_its_priority() {
    let item = todo("Write tests", -2, false);
    let id = item.gen_id();
    assert_eq!(
        item.full_note(),
        format!("({}) TO DO p-2 2018-06-01 12:34:56\nWrite tests", &id[..8])
    );
}

#[test]
fn full_note_shows_an_unreadable_stamp_as_it_stands() {
    let mut item = note("Buy milk", None);
    item.datetime = String::from("yesterday");
    let id = item.gen_id();
    assert_eq!(item.full_note(), format!("({}) yesterday\nBuy milk", &id[..8]));
}

#[test]
fn oneliner_shows_the_first_line_only() {
    let item = note("Buy milk\nand bread", None);
    let id = item.gen_id();
    assert_eq!(item.oneliner(), format!("({}) Buy milk...", &id[..8]));
}

#[test]
fn oneliner_is_cut_to_the_line_width() {
    let long = "x".repeat(200);
    let item = note(&long, None);
    let id = item.gen_id();
    let line = item.oneliner();
    assert_eq!(line, format!("({}) {}...", &id[..8], "x".repeat(65)));
    assert_eq!(line.chars().count(), 79);
}

#[test]
fn oneliner_counts_characters_not_bytes() {
    let long = "é".repeat(100);
    let item = note(&long, None);
    let id = item.gen_id();
    assert_eq!(item.oneliner(), format!("({}) {}...", &id[..8], "é".repeat(65)));
}

#[test]
fn oneliner_of_empty_content() {
    let item = note("", None);
    let id = item.gen_id();
    assert_eq!(item.oneliner(), format!("({}) ...", &id[..8]));
}

#[test]
fn todo_item_of_a_note_is_none() {
    assert_eq!(note("Buy milk", None).todo_item(), None);
    assert_eq!(Tacked::Note(note("Buy milk", None)).todo_item(), None);
}

#[test]
fn todo_item_shows_box_and_priority() {
    let open = todo("Write tests\nsoon", 5, false);
    let id = open.gen_id();
    assert_eq!(open.todo_item(), Some((5, format!("[ ] ({}) Write tests...", &id[..8]))));
    let done = todo("Write tests", -7, true);
    let id = done.gen_id();
    assert_eq!(done.todo_item(), Some((-7, format!("[V] ({}) Write tests...", &id[..8]))));
}

#[test]
fn todo_item_is_cut_to_the_line_width() {
    let long = "y".repeat(100);
    let item = todo(&long, 1, false);
    let id = item.gen_id();
    let (_, line) = item.todo_item().unwrap();
    assert_eq!(line, format!("[ ] ({}) {}...", &id[..8], "y".repeat(61)));
    assert_eq!(line.chars().count(), 79);
}

#[test]
fn accessors_give_the_fields() {
    let item = todo("Write tests", 2, true);
    assert_eq!(item.content(), "Write tests");
    assert_eq!(item.on(), &None);
    assert_eq!(item.datetime(), "2018-06-01T12:34:56+01:00");
    assert_eq!(item.todo(), Some((2, true)));
    let wrapped = Tacked::Note(note("Buy milk", Some("a")));
    assert_eq!(wrapped.content(), "Buy milk");
    assert_eq!(wrapped.get_on(), &Some(String::from("a")));
    assert_eq!(wrapped.on(), &Some(String::from("a")));
    assert_eq!(wrapped.todo(), None);
}

#[test]
fn identifier_is_the_digest_of_the_fields_in_hexadecimal() {
    let mut bytes: Vec<u8> = Vec::new();
    bytes.extend_from_slice("Grüße".as_bytes());
    bytes.push(0xFF);
    bytes.push(1);
    bytes.extend_from_slice("a/b".as_bytes());
    bytes.push(0xFF);
    bytes.extend_from_slice("2018-06-01T12:34:56+01:00".as_bytes());
    bytes.push(0xFF);
    bytes.extend_from_slice(&[1, 0xFE, 1]);
    let mut hasher = DefaultHasher::new();
    hasher.write(&bytes);
    let expected = format!("{:016x}", hasher.finish());
    let item = ToDo {
        content: String::from("Grüße"),
        on: Some(String::from("a/b")),
        datetime: String::from("2018-06-01T12:34:56+01:00"),
        priority: -2,
        complete: true,
    };
    assert_eq!(item.gen_id(), expected);

    let mut bytes: Vec<u8> = Vec::new();
    bytes.extend_from_slice("x".as_bytes());
    bytes.push(0xFF);
    bytes.push(0);
    bytes.extend_from_slice("now".as_bytes());
    bytes.push(0xFF);
    bytes.push(0);
    let mut hasher = DefaultHasher::new();
    hasher.write(&bytes);
    let expected = format!("{:016x}", hasher.finish());
    let item = Note { content: String::from("x"), on: None, datetime: String::from("now") };
    assert_eq!(item.gen_id(), expected);
}
