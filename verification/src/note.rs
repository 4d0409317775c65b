//! Making a new item and appending it to the store.

use vstd::prelude::*;
use crate::clock::local_now;
use crate::error::TackError;
use crate::tack_store::{short_on, short_on_path};
use crate::tackables::{Fields, Note, Tacked, ToDo};
use crate::text::{blank, chars_of, is_blank};

verus! {

/// How far a request for a new note has come.
#[derive(Clone, Copy, Debug, PartialEq, Eq)]
pub enum NoteStep {
    /// The request holds no content: ask the user's editor for it.
    Edit,
    /// The item was made and stands last in the store.
    Created,
}

/// Whether `c` is one of the digits `0` to `9`.
pub open spec fn is_digit(c: char) -> bool {
    48 <= c as u32 <= 57
}

/// Whether `s` is made of digits alone.
pub open spec fn all_digits(s: Seq<char>) -> bool {
    forall|i: int| 0 <= i < s.len() ==> is_digit(#[trigger] s[i])
}

/// The number that the digits `s` write in base ten.
pub open spec fn digits_value(s: Seq<char>) -> nat
    decreases s.len(),
{
    if s.len() == 0 {
        0
    } else {
        (digits_value(s.drop_last()) * 10 + (s.last() as u32 - 48)) as nat
    }
}

/// The priority that `text` writes: an optional sign, then at least one
/// digit, nothing before, between or after, and a value from -128 to 127.
/// Anything else writes none.
pub open spec fn priority_of(text: Seq<char>) -> Option<i8> {
    let negative = text.len() > 0 && text[0] == '-';
    let signed = negative || (text.len() > 0 && text[0] == '+');
    let digits = if signed {
        text.skip(1)
    } else {
        text
    };
    let value = if negative {
        -digits_value(digits)
    } else {
        digits_value(digits) as int
    };
    if digits.len() > 0 && all_digits(digits) && -128 <= value <= 127 {
        Some(value as i8)
    } else {
        None
    }
}

/// What the flags of a request say of the new item: a to-do item only where
/// both the flag and a priority are given, and then one that is not complete.
pub open spec fn flags_todo(todo: bool, priority: Option<Seq<char>>) -> Result<
    Option<(i8, bool)>,
    TackError,
> {
    match priority {
        Some(text) if todo => match priority_of(text) {
            Some(value) => Ok(Some((value, false))),
            None => Err(TackError::PriorityOutOfRange),
        },
        _ => Ok(None),
    }
}

/// The fields of a new item.
pub open spec fn new_fields(
    content: Seq<char>,
    on: Option<Seq<char>>,
    maybe_todo: Option<(i8, bool)>,
    datetime: Seq<char>,
) -> Fields {
    Fields { content, on, datetime, todo: maybe_todo }
}

/// Whether a store went from `before` to `after`, with `outcome`, as the
/// making of a new item asks.
///
/// Blank content is refused first, then a target outside the project, and
/// the store then stays as it was. Else the new item stands last, with its
/// content, its target made relative to the project directory and its to-do
/// part, and every earlier item stays in its place.
pub open spec fn is_creation(
    before: Seq<Tacked>,
    after: Seq<Tacked>,
    outcome: Result<(), TackError>,
    content: Seq<char>,
    maybe_on: Option<Seq<Seq<char>>>,
    maybe_todo: Option<(i8, bool)>,
    tacked_dir: Seq<Seq<char>>,
) -> bool {
    match outcome {
        Ok(()) => {
            &&& !is_blank(content)
            &&& short_on(maybe_on, tacked_dir) matches Ok(on)
            &&& after.len() == before.len() + 1
            &&& after.drop_last() == before
            &&& after.last()@ == new_fields(content, on, maybe_todo, after.last()@.datetime)
        },
        Err(TackError::EmptyContent) => is_blank(content) && after == before,
        Err(TackError::PathOutsideProject(path)) => {
            &&& !is_blank(content)
            &&& short_on(maybe_on, tacked_dir) == Err::<Option<Seq<char>>, Seq<char>>(path@)
            &&& after == before
        },
        Err(_) => false,
    }
}

/// Whether a store went from `before` to `after`, with `step`, as a request
/// for a new note asks.
pub open spec fn is_note_run(
    before: Seq<Tacked>,
    after: Seq<Tacked>,
    step: Result<NoteStep, TackError>,
    maybe_tacked: Option<Seq<Seq<char>>>,
    content: Option<Seq<char>>,
    maybe_on: Option<Seq<Seq<char>>>,
    todo: bool,
    priority: Option<Seq<char>>,
) -> bool {
    match maybe_tacked {
        None => step == Err::<NoteStep, TackError>(TackError::NoProjectFound) && after == before,
        Some(tacked_dir) => match flags_todo(todo, priority) {
            Err(_) => step == Err::<NoteStep, TackError>(TackError::PriorityOutOfRange) && after
                == before,
            Ok(maybe_todo) => match content {
                None => step == Ok::<NoteStep, TackError>(NoteStep::Edit) && after == before,
                Some(text) => match step {
                    Ok(NoteStep::Created) => is_creation(
                        before,
                        after,
                        Ok(()),
                        text,
                        maybe_on,
                        maybe_todo,
                        tacked_dir,
                    ),
                    Ok(NoteStep::Edit) => false,
                    Err(refusal) => is_creation(
                        before,
                        after,
                        Err(refusal),
                        text,
                        maybe_on,
                        maybe_todo,
                        tacked_dir,
                    ),
                },
            },
        },
    }
}

/// Reads a priority.
pub fn parse_priority(text: &str) -> (priority: Option<i8>)
    ensures
        priority == priority_of(text@),
{
    let chars = chars_of(text);
    let negative = chars.len() > 0 && chars[0] == '-';
    let signed = negative || (chars.len() > 0 && chars[0] == '+');
    let start: usize = if signed {
        1
    } else {
        0
    };
    let ghost digits = if signed {
        text@.skip(1)
    } else {
        text@
    };
    if chars.len() == start {
        return None;
    }
    let mut value: u32 = 0;
    let mut too_large = false;
    let mut i: usize = start;
    while i < chars.len()
        invariant
            start <= i <= chars.len(),
            chars@ == text@,
            negative == (text@.len() > 0 && text@[0] == '-'),
            signed == (negative || (text@.len() > 0 && text@[0] == '+')),
            digits == if signed {
                text@.skip(1)
            } else {
                text@
            },
            digits.len() == chars.len() - start,
            forall|j: int| 0 <= j < digits.len() ==> digits[j] == chars@[j + start],
            all_digits(digits.take(i - start)),
            value <= 128,
            !too_large ==> value == digits_value(digits.take(i - start)),
            too_large ==> digits_value(digits.take(i - start)) > 128,
        decreases chars.len() - i,
    {
        let c: u32 = chars[i] as u32;
        let ghost seen = digits.take(i - start + 1);
        proof {
            assert(seen.drop_last() =~= digits.take(i - start));
            assert(seen.last() == digits[i - start]);
        }
        if c < 48 || c > 57 {
            assert(!is_digit(digits[i - start]));
            assert(!all_digits(digits));
            return None;
        }
        proof {
            assert forall|j: int| 0 <= j < seen.len() implies is_digit(#[trigger] seen[j]) by {
                if j < seen.len() - 1 {
                    assert(seen[j] == digits.take(i - start)[j]);
                }
            }
            lemma_digits_grow(seen);
        }
        if !too_large {
            let next: u32 = value * 10 + (c - 48);
            if next > 128 {
                too_large = true;
            } else {
                value = next;
            }
        }
        i += 1;
    }
    proof {
        assert(digits.take(i - start) =~= digits);
    }
    if too_large {
        None
    } else if negative {
        Some((-(value as i32)) as i8)
    } else if value <= 127 {
        Some(value as i8)
    } else {
        None
    }
}

/// Reads from the flags of a request whether the new item is a to-do item,
/// and with what priority. The item is one only where both the to-do flag
/// and a priority are given; a priority that cannot be read is an error.
pub fn todo_from_flags(todo: bool, priority: Option<&str>) -> (maybe_todo: Result<
    Option<(i8, bool)>,
    TackError,
>)
    ensures
        maybe_todo == flags_todo(todo, priority.deep_view()),
{
    match priority {
        Some(text) if todo => match parse_priority(text) {
            Some(value) => Ok(Some((value, false))),
            None => Err(TackError::PriorityOutOfRange),
        },
        _ => Ok(None),
    }
}

/// Makes an item of its parts: a to-do item where `maybe_todo` holds a
/// priority, else a note.
pub fn new_item(content: String, on: Option<String>, maybe_todo: Option<(i8, bool)>, datetime: String) -> (item:
    Tacked)
    ensures
        item@ == new_fields(content@, on.deep_view(), maybe_todo, datetime@),
{
    match maybe_todo {
        Some((priority, complete)) => Tacked::ToDo(
            ToDo { content, on, datetime, priority, complete },
        ),
        None => Tacked::Note(Note { content, on, datetime }),
    }
}

/// Appends a new item, made at the time `datetime`, to `notes`.
///
/// Content that is empty or only whitespace is refused; then a target that
/// lies outside the project, as `short_on_path` finds. On either error
/// `notes` stays as it was. Else the new item stands last, with the target
/// made relative to the project directory, and every earlier item stays in
/// its place.
pub fn add_note(
    content: String,
    maybe_on: Option<&Vec<String>>,
    maybe_todo: Option<(i8, bool)>,
    tacked_dir: &Vec<String>,
    datetime: String,
    notes: &mut Vec<Tacked>,
) -> (outcome: Result<(), TackError>)
    ensures
        is_creation(
            old(notes)@,
            final(notes)@,
            outcome,
            content@,
            maybe_on.deep_view(),
            maybe_todo,
            tacked_dir.deep_view(),
        ),
        outcome is Ok ==> final(notes)@.last()@.datetime == datetime@,
{
    if blank(content.as_str()) {
        return Err(TackError::EmptyContent);
    }
    match short_on_path(maybe_on, tacked_dir) {
        Ok(on) => {
            notes.push(new_item(content, on, maybe_todo, datetime));
            assert(notes@.drop_last() =~= old(notes)@);
            Ok(())
        },
        Err(refusal) => Err(refusal),
    }
}

/// Appends a new item, made now, to `notes`.
///
/// What `add_note` does, with the time that the clock gives: on success the
/// new item stands last and holds that time, whatever it is.
pub fn create_note(
    content: String,
    maybe_on: Option<&Vec<String>>,
    maybe_todo: Option<(i8, bool)>,
    tacked_dir: &Vec<String>,
    notes: &mut Vec<Tacked>,
) -> (outcome: Result<(), TackError>)
    ensures
        is_creation(
            old(notes)@,
            final(notes)@,
            outcome,
            content@,
            maybe_on.deep_view(),
            maybe_todo,
            tacked_dir.deep_view(),
        ),
{
    add_note(content, maybe_on, maybe_todo, tacked_dir, local_now(), notes)
}

/// Carries out a request for a new note, as far as it can go.
///
/// `maybe_tacked` is the marker directory of the project, if one was found,
/// and `notes` the store of that project. Without a project the request is
/// refused; then flags that cannot be read, as `todo_from_flags` finds. A
/// request without content asks for the editor, and comes again with what
/// the editor gave. With content the item is made as `create_note` makes it.
/// Unless an item was made, `notes` stays as it was.
pub fn run_note(
    maybe_tacked: Option<&Vec<String>>,
    content: Option<String>,
    maybe_on: Option<&Vec<String>>,
    todo: bool,
    priority: Option<&str>,
    notes: &mut Vec<Tacked>,
) -> (step: Result<NoteStep, TackError>)
    ensures
        is_note_run(
            old(notes)@,
            final(notes)@,
            step,
            maybe_tacked.deep_view(),
            content.deep_view(),
            maybe_on.deep_view(),
            todo,
            priority.deep_view(),
        ),
{
    match maybe_tacked {
        None => Err(TackError::NoProjectFound),
        Some(tacked_dir) => match todo_from_flags(todo, priority) {
            Err(refusal) => Err(refusal),
            Ok(maybe_todo) => match content {
                None => Ok(NoteStep::Edit),
                Some(text) => match create_note(text, maybe_on, maybe_todo, tacked_dir, notes) {
                    Ok(()) => Ok(NoteStep::Created),
                    Err(refusal) => Err(refusal),
                },
            },
        },
    }
}

/// A run of digits with one more digit writes ten times the number and the
/// digit, which is no less.
proof fn lemma_digits_grow(s: Seq<char>)
    requires
        s.len() > 0,
        is_digit(s.last()),
    ensures
        digits_value(s) == digits_value(s.drop_last()) * 10 + (s.last() as u32 - 48),
        digits_value(s) >= digits_value(s.drop_last()),
{
}

/// Blank content is always refused, and the store stays as it was.
pub proof fn lemma_blank_is_refused(
    before: Seq<Tacked>,
    after: Seq<Tacked>,
    outcome: Result<(), TackError>,
    content: Seq<char>,
    maybe_on: Option<Seq<Seq<char>>>,
    maybe_todo: Option<(i8, bool)>,
    tacked_dir: Seq<Seq<char>>,
)
    requires
        is_blank(content),
        is_creation(before, after, outcome, content, maybe_on, maybe_todo, tacked_dir),
    ensures
        outcome == Err::<(), TackError>(TackError::EmptyContent),
        after == before,
{
}

} // verus!
