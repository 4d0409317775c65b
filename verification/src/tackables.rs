//! What can be tacked onto a project: notes and to-do items, and what they
//! have in common.

use vstd::prelude::*;
use crate::clock::{date_format, date_pattern, display_time, shown_time};
use crate::ident::{id_of, identify, short_form, short_id};
use crate::text::{clip, clipped, first_line, first_line_of, signed_decimal, signed_decimal_of};

verus! {

/// The widest that the head of a one-line form may be, in characters.
pub const LINE_WIDTH: usize = 76;

/// A free-text note.
#[derive(Clone, Debug, PartialEq, Eq)]
pub struct Note {
    /// The text of the note.
    pub content: String,
    /// The file that the note is about, relative to the project directory.
    pub on: Option<String>,
    /// When the note was made, as RFC 3339 text.
    pub datetime: String,
}

/// Something to be done.
#[derive(Clone, Debug, PartialEq, Eq)]
pub struct ToDo {
    /// What is to be done.
    pub content: String,
    /// The file that the item is about, relative to the project directory.
    pub on: Option<String>,
    /// When the item was made, as RFC 3339 text.
    pub datetime: String,
    /// How pressing the item is; larger is more pressing.
    pub priority: i8,
    /// Whether it has been done.
    pub complete: bool,
}

/// An item of the store.
#[derive(Clone, Debug, PartialEq, Eq)]
pub enum Tacked {
    Note(Note),
    ToDo(ToDo),
}

/// The mathematical content of an item. A note has `todo` `None`; a to-do
/// item holds its priority and whether it is complete.
pub struct Fields {
    pub content: Seq<char>,
    pub on: Option<Seq<char>>,
    pub datetime: Seq<char>,
    pub todo: Option<(i8, bool)>,
}

impl View for Note {
    type V = Fields;

    open spec fn view(&self) -> Fields {
        Fields {
            content: self.content@,
            on: self.on.deep_view(),
            datetime: self.datetime@,
            todo: None,
        }
    }
}

impl View for ToDo {
    type V = Fields;

    open spec fn view(&self) -> Fields {
        Fields {
            content: self.content@,
            on: self.on.deep_view(),
            datetime: self.datetime@,
            todo: Some((self.priority, self.complete)),
        }
    }
}

impl View for Tacked {
    type V = Fields;

    open spec fn view(&self) -> Fields {
        match self {
            Tacked::Note(note) => note@,
            Tacked::ToDo(todo) => todo@,
        }
    }
}

/// The date of an item as it is shown: chrono's rendering of the timestamp,
/// or the timestamp as it stands where chrono cannot read it.
pub open spec fn shown_date(item: Fields) -> Seq<char> {
    match shown_time(item.datetime, date_pattern()) {
        Some(shown) => shown,
        None => item.datetime,
    }
}

/// The part of a full note's head that tells of a to-do item.
pub open spec fn todo_info(todo: Option<(i8, bool)>) -> Seq<char> {
    match todo {
        Some((priority, _)) => "TO DO p"@ + signed_decimal(priority as int) + " "@,
        None => Seq::empty(),
    }
}

/// The line of a full note that names the file it is on.
pub open spec fn on_line(on: Option<Seq<char>>) -> Seq<char> {
    match on {
        Some(path) => "On: "@ + path + "\n"@,
        None => Seq::empty(),
    }
}

/// The full form of an item: a head line with the short identifier, the
/// to-do priority if there is one, and the date; a line for the file if there
/// is one; then the content.
pub open spec fn full_text(item: Fields) -> Seq<char> {
    "("@ + short_form(id_of(item)) + ") "@ + todo_info(item.todo) + shown_date(item) + "\n"@
        + on_line(item.on) + item.content
}

/// The short identifier in brackets, then the first line of the content.
pub open spec fn line_head(item: Fields) -> Seq<char> {
    "("@ + short_form(id_of(item)) + ") "@ + first_line(item.content)
}

/// The one-line form of an item: `line_head` cut to `LINE_WIDTH` characters,
/// then an ellipsis.
pub open spec fn oneline_text(item: Fields) -> Seq<char> {
    clipped(line_head(item), LINE_WIDTH as int) + "..."@
}

/// The box that shows whether a to-do item is complete.
pub open spec fn check_box(complete: bool) -> Seq<char> {
    if complete {
        "[V] "@
    } else {
        "[ ] "@
    }
}

/// The to-do line of an item that is complete or not: its check box and
/// `line_head`, cut to `LINE_WIDTH` characters, then an ellipsis.
pub open spec fn todo_line_text(item: Fields, complete: bool) -> Seq<char> {
    clipped(check_box(complete) + line_head(item), LINE_WIDTH as int) + "..."@
}

/// The priority and the to-do line of a to-do item; `None` for a note.
pub open spec fn todo_entry(item: Fields) -> Option<(i8, Seq<char>)> {
    match item.todo {
        Some((priority, complete)) => Some((priority, todo_line_text(item, complete))),
        None => None,
    }
}

/// The simple form of a note: the short identifier and the timestamp on one
/// line, then the file it is on, if any, and the content.
pub open spec fn note_simple_text(item: Fields) -> Seq<char> {
    "["@ + short_form(id_of(item)) + "] "@ + item.datetime + "\n"@ + (match item.on {
        Some(path) => "On "@ + path + ": "@,
        None => Seq::empty(),
    }) + item.content + "\n"@
}

/// The simple form of a to-do item that is complete or not: a check box and
/// the content.
pub open spec fn todo_simple_text(item: Fields, complete: bool) -> Seq<char> {
    (if complete {
        "[X] "@
    } else {
        "[ ] "@
    }) + item.content + "\n"@
}

/// The simple form of any item.
pub open spec fn simple_form(item: Fields) -> Seq<char> {
    match item.todo {
        Some((_, complete)) => todo_simple_text(item, complete),
        None => note_simple_text(item),
    }
}

/// What every kind of item can do: give its fields, its identifier and its
/// forms for display.
pub trait Tackable {
    /// The fields of the item.
    spec fn fields(&self) -> Fields;

    /// The text of `show_simple`.
    spec fn simple_text(&self) -> Seq<char>;

    /// The text of `show_verbose`.
    spec fn verbose_text(&self) -> Seq<char>;

    /// The content of the item.
    fn content(&self) -> (content: &String)
        ensures
            content@ == self.fields().content,
    ;

    /// The file that the item is on, if any.
    fn on(&self) -> (on: &Option<String>)
        ensures
            on.deep_view() == self.fields().on,
    ;

    /// When the item was made.
    fn datetime(&self) -> (datetime: &String)
        ensures
            datetime@ == self.fields().datetime,
    ;

    /// The priority of a to-do item and whether it is complete; `None` for a
    /// note.
    fn todo(&self) -> (todo: Option<(i8, bool)>)
        ensures
            todo == self.fields().todo,
    ;

    /// The identifier of the item. It depends on the fields alone: items with
    /// the same fields have the same identifier, wherever they stand.
    fn gen_id(&self) -> (id: String)
        ensures
            id@ == id_of(self.fields()),
            id@.len() == crate::ident::ID_WIDTH,
    {
        identify(self.content().as_str(), self.on(), self.datetime().as_str(), self.todo())
    }

    /// The simple or the verbose form of the item.
    fn show(&self, verbose: bool) -> (out: String)
        ensures
            out@ == (if verbose {
                self.verbose_text()
            } else {
                self.simple_text()
            }),
    {
        if verbose {
            self.show_verbose()
        } else {
            self.show_simple()
        }
    }

    /// The simple form of the item.
    fn show_simple(&self) -> (out: String)
        ensures
            out@ == self.simple_text(),
    ;

    /// The verbose form of the item.
    fn show_verbose(&self) -> (out: String)
        ensures
            out@ == self.verbose_text(),
    ;

    /// The full form of the item, over several lines.
    fn full_note(&self) -> (out: String)
        ensures
            out@ == full_text(self.fields()),
    {
        let id = self.gen_id();
        let mut out = String::from_str("(");
        out.append(short_id(id.as_str()));
        out.append(") ");
        match self.todo() {
            Some((priority, _)) => {
                out.append("TO DO p");
                let number = signed_decimal_of(priority);
                out.append(number.as_str());
                out.append(" ");
            },
            None => {},
        }
        assert(out@ =~= "("@ + short_form(id_of(self.fields())) + ") "@ + todo_info(
            self.fields().todo,
        ));
        match display_time(self.datetime().as_str(), date_format()) {
            Some(shown) => {
                out.append(shown.as_str());
            },
            None => {
                out.append(self.datetime().as_str());
            },
        }
        out.append("\n");
        match self.on() {
            Some(path) => {
                out.append("On: ");
                out.append(path.as_str());
                out.append("\n");
            },
            None => {},
        }
        out.append(self.content().as_str());
        assert(out@ =~= full_text(self.fields()));
        out
    }

    /// The one-line form of the item.
    fn oneliner(&self) -> (out: String)
        ensures
            out@ == oneline_text(self.fields()),
    {
        let id = self.gen_id();
        let mut head = String::from_str("(");
        head.append(short_id(id.as_str()));
        head.append(") ");
        head.append(first_line_of(self.content().as_str()));
        let mut out = String::from_str(clip(head.as_str(), LINE_WIDTH));
        out.append("...");
        out
    }

    /// The priority and the to-do line of a to-do item; `None` for a note.
    fn todo_item(&self) -> (entry: Option<(i8, String)>)
        ensures
            (match entry {
                Some((priority, line)) => todo_entry(self.fields()) == Some((priority, line@)),
                None => todo_entry(self.fields()) is None,
            }),
    {
        match self.todo() {
            Some((priority, complete)) => {
                let id = self.gen_id();
                let mut head = String::from_str(if complete { "[V] " } else { "[ ] " });
                head.append("(");
                head.append(short_id(id.as_str()));
                head.append(") ");
                head.append(first_line_of(self.content().as_str()));
                assert(head@ =~= check_box(complete) + line_head(self.fields()));
                let mut line = String::from_str(clip(head.as_str(), LINE_WIDTH));
                line.append("...");
                Some((priority, line))
            },
            None => None,
        }
    }
}

impl Tackable for Note {
    open spec fn fields(&self) -> Fields {
        self@
    }

    open spec fn simple_text(&self) -> Seq<char> {
        note_simple_text(self@)
    }

    open spec fn verbose_text(&self) -> Seq<char> {
        self.simple_text()
    }

    fn content(&self) -> (content: &String) {
        &self.content
    }

    fn on(&self) -> (on: &Option<String>) {
        &self.on
    }

    fn datetime(&self) -> (datetime: &String) {
        &self.datetime
    }

    fn todo(&self) -> (todo: Option<(i8, bool)>) {
        None
    }

    fn show_simple(&self) -> (out: String) {
        let id = self.gen_id();
        let mut out = String::from_str("[");
        out.append(short_id(id.as_str()));
        out.append("] ");
        out.append(self.datetime.as_str());
        out.append("\n");
        match &self.on {
            Some(path) => {
                out.append("On ");
                out.append(path.as_str());
                out.append(": ");
            },
            None => {},
        }
        out.append(self.content.as_str());
        out.append("\n");
        assert(out@ =~= note_simple_text(self@));
        out
    }

    fn show_verbose(&self) -> (out: String) {
        self.show_simple()
    }
}

impl Tackable for ToDo {
    open spec fn fields(&self) -> Fields {
        self@
    }

    open spec fn simple_text(&self) -> Seq<char> {
        todo_simple_text(self@, self.complete)
    }

    open spec fn verbose_text(&self) -> Seq<char> {
        self.simple_text()
    }

    fn content(&self) -> (content: &String) {
        &self.content
    }

    fn on(&self) -> (on: &Option<String>) {
        &self.on
    }

    fn datetime(&self) -> (datetime: &String) {
        &self.datetime
    }

    fn todo(&self) -> (todo: Option<(i8, bool)>) {
        Some((self.priority, self.complete))
    }

    fn show_simple(&self) -> (out: String) {
        let mut out = String::from_str(if self.complete { "[X] " } else { "[ ] " });
        out.append(self.content.as_str());
        out.append("\n");
        out
    }

    fn show_verbose(&self) -> (out: String) {
        self.show_simple()
    }
}

impl Tackable for Tacked {
    open spec fn fields(&self) -> Fields {
        self@
    }

    open spec fn simple_text(&self) -> Seq<char> {
        simple_form(self@)
    }

    open spec fn verbose_text(&self) -> Seq<char> {
        self.simple_text()
    }

    fn content(&self) -> (content: &String) {
        match self {
            Tacked::Note(note) => &note.content,
            Tacked::ToDo(todo) => &todo.content,
        }
    }

    fn on(&self) -> (on: &Option<String>) {
        match self {
            Tacked::Note(note) => &note.on,
            Tacked::ToDo(todo) => &todo.on,
        }
    }

    fn datetime(&self) -> (datetime: &String) {
        match self {
            Tacked::Note(note) => &note.datetime,
            Tacked::ToDo(todo) => &todo.datetime,
        }
    }

    fn todo(&self) -> (todo: Option<(i8, bool)>) {
        match self {
            Tacked::Note(_) => None,
            Tacked::ToDo(todo) => Some((todo.priority, todo.complete)),
        }
    }

    fn show_simple(&self) -> (out: String) {
        match self {
            Tacked::Note(note) => note.show_simple(),
            Tacked::ToDo(todo) => todo.show_simple(),
        }
    }

    fn show_verbose(&self) -> (out: String) {
        self.show_simple()
    }
}

impl Tacked {
    /// The identifier of the item.
    pub fn get_id(&self) -> (id: String)
        ensures
            id@ == id_of(self@),
            id@.len() == crate::ident::ID_WIDTH,
    {
        match self {
            Tacked::Note(note) => note.gen_id(),
            Tacked::ToDo(todo) => todo.gen_id(),
        }
    }

    /// The file that the item is on, if any.
    pub fn get_on(&self) -> (on: &Option<String>)
        ensures
            on.deep_view() == self@.on,
    {
        match self {
            Tacked::Note(note) => &note.on,
            Tacked::ToDo(todo) => &todo.on,
        }
    }

    /// The simple form of the item.
    pub fn show(&self) -> (out: String)
        ensures
            out@ == simple_form(self@),
    {
        match self {
            Tacked::Note(note) => note.show(false),
            Tacked::ToDo(todo) => todo.show(false),
        }
    }
}

} // verus!
