//! Notes and to-do items, tacked onto a project.
//!
//! A project is a directory tree with a marker directory, `.tacked`, at its
//! root. The items of a project form one ordered store; each item is named
//! by an identifier that is a digest of its fields, and is addressed by any
//! prefix of it that no other identifier shares.
//!
//! The library decides and computes; it reads no file, no directory and no
//! terminal. Paths come in as their components, directory listings as plain
//! values, and the store as a vector of items that the caller has loaded and
//! will save.
//!
//! - [`run`] carries out a [`Request`], step by step where the user or the
//!   editor has to be asked in between.
//! - [`tack_store`] finds the marker directory, places paths in a project
//!   and checks a store that was read.
//! - [`tackables`] holds the kinds of item and their forms for display.
//! - [`ident`] computes identifiers.
//! - [`note`] and [`todo`] make new items, [`rm`] removes one, [`show`]
//!   lists them.
//! - [`init`] decides whether a new project may start in a directory.
//! - [`error`] names what can go wrong, [`clock`] tells and writes the time,
//!   and [`text`] holds the helpers on text.

pub mod clock;
pub mod error;
pub mod ident;
pub mod init;
pub mod note;
pub mod rm;
pub mod show;
pub mod tack_store;
pub mod tackables;
pub mod text;
pub mod todo;

use vstd::prelude::*;
use crate::error::TackError;
use crate::init::{init_run, run_init, InitStep};
use crate::note::{is_note_run, run_note, NoteStep};
use crate::rm::{is_rm_run, run_rm};
use crate::show::{fields_of, is_showing, run_show};
use crate::tackables::Tacked;
use crate::todo::{is_todo_run, run_todo};

verus! {

/// What the user asks for, with everything that the command line says of
/// it. Paths of files are given by their components, with links resolved.
#[derive(Clone, Debug, PartialEq, Eq)]
pub enum Request {
    /// Start a project in the current directory. `response` is the last
    /// answer of the user, `None` while none was asked for.
    Init { response: Option<String> },
    /// Make a note, or a to-do item where the flag and a priority are given.
    /// `content` is `None` where it is to come from the editor.
    Note { content: Option<String>, on: Option<Vec<String>>, todo: bool, priority: Option<String> },
    /// Make a to-do item of the default priority.
    Todo { content: String, on: Option<Vec<String>> },
    /// Show the items, or those on one file, in one of the views.
    Show { on: Option<String>, oneline: bool, todo: bool },
    /// Remove the item whose identifier begins with `id`.
    Rm { id: Option<String> },
}

/// What came of a request.
#[derive(Clone, Debug, PartialEq, Eq)]
pub enum Reply {
    /// What to do next about a new project.
    Init(InitStep),
    /// How far a new note has come.
    Note(NoteStep),
    /// The to-do item was made and stands last in the store.
    Todo,
    /// What is to be shown.
    Show(String),
    /// Whether an item was removed.
    Rm(bool),
}

/// Whether a store went from `before` to `after`, with `outcome`, as
/// `request` asks: each kind of request is carried out as the function of
/// its kind does, and only a new item or a removal changes the store.
pub open spec fn is_run(
    before: Seq<Tacked>,
    after: Seq<Tacked>,
    outcome: Result<Reply, TackError>,
    request: Request,
    cwd: Seq<Seq<char>>,
    maybe_tacked: Option<Seq<Seq<char>>>,
) -> bool {
    match request {
        Request::Init { response } => {
            &&& after == before
            &&& match outcome {
                Ok(Reply::Init(step)) => init_run(cwd, maybe_tacked, response.deep_view()) == Ok::<
                    InitStep,
                    TackError,
                >(step),
                Ok(_) => false,
                Err(refusal) => init_run(cwd, maybe_tacked, response.deep_view()) == Err::<
                    InitStep,
                    TackError,
                >(refusal),
            }
        },
        Request::Note { content, on, todo, priority } => match outcome {
            Ok(Reply::Note(step)) => is_note_run(
                before,
                after,
                Ok(step),
                maybe_tacked,
                content.deep_view(),
                on.deep_view(),
                todo,
                priority.deep_view(),
            ),
            Ok(_) => false,
            Err(refusal) => is_note_run(
                before,
                after,
                Err(refusal),
                maybe_tacked,
                content.deep_view(),
                on.deep_view(),
                todo,
                priority.deep_view(),
            ),
        },
        Request::Todo { content, on } => match outcome {
            Ok(Reply::Todo) => is_todo_run(
                before,
                after,
                Ok(()),
                maybe_tacked,
                content@,
                on.deep_view(),
            ),
            Ok(_) => false,
            Err(refusal) => is_todo_run(
                before,
                after,
                Err(refusal),
                maybe_tacked,
                content@,
                on.deep_view(),
            ),
        },
        Request::Show { on, oneline, todo } => {
            &&& after == before
            &&& match outcome {
                Ok(Reply::Show(out)) => maybe_tacked is Some && is_showing(
                    fields_of(before),
                    out@,
                    on.deep_view(),
                    oneline,
                    todo,
                ),
                Ok(_) => false,
                Err(TackError::NoProjectFound) => maybe_tacked is None,
                Err(_) => false,
            }
        },
        Request::Rm { id } => match outcome {
            Ok(Reply::Rm(removed)) => is_rm_run(
                before,
                after,
                Ok(removed),
                maybe_tacked is Some,
                id.deep_view(),
            ),
            Ok(_) => false,
            Err(refusal) => is_rm_run(
                before,
                after,
                Err(refusal),
                maybe_tacked is Some,
                id.deep_view(),
            ),
        },
    }
}

/// Carries out a request, as far as it can go.
///
/// `cwd` is the current directory, `maybe_tacked` the marker directory found
/// there or above, if any, and `notes` the store of that project. The reply
/// tells what was done or what is wanted next: a request to start a project
/// or to make a note may have to come again, with an answer or with content.
pub fn run(
    request: Request,
    cwd: &Vec<String>,
    maybe_tacked: Option<&Vec<String>>,
    notes: &mut Vec<Tacked>,
) -> (outcome: Result<Reply, TackError>)
    ensures
        is_run(
            old(notes)@,
            final(notes)@,
            outcome,
            request,
            cwd.deep_view(),
            maybe_tacked.deep_view(),
        ),
{
    match request {
        Request::Init { response } => {
            let answer = match &response {
                Some(text) => Some(text.as_str()),
                None => None,
            };
            match run_init(cwd, maybe_tacked, answer) {
                Ok(step) => Ok(Reply::Init(step)),
                Err(refusal) => Err(refusal),
            }
        },
        Request::Note { content, on, todo, priority } => {
            let target = match &on {
                Some(path) => Some(path),
                None => None,
            };
            let rank = match &priority {
                Some(text) => Some(text.as_str()),
                None => None,
            };
            match run_note(maybe_tacked, content, target, todo, rank, notes) {
                Ok(step) => Ok(Reply::Note(step)),
                Err(refusal) => Err(refusal),
            }
        },
        Request::Todo { content, on } => {
            let target = match &on {
                Some(path) => Some(path),
                None => None,
            };
            match run_todo(maybe_tacked, content, target, notes) {
                Ok(()) => Ok(Reply::Todo),
                Err(refusal) => Err(refusal),
            }
        },
        Request::Show { on, oneline, todo } => {
            let target = match &on {
                Some(text) => Some(text.as_str()),
                None => None,
            };
            match run_show(maybe_tacked, target, oneline, todo, notes) {
                Ok(out) => Ok(Reply::Show(out)),
                Err(refusal) => Err(refusal),
            }
        },
        Request::Rm { id } => {
            let prefix = match &id {
                Some(text) => Some(text.as_str()),
                None => None,
            };
            match run_rm(maybe_tacked, prefix, notes) {
                Ok(removed) => Ok(Reply::Rm(removed)),
                Err(refusal) => Err(refusal),
            }
        },
    }
}

} // verus!
