//! Making a new to-do item.

use vstd::prelude::*;
use crate::error::TackError;
use crate::note::{create_note, is_creation};
use crate::tackables::Tacked;

verus! {

/// The priority of a to-do item that is made without one.
pub const DEFAULT_PRIORITY: i8 = 3;

/// Whether a store went from `before` to `after`, with `outcome`, as a
/// request for a new to-do item asks: refused without a project, else made
/// as a note is, with the default priority and not complete.
pub open spec fn is_todo_run(
    before: Seq<Tacked>,
    after: Seq<Tacked>,
    outcome: Result<(), TackError>,
    maybe_tacked: Option<Seq<Seq<char>>>,
    content: Seq<char>,
    maybe_on: Option<Seq<Seq<char>>>,
) -> bool {
    match maybe_tacked {
        None => outcome == Err::<(), TackError>(TackError::NoProjectFound) && after == before,
        Some(tacked_dir) => is_creation(
            before,
            after,
            outcome,
            content,
            maybe_on,
            Some((DEFAULT_PRIORITY, false)),
            tacked_dir,
        ),
    }
}

/// Appends a new to-do item, made now, to `notes`: one of the default
/// priority that is not complete. It is refused as `create_note` refuses a
/// note, and `notes` then stays as it was.
pub fn create_todo(
    content: String,
    maybe_on: Option<&Vec<String>>,
    tacked_dir: &Vec<String>,
    notes: &mut Vec<Tacked>,
) -> (outcome: Result<(), TackError>)
    ensures
        is_creation(
            old(notes)@,
            final(notes)@,
            outcome,
            content@,
            maybe_on.deep_view(),
            Some((DEFAULT_PRIORITY, false)),
            tacked_dir.deep_view(),
        ),
{
    create_note(content, maybe_on, Some((DEFAULT_PRIORITY, false)), tacked_dir, notes)
}

/// Carries out a request for a new to-do item.
///
/// `maybe_tacked` is the marker directory of the project, if one was found,
/// and `notes` the store of that project. Without a project the request is
/// refused; else the item is made as `create_todo` makes it.
pub fn run_todo(
    maybe_tacked: Option<&Vec<String>>,
    content: String,
    maybe_on: Option<&Vec<String>>,
    notes: &mut Vec<Tacked>,
) -> (outcome: Result<(), TackError>)
    ensures
        is_todo_run(
            old(notes)@,
            final(notes)@,
            outcome,
            maybe_tacked.deep_view(),
            content@,
            maybe_on.deep_view(),
        ),
{
    match maybe_tacked {
        None => Err(TackError::NoProjectFound),
        Some(tacked_dir) => create_todo(content, maybe_on, tacked_dir, notes),
    }
}

} // verus!
