//! The ways in which a command on the note store can fail.

use vstd::prelude::*;
use crate::text::{join, joined};

verus! {

/// Why a command was refused. Every failure ends the command; nothing is
/// retried and nothing is written.
#[derive(Clone, Debug, PartialEq, Eq)]
pub enum TackError {
    /// No marker directory stands in the starting directory or above it.
    NoProjectFound,
    /// A marker directory already stands where a new one was asked for.
    AlreadyInitialized,
    /// The target of a note lies outside the project; holds the target's path.
    PathOutsideProject(String),
    /// The content of a new item is empty or only whitespace.
    EmptyContent,
    /// No item's identifier begins with the prefix given.
    NotFound,
    /// Several identifiers begin with the prefix given; holds the short form
    /// of each, in store order.
    Ambiguous(Vec<String>),
    /// The store's document could not be read back; holds the reader's words.
    StoreCorrupt(String),
    /// A priority is no decimal number between -128 and 127.
    PriorityOutOfRange,
}

impl TackError {
    /// The text of `message`.
    pub open spec fn message_text(self) -> Seq<char> {
        match self {
            TackError::NoProjectFound => "No `.tacked` directory found. Run `init` before adding notes."@,
            TackError::AlreadyInitialized => "Current directory already has notes tacked on."@,
            TackError::PathOutsideProject(path) => path@ + " is outside of the tack-it-on project."@,
            TackError::EmptyContent => "Note has no content. Aborting."@,
            TackError::NotFound => "No notes matching that ID."@,
            TackError::Ambiguous(ids) => "ID portion not unique, increase length. Could be:\n    "@
                + joined(ids.deep_view(), "\n    "@),
            TackError::StoreCorrupt(detail) => "The note store cannot be read: "@ + detail@,
            TackError::PriorityOutOfRange => "Priority outside possible range of -128 to 127."@,
        }
    }

    /// What to tell the user about this failure.
    pub fn message(&self) -> (out: String)
        ensures
            out@ == self.message_text(),
    {
        match self {
            TackError::NoProjectFound => String::from_str(
                "No `.tacked` directory found. Run `init` before adding notes.",
            ),
            TackError::AlreadyInitialized => String::from_str(
                "Current directory already has notes tacked on.",
            ),
            TackError::PathOutsideProject(path) => {
                let mut out = path.clone();
                out.append(" is outside of the tack-it-on project.");
                out
            },
            TackError::EmptyContent => String::from_str("Note has no content. Aborting."),
            TackError::NotFound => String::from_str("No notes matching that ID."),
            TackError::Ambiguous(ids) => {
                let mut out = String::from_str(
                    "ID portion not unique, increase length. Could be:\n    ",
                );
                let list = join(ids, "\n    ");
                out.append(list.as_str());
                out
            },
            TackError::StoreCorrupt(detail) => {
                let mut out = String::from_str("The note store cannot be read: ");
                out.append(detail.as_str());
                out
            },
            TackError::PriorityOutOfRange => String::from_str(
                "Priority outside possible range of -128 to 127.",
            ),
        }
    }
}

} // verus!
