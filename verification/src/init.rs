//! Deciding whether a new project may start in a directory.

use vstd::prelude::*;
use crate::error::TackError;
use crate::tack_store::marker;
use crate::text::same_text;

verus! {

/// What to do next about a project that was found above a new one.
#[derive(Clone, Copy, Debug, PartialEq, Eq)]
pub enum Query {
    /// Tell the user of the project found and ask whether to go on; then
    /// read an answer.
    Ask,
    /// The answer was neither yes nor no: read another.
    AskAgain,
    /// The user has decided: go on, or leave it.
    Decided(bool),
}

/// What to do next about a request for a new project.
#[derive(Clone, Copy, Debug, PartialEq, Eq)]
pub enum InitStep {
    /// Tell the user of the project found above and ask whether to go on;
    /// then read an answer.
    Ask,
    /// The answer was neither yes nor no: read another.
    AskAgain,
    /// Make the marker directory.
    Create,
    /// Leave things as they are.
    Leave,
}

/// What an answer says: yes for `y` or `yes`, no for `n` or `no`, nothing
/// for anything else.
pub open spec fn answer_of(response: Seq<char>) -> Option<bool> {
    if response == "y"@ || response == "yes"@ {
        Some(true)
    } else if response == "n"@ || response == "no"@ {
        Some(false)
    } else {
        None
    }
}

/// What `query_init` returns.
pub open spec fn init_query(
    cwd: Seq<Seq<char>>,
    tacked_loc: Seq<Seq<char>>,
    response: Option<Seq<char>>,
) -> Result<Query, TackError> {
    if tacked_loc == cwd.push(marker()) {
        Err(TackError::AlreadyInitialized)
    } else {
        match response {
            None => Ok(Query::Ask),
            Some(text) => match answer_of(text) {
                Some(go_on) => Ok(Query::Decided(go_on)),
                None => Ok(Query::AskAgain),
            },
        }
    }
}

/// What `run_init` returns. Where no marker was found there is nothing to
/// ask. Else `init_query` decides: its error stands; its question is handed
/// on; and its decision makes the marker directory or leaves things as they
/// are.
pub open spec fn init_run(
    cwd: Seq<Seq<char>>,
    maybe_tacked: Option<Seq<Seq<char>>>,
    response: Option<Seq<char>>,
) -> Result<InitStep, TackError> {
    match maybe_tacked {
        None => Ok(InitStep::Create),
        Some(tacked_loc) => match init_query(cwd, tacked_loc, response) {
            Err(refusal) => Err(refusal),
            Ok(Query::Ask) => Ok(InitStep::Ask),
            Ok(Query::AskAgain) => Ok(InitStep::AskAgain),
            Ok(Query::Decided(true)) => Ok(InitStep::Create),
            Ok(Query::Decided(false)) => Ok(InitStep::Leave),
        },
    }
}

/// Reads an answer to a yes-or-no question.
pub fn read_answer(response: &str) -> (answer: Option<bool>)
    ensures
        answer == answer_of(response@),
{
    if same_text(response, "y") || same_text(response, "yes") {
        Some(true)
    } else if same_text(response, "n") || same_text(response, "no") {
        Some(false)
    } else {
        None
    }
}

/// Tells whether `tacked_loc` is the marker directory in `cwd` itself.
fn is_marker_of(cwd: &Vec<String>, tacked_loc: &Vec<String>) -> (r: bool)
    ensures
        r == (tacked_loc.deep_view() == cwd.deep_view().push(marker())),
{
    let n: usize = cwd.len();
    if tacked_loc.len() == 0 || tacked_loc.len() - 1 != n {
        assert(tacked_loc.deep_view().len() != cwd.deep_view().push(marker()).len());
        return false;
    }
    if !same_text(tacked_loc[n].as_str(), ".tacked") {
        assert(tacked_loc.deep_view()[n as int] != cwd.deep_view().push(marker())[n as int]);
        return false;
    }
    let mut i: usize = 0;
    while i < n
        invariant
            i <= n,
            n == cwd.len(),
            tacked_loc.len() == n + 1,
            forall|j: int| 0 <= j < i ==> tacked_loc.deep_view()[j] == cwd.deep_view()[j],
        decreases n - i,
    {
        if !same_text(tacked_loc[i].as_str(), cwd[i].as_str()) {
            assert(tacked_loc.deep_view()[i as int] != cwd.deep_view().push(marker())[i as int]);
            return false;
        }
        i += 1;
    }
    assert(tacked_loc.deep_view() =~= cwd.deep_view().push(marker()));
    true
}

/// Decides how to go on when a new project is asked for in `cwd` and the
/// marker directory `tacked_loc` was found there or above.
///
/// A marker in `cwd` itself is an error: the directory is a project already.
/// Else the user decides. `response` is the last answer read, `None` before
/// the first: the result says to ask, to read again, or what was decided.
pub fn query_init(cwd: &Vec<String>, tacked_loc: &Vec<String>, response: Option<&str>) -> (next:
    Result<Query, TackError>)
    ensures
        next == init_query(cwd.deep_view(), tacked_loc.deep_view(), response.deep_view()),
{
    if is_marker_of(cwd, tacked_loc) {
        return Err(TackError::AlreadyInitialized);
    }
    match response {
        None => Ok(Query::Ask),
        Some(text) => match read_answer(text) {
            Some(go_on) => Ok(Query::Decided(go_on)),
            None => Ok(Query::AskAgain),
        },
    }
}

/// Carries out a request for a new project in `cwd`, as far as it can go.
///
/// `maybe_tacked` is the marker directory found in `cwd` or above, if any,
/// and `response` the last answer read, `None` before the first. The result
/// says what to do next: ask, read again, make the marker directory, or
/// leave things as they are.
pub fn run_init(cwd: &Vec<String>, maybe_tacked: Option<&Vec<String>>, response: Option<&str>) -> (next:
    Result<InitStep, TackError>)
    ensures
        next == init_run(cwd.deep_view(), maybe_tacked.deep_view(), response.deep_view()),
{
    match maybe_tacked {
        None => Ok(InitStep::Create),
        Some(tacked_loc) => match query_init(cwd, tacked_loc, response) {
            Err(refusal) => Err(refusal),
            Ok(Query::Ask) => Ok(InitStep::Ask),
            Ok(Query::AskAgain) => Ok(InitStep::AskAgain),
            Ok(Query::Decided(true)) => Ok(InitStep::Create),
            Ok(Query::Decided(false)) => Ok(InitStep::Leave),
        },
    }
}

} // verus!
