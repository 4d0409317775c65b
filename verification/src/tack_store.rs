//! Finding the marker directory of a project, and placing a path within the
//! project.
//!
//! A path is the sequence of its components, the root first: `/a/b` is
//! `["/", "a", "b"]`. Nothing here touches the file system: whoever calls
//! resolves links and lists directories, and hands in what it found.

use vstd::prelude::*;
use crate::clock::{is_stamp, readable};
use crate::error::TackError;
use crate::tackables::{Tackable, Tacked};
use crate::text::{
    join, joined, lemma_deep_view_push, lemma_position, lemma_position_unique, position, same_text,
};

verus! {

/// One entry of a directory, as its listing shows it.
#[derive(Clone, Debug, PartialEq, Eq)]
pub struct DirEntry {
    /// The entry's name within its directory.
    pub name: String,
    /// Whether the entry is a directory.
    pub is_dir: bool,
}

/// What `find_tack_store` has to say after the listings it was given.
#[derive(Clone, Debug, PartialEq, Eq)]
pub enum Search {
    /// The marker directory, with its path.
    Found(Vec<String>),
    /// No marker so far: the listing of this directory is wanted next.
    List(Vec<String>),
    /// No marker from the starting directory up to the root.
    NotFound,
}

/// The name of the marker directory.
pub open spec fn marker() -> Seq<char> {
    ".tacked"@
}

/// Whether `entry` is a marker: a directory of the marker's name. A file of
/// that name marks nothing.
pub open spec fn is_marker(entry: DirEntry) -> bool {
    entry.is_dir && entry.name@ == marker()
}

/// Whether a directory with these entries is the root of a project.
pub open spec fn holds_marker(entries: Seq<DirEntry>) -> bool {
    exists|i: int| 0 <= i < entries.len() && is_marker(#[trigger] entries[i])
}

/// The directory `dir` and all above it, the deepest first: each is `dir`
/// without some of its last components, down to the first component alone.
pub open spec fn ancestors(dir: Seq<Seq<char>>) -> Seq<Seq<Seq<char>>> {
    Seq::new(dir.len(), |i: int| dir.take(dir.len() - i))
}

/// Whether none of the first `n` listings shows a marker.
pub open spec fn unmarked(listings: Seq<Vec<DirEntry>>, n: int) -> bool {
    forall|j: int| 0 <= j < n && j < listings.len() ==> !holds_marker((#[trigger] listings[j])@)
}

/// The name of the project directory, which holds the marker directory
/// `tacked_dir`: the last component but one. A path of fewer than two
/// components has none.
pub open spec fn project_name(tacked_dir: Seq<Seq<char>>) -> Option<Seq<char>> {
    if tacked_dir.len() >= 2 {
        Some(tacked_dir[tacked_dir.len() - 2])
    } else {
        None
    }
}

/// The project directory: the one that holds the marker directory
/// `tacked_dir`.
pub open spec fn project_dir(tacked_dir: Seq<Seq<char>>) -> Seq<Seq<char>> {
    tacked_dir.drop_last()
}

/// The components of `path` that follow the first one named like the project
/// directory; `None` where no component of `path` has that name.
pub open spec fn relative_to(path: Seq<Seq<char>>, tacked_dir: Seq<Seq<char>>) -> Option<
    Seq<Seq<char>>,
> {
    match project_name(tacked_dir) {
        Some(name) => if position(path, name) < path.len() {
            Some(path.skip(position(path, name) + 1))
        } else {
            None
        },
        None => None,
    }
}

/// The text of a path: its components with `/` between them, after the root
/// if it starts at the root.
pub open spec fn path_text(path: Seq<Seq<char>>) -> Seq<char> {
    if path.len() > 0 && path[0] == "/"@ {
        "/"@ + joined(path.skip(1), "/"@)
    } else {
        joined(path, "/"@)
    }
}

/// What `short_on_path` returns for a target and a marker directory.
pub open spec fn short_on(maybe_on: Option<Seq<Seq<char>>>, tacked_dir: Seq<Seq<char>>) -> Result<
    Option<Seq<char>>,
    Seq<char>,
> {
    match maybe_on {
        None => Ok(None),
        Some(path) => match relative_to(path, tacked_dir) {
            Some(rest) => Ok(Some(joined(rest, "/"@))),
            None => Err(path_text(path)),
        },
    }
}

/// The name of the document that holds the store, in the marker directory.
pub open spec fn document_name() -> Seq<char> {
    "notes.json"@
}

/// Whether every one of the first `n` items holds a timestamp that can be
/// read.
pub open spec fn all_dated(notes: Seq<Tacked>, n: int) -> bool {
    forall|j: int| 0 <= j < n && j < notes.len() ==> is_stamp((#[trigger] notes[j])@.datetime)
}

/// Whether the item at `i` is the first with a timestamp that cannot be
/// read.
pub open spec fn is_first_undated(notes: Seq<Tacked>, i: int) -> bool {
    0 <= i < notes.len() && all_dated(notes, i) && !is_stamp(notes[i]@.datetime)
}

/// What the error says of a store with a timestamp that cannot be read.
pub open spec fn stamp_detail(stamp: Seq<char>) -> Seq<char> {
    "a timestamp cannot be read: "@ + stamp
}

/// Whether `store` is what `get_tacked` makes of what was read.
pub open spec fn is_store(
    tacked_dir: Seq<Seq<char>>,
    loaded: Option<Vec<Tacked>>,
    store: Result<(Vec<String>, Vec<Tacked>), TackError>,
) -> bool {
    match store {
        Ok((path, notes)) => {
            &&& path.deep_view() == tacked_dir.push(document_name())
            &&& match loaded {
                None => notes@ == Seq::<Tacked>::empty(),
                Some(items) => notes == items && all_dated(items@, items.len() as int),
            }
        },
        Err(TackError::StoreCorrupt(detail)) => loaded matches Some(items) && exists|i: int|
            #[trigger] is_first_undated(items@, i) && detail@ == stamp_detail(
                items@[i]@.datetime,
            ),
        Err(_) => false,
    }
}

/// A copy of the components `from` to `to` of `path`.
fn components(path: &Vec<String>, from: usize, to: usize) -> (out: Vec<String>)
    requires
        from <= to <= path.len(),
    ensures
        out.deep_view() == path.deep_view().subrange(from as int, to as int),
{
    let mut out: Vec<String> = Vec::new();
    let mut i: usize = from;
    while i < to
        invariant
            from <= i <= to <= path.len(),
            out.deep_view() == path.deep_view().subrange(from as int, i as int),
        decreases to - i,
    {
        let ghost before = out;
        let name = path[i].clone();
        out.push(name);
        proof {
            lemma_deep_view_push(before, out, name);
        }
        assert(out.deep_view() =~= path.deep_view().subrange(from as int, i + 1));
        i += 1;
    }
    out
}

/// The path of the marker directory in the directory made of the first `len`
/// components of `dir`.
fn marker_in(dir: &Vec<String>, len: usize) -> (path: Vec<String>)
    requires
        len <= dir.len(),
    ensures
        path.deep_view() == dir.deep_view().take(len as int).push(marker()),
{
    let mut path = components(dir, 0, len);
    let ghost before = path;
    let name = String::from_str(".tacked");
    path.push(name);
    proof {
        lemma_deep_view_push(before, path, name);
    }
    path
}

/// The path of the marker directory of a project in `dir`.
pub fn tacked_path(dir: &Vec<String>) -> (path: Vec<String>)
    ensures
        path.deep_view() == dir.deep_view().push(marker()),
{
    assert(dir.deep_view().take(dir.len() as int) =~= dir.deep_view());
    marker_in(dir, dir.len())
}

/// The directory `dir` and every directory above it, the deepest first and
/// the root last.
pub fn paths_from_crawl(dir: &Vec<String>) -> (chain: Vec<Vec<String>>)
    ensures
        chain.deep_view() == ancestors(dir.deep_view()),
{
    let mut chain: Vec<Vec<String>> = Vec::new();
    let mut i: usize = 0;
    while i < dir.len()
        invariant
            i <= dir.len(),
            chain.deep_view() == ancestors(dir.deep_view()).take(i as int),
        decreases dir.len() - i,
    {
        let ghost before = chain;
        let above = components(dir, 0, dir.len() - i);
        chain.push(above);
        proof {
            lemma_deep_view_push(before, chain, above);
        }
        assert(chain.deep_view() =~= ancestors(dir.deep_view()).take(i + 1));
        i += 1;
    }
    assert(chain.deep_view() =~= ancestors(dir.deep_view()));
    chain
}

/// Tells whether `entries` shows a marker directory.
pub fn has_marker(entries: &Vec<DirEntry>) -> (found: bool)
    ensures
        found == holds_marker(entries@),
{
    let mut i: usize = 0;
    while i < entries.len()
        invariant
            i <= entries.len(),
            forall|j: int| 0 <= j < i ==> !is_marker(#[trigger] entries@[j]),
        decreases entries.len() - i,
    {
        if entries[i].is_dir && same_text(entries[i].name.as_str(), ".tacked") {
            return true;
        }
        i += 1;
    }
    false
}

/// The path of the marker directory in `dir`, where `entries`, the listing
/// of `dir`, shows one.
pub fn contains_notes(dir: &Vec<String>, entries: &Vec<DirEntry>) -> (found: Option<Vec<String>>)
    ensures
        (match found {
            Some(path) => holds_marker(entries@) && path.deep_view() == dir.deep_view().push(
                marker(),
            ),
            None => !holds_marker(entries@),
        }),
{
    if has_marker(entries) {
        Some(tacked_path(dir))
    } else {
        None
    }
}

/// Looks for the marker directory from `dir` upwards, one listing at a time.
///
/// `listings` holds the listings of the first directories of
/// `paths_from_crawl(dir)`, in that order, as far as they have been read.
/// The answer is the marker in the deepest directory that shows one; or,
/// where none of those listed shows one, the directory to list next; or that
/// there is no marker, once the root has been listed. Listings beyond the
/// root are not looked at.
pub fn find_tack_store(dir: &Vec<String>, listings: &Vec<Vec<DirEntry>>) -> (step: Search)
    ensures
        (match step {
            Search::Found(path) => exists|k: int|
                0 <= k < listings.len() && k < dir.len() && unmarked(listings@, k) && holds_marker(
                    (#[trigger] listings@[k])@,
                ) && path.deep_view() == ancestors(dir.deep_view())[k].push(marker()),
            Search::List(path) => unmarked(listings@, listings.len() as int) && listings.len()
                < dir.len() && path.deep_view() == ancestors(dir.deep_view())[listings.len() as int],
            Search::NotFound => unmarked(listings@, dir.len() as int) && listings.len()
                >= dir.len(),
        }),
{
    let chain = paths_from_crawl(dir);
    assert(chain.deep_view().len() == dir.len());
    let mut k: usize = 0;
    while k < chain.len() && k < listings.len()
        invariant
            chain.deep_view() == ancestors(dir.deep_view()),
            chain.len() == dir.len(),
            k <= chain.len(),
            k <= listings.len(),
            unmarked(listings@, k as int),
        decreases chain.len() - k,
    {
        if has_marker(&listings[k]) {
            let found = tacked_path(&chain[k]);
            proof {
                let above = chain@[k as int].deep_view();
                assert(above == chain.deep_view()[k as int]);
                assert(found.deep_view() == ancestors(dir.deep_view())[k as int].push(marker()));
            }
            return Search::Found(found);
        }
        k += 1;
    }
    if k < chain.len() {
        let next = components(&chain[k], 0, chain[k].len());
        proof {
            let above = chain@[k as int].deep_view();
            assert(above == chain.deep_view()[k as int]);
            assert(above.subrange(0, above.len() as int) =~= above);
        }
        Search::List(next)
    } else {
        Search::NotFound
    }
}

/// Writes a path as text.
pub fn path_string(path: &Vec<String>) -> (text: String)
    ensures
        text@ == path_text(path.deep_view()),
{
    if path.len() > 0 && same_text(path[0].as_str(), "/") {
        let rest = components(path, 1, path.len());
        let mut text = String::from_str("/");
        let tail = join(&rest, "/");
        text.append(tail.as_str());
        text
    } else {
        join(path, "/")
    }
}

/// The target of a note as a path within the project.
///
/// `maybe_on` holds the components of the target's resolved path, and
/// `tacked_dir` those of the marker directory. The target is looked through
/// for the first component named like the project directory, which holds the
/// marker directory; what follows it is the result, joined with `/`. A
/// target without such a component lies outside the project, and so does
/// every target where the marker directory has no directory above it; the
/// error holds the target's path.
pub fn short_on_path(maybe_on: Option<&Vec<String>>, tacked_dir: &Vec<String>) -> (short: Result<
    Option<String>,
    TackError,
>)
    ensures
        (match short {
            Ok(on) => short_on(maybe_on.deep_view(), tacked_dir.deep_view()) == Ok::<
                Option<Seq<char>>,
                Seq<char>,
            >(on.deep_view()),
            Err(TackError::PathOutsideProject(text)) => short_on(
                maybe_on.deep_view(),
                tacked_dir.deep_view(),
            ) == Err::<Option<Seq<char>>, Seq<char>>(text@),
            Err(_) => false,
        }),
{
    match maybe_on {
        None => Ok(None),
        Some(path) => {
            let mut cut: usize = path.len();
            if tacked_dir.len() >= 2 {
                let name = tacked_dir[tacked_dir.len() - 2].as_str();
                let mut i: usize = 0;
                while i < path.len() && !same_text(path[i].as_str(), name)
                    invariant
                        i <= path.len(),
                        name@ == tacked_dir.deep_view()[tacked_dir.len() - 2],
                        forall|j: int| 0 <= j < i ==> path.deep_view()[j] != name@,
                    decreases path.len() - i,
                {
                    i += 1;
                }
                proof {
                    lemma_position_unique(path.deep_view(), name@, i as int);
                }
                cut = i;
            }
            if cut < path.len() {
                let rest = components(path, cut + 1, path.len());
                Ok(Some(join(&rest, "/")))
            } else {
                Err(TackError::PathOutsideProject(path_string(path)))
            }
        },
    }
}

/// The path of the document that holds the store of the project with the
/// marker directory `tacked_dir`.
pub fn notes_path(tacked_dir: &Vec<String>) -> (path: Vec<String>)
    ensures
        path.deep_view() == tacked_dir.deep_view().push(document_name()),
{
    let mut path = components(tacked_dir, 0, tacked_dir.len());
    assert(path.deep_view() =~= tacked_dir.deep_view());
    let ghost before = path;
    let name = String::from_str("notes.json");
    path.push(name);
    proof {
        lemma_deep_view_push(before, path, name);
    }
    path
}

/// The store of a project, with the path of its document.
///
/// `loaded` holds the items that were read from the document, or `None`
/// where there is no document yet: the store is then empty, and that is no
/// error. Items that were read are the store as they stand, if every one of
/// them holds a timestamp that can be read; else the store is corrupt, and
/// the error shows the first timestamp that cannot be read.
pub fn get_tacked(tacked_dir: &Vec<String>, loaded: Option<Vec<Tacked>>) -> (store: Result<
    (Vec<String>, Vec<Tacked>),
    TackError,
>)
    ensures
        is_store(tacked_dir.deep_view(), loaded, store),
{
    match loaded {
        None => Ok((notes_path(tacked_dir), Vec::new())),
        Some(items) => {
            let mut i: usize = 0;
            while i < items.len()
                invariant
                    loaded == Some(items),
                    i <= items.len(),
                    all_dated(items@, i as int),
                decreases items.len() - i,
            {
                let stamp = items[i].datetime();
                if !readable(stamp.as_str()) {
                    let mut detail = String::from_str("a timestamp cannot be read: ");
                    detail.append(stamp.as_str());
                    assert(is_first_undated(items@, i as int));
                    return Err(TackError::StoreCorrupt(detail));
                }
                i += 1;
            }
            Ok((notes_path(tacked_dir), items))
        },
    }
}

/// A target outside the project directory is refused, with its path in the
/// error, unless one of its components happens to be named like the project
/// directory.
pub proof fn lemma_outside_is_refused(path: Seq<Seq<char>>, tacked_dir: Seq<Seq<char>>)
    requires
        !project_dir(tacked_dir).is_prefix_of(path),
        project_name(tacked_dir) matches Some(name) ==> !path.contains(name),
    ensures
        short_on(Some(path), tacked_dir) == Err::<Option<Seq<char>>, Seq<char>>(path_text(path)),
{
    if let Some(name) = project_name(tacked_dir) {
        lemma_position(path, name);
        if position(path, name) < path.len() {
            assert(path.contains(path[position(path, name)]));
        }
    }
}

/// A target within the project directory is accepted; and where no directory
/// above the project directory has the same name as it, the project
/// directory followed by the result is the target again.
pub proof fn lemma_inside_is_placed(path: Seq<Seq<char>>, tacked_dir: Seq<Seq<char>>)
    requires
        tacked_dir.len() >= 2,
        project_dir(tacked_dir).is_prefix_of(path),
    ensures
        relative_to(path, tacked_dir) is Some,
        short_on(Some(path), tacked_dir) == Ok::<Option<Seq<char>>, Seq<char>>(
            Some(joined(relative_to(path, tacked_dir).unwrap(), "/"@)),
        ),
        !project_dir(project_dir(tacked_dir)).contains(project_name(tacked_dir).unwrap())
            ==> project_dir(tacked_dir) + relative_to(path, tacked_dir).unwrap() == path,
{
    let name = project_name(tacked_dir).unwrap();
    let dir = project_dir(tacked_dir);
    let at = dir.len() - 1;
    assert(dir[at] == name);
    assert(path[at] == dir[at]);
    lemma_position(path, name);
    if !project_dir(dir).contains(name) {
        assert forall|j: int| 0 <= j < at implies path[j] != name by {
            assert(path[j] == dir[j]);
            assert(project_dir(dir)[j] == dir[j]);
        }
        lemma_position_unique(path, name, at);
        assert(dir + path.skip(at + 1) =~= path);
    }
}

} // verus!
