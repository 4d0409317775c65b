//! Finding an item by the start of its identifier, and removing it.

use vstd::prelude::*;
use crate::error::TackError;
use crate::ident::{id_of, short_form, short_id};
use crate::tackables::Tacked;
use crate::text::{has_prefix, lemma_deep_view_push};

verus! {

/// The short forms of the identifiers among `ids` that begin with `prefix`,
/// in the order of `ids`.
pub open spec fn candidates(ids: Seq<Seq<char>>, prefix: Seq<char>) -> Seq<Seq<char>>
    decreases ids.len(),
{
    if ids.len() == 0 {
        Seq::empty()
    } else if prefix.is_prefix_of(ids.last()) {
        candidates(ids.drop_last(), prefix).push(short_form(ids.last()))
    } else {
        candidates(ids.drop_last(), prefix)
    }
}

/// Whether the identifier at `i` begins with `prefix` and no other does.
pub open spec fn is_only_match(ids: Seq<Seq<char>>, prefix: Seq<char>, i: int) -> bool {
    &&& 0 <= i < ids.len()
    &&& prefix.is_prefix_of(ids[i])
    &&& forall|j: int| 0 <= j < ids.len() && j != i ==> !prefix.is_prefix_of(#[trigger] ids[j])
}

/// Whether no identifier begins with `prefix`.
pub open spec fn no_match(ids: Seq<Seq<char>>, prefix: Seq<char>) -> bool {
    forall|j: int| 0 <= j < ids.len() ==> !prefix.is_prefix_of(#[trigger] ids[j])
}

/// Whether at least two identifiers begin with `prefix`.
pub open spec fn several_match(ids: Seq<Seq<char>>, prefix: Seq<char>) -> bool {
    exists|a: int, b: int|
        0 <= a < b < ids.len() && prefix.is_prefix_of(#[trigger] ids[a]) && prefix.is_prefix_of(
            #[trigger] ids[b],
        )
}

/// The identifiers of the items of a store, in store order.
pub open spec fn store_ids(notes: Seq<Tacked>) -> Seq<Seq<char>> {
    Seq::new(notes.len(), |i: int| id_of(notes[i]@))
}

/// Whether a store went from `before` to `after`, with `outcome`, as the
/// removal of the item named by `id` asks: the one item whose identifier
/// begins with `id` is gone and the others keep their order; or, where no
/// identifier or more than one begins with `id`, the store stays as it was
/// and the error says which.
pub open spec fn is_removal(
    before: Seq<Tacked>,
    after: Seq<Tacked>,
    outcome: Result<(), TackError>,
    id: Seq<char>,
) -> bool {
    match outcome {
        Ok(()) => exists|i: int|
            #![trigger before.remove(i)]
            is_only_match(store_ids(before), id, i) && after == before.remove(i),
        Err(TackError::NotFound) => no_match(store_ids(before), id) && after == before,
        Err(TackError::Ambiguous(shorts)) => {
            &&& several_match(store_ids(before), id)
            &&& shorts.deep_view() == candidates(store_ids(before), id)
            &&& after == before
        },
        Err(_) => false,
    }
}

/// Whether a store went from `before` to `after`, with `outcome`, as a
/// request to remove asks: refused without a project; nothing to do, and
/// `false`, without an identifier; else `true` after the removal, or the
/// error of the removal.
pub open spec fn is_rm_run(
    before: Seq<Tacked>,
    after: Seq<Tacked>,
    outcome: Result<bool, TackError>,
    found: bool,
    maybe_id: Option<Seq<char>>,
) -> bool {
    if !found {
        outcome == Err::<bool, TackError>(TackError::NoProjectFound) && after == before
    } else {
        match maybe_id {
            None => outcome == Ok::<bool, TackError>(false) && after == before,
            Some(id) => match outcome {
                Ok(removed) => removed && is_removal(before, after, Ok(()), id),
                Err(refusal) => is_removal(before, after, Err(refusal), id),
            },
        }
    }
}

/// Finds the one identifier that begins with `prefix`.
///
/// Returns its place in `ids`. Where none begins with `prefix` the error is
/// `NotFound`; where several do it is `Ambiguous`, with the short form of
/// each of them, in the order of `ids`.
pub fn resolve_prefix(ids: &Vec<String>, prefix: &str) -> (found: Result<usize, TackError>)
    ensures
        (match found {
            Ok(i) => is_only_match(ids.deep_view(), prefix@, i as int),
            Err(TackError::NotFound) => no_match(ids.deep_view(), prefix@),
            Err(TackError::Ambiguous(shorts)) => several_match(ids.deep_view(), prefix@)
                && shorts.deep_view() == candidates(ids.deep_view(), prefix@),
            Err(_) => false,
        }),
{
    let mut shorts: Vec<String> = Vec::new();
    let mut first: usize = 0;
    let ghost mut second: int = 0;
    let mut i: usize = 0;
    while i < ids.len()
        invariant
            i <= ids.len(),
            shorts.deep_view() == candidates(ids.deep_view().take(i as int), prefix@),
            shorts.len() == 0 ==> no_match(ids.deep_view().take(i as int), prefix@),
            shorts.len() == 1 ==> first < i && is_only_match(
                ids.deep_view().take(i as int),
                prefix@,
                first as int,
            ),
            shorts.len() >= 2 ==> first < second < i && prefix@.is_prefix_of(
                ids.deep_view()[first as int],
            ) && prefix@.is_prefix_of(ids.deep_view()[second]),
        decreases ids.len() - i,
    {
        let ghost seen = ids.deep_view().take(i as int);
        let ghost next = ids.deep_view().take(i + 1);
        proof {
            assert(next.drop_last() =~= seen);
            assert(next.last() == ids@[i as int]@);
            assert forall|j: int| 0 <= j < seen.len() implies seen[j] == next[j] by {}
        }
        if has_prefix(ids[i].as_str(), prefix) {
            let ghost before = shorts;
            let short = String::from_str(short_id(ids[i].as_str()));
            if shorts.len() == 0 {
                first = i;
            } else if shorts.len() == 1 {
                proof {
                    second = i as int;
                }
            }
            shorts.push(short);
            proof {
                lemma_deep_view_push(before, shorts, short);
            }
        }
        i += 1;
    }
    proof {
        assert(ids.deep_view().take(ids.len() as int) =~= ids.deep_view());
    }
    if shorts.len() == 0 {
        Err(TackError::NotFound)
    } else if shorts.len() == 1 {
        Ok(first)
    } else {
        Err(TackError::Ambiguous(shorts))
    }
}

/// The identifiers of the items of `notes`, in store order.
pub fn ids_of(notes: &Vec<Tacked>) -> (ids: Vec<String>)
    ensures
        ids.deep_view() == store_ids(notes@),
{
    let mut ids: Vec<String> = Vec::new();
    let mut i: usize = 0;
    while i < notes.len()
        invariant
            i <= notes.len(),
            ids.deep_view() == store_ids(notes@).take(i as int),
        decreases notes.len() - i,
    {
        let ghost before = ids;
        let id = notes[i].get_id();
        ids.push(id);
        proof {
            lemma_deep_view_push(before, ids, id);
            assert(ids.deep_view() =~= store_ids(notes@).take(i + 1));
        }
        i += 1;
    }
    proof {
        assert(store_ids(notes@).take(notes.len() as int) =~= store_ids(notes@));
    }
    ids
}

/// Finds the one item of `notes` whose identifier begins with `prefix`.
pub fn resolve_by_prefix(notes: &Vec<Tacked>, prefix: &str) -> (found: Result<usize, TackError>)
    ensures
        (match found {
            Ok(i) => is_only_match(store_ids(notes@), prefix@, i as int),
            Err(TackError::NotFound) => no_match(store_ids(notes@), prefix@),
            Err(TackError::Ambiguous(shorts)) => several_match(store_ids(notes@), prefix@)
                && shorts.deep_view() == candidates(store_ids(notes@), prefix@),
            Err(_) => false,
        }),
{
    let ids = ids_of(notes);
    resolve_prefix(&ids, prefix)
}

/// Removes the one item of `notes` whose identifier begins with `id`.
///
/// The items that stay keep their order. Where no identifier or more than
/// one begins with `id`, nothing is removed and the error says which, as
/// `resolve_prefix` does.
pub fn remove_note(id: &str, notes: &mut Vec<Tacked>) -> (outcome: Result<(), TackError>)
    ensures
        is_removal(old(notes)@, final(notes)@, outcome, id@),
{
    match resolve_by_prefix(notes, id) {
        Ok(i) => {
            notes.remove(i);
            Ok(())
        },
        Err(refusal) => Err(refusal),
    }
}

/// Carries out a request to remove an item.
///
/// `maybe_tacked` is the marker directory of the project, if one was found,
/// and `notes` the store of that project. Without a project the request is
/// refused. Without an identifier there is nothing to do, and the result is
/// `false`. Else the item is removed as `remove_note` removes it, and the
/// result is `true`.
pub fn run_rm(maybe_tacked: Option<&Vec<String>>, maybe_id: Option<&str>, notes: &mut Vec<Tacked>) -> (outcome:
    Result<bool, TackError>)
    ensures
        is_rm_run(
            old(notes)@,
            final(notes)@,
            outcome,
            maybe_tacked is Some,
            maybe_id.deep_view(),
        ),
{
    if maybe_tacked.is_none() {
        return Err(TackError::NoProjectFound);
    }
    match maybe_id {
        None => Ok(false),
        Some(id) => match remove_note(id, notes) {
            Ok(()) => Ok(true),
            Err(refusal) => Err(refusal),
        },
    }
}

/// What was removed is gone: after a removal no identifier begins with the
/// prefix that named the item, so that removing by it again finds nothing.
pub proof fn lemma_removed_is_gone(before: Seq<Tacked>, after: Seq<Tacked>, id: Seq<char>)
    requires
        is_removal(before, after, Ok(()), id),
    ensures
        no_match(store_ids(after), id),
        is_removal(after, after, Err(TackError::NotFound), id),
{
    let i = choose|i: int|
        #![trigger before.remove(i)]
        is_only_match(store_ids(before), id, i) && after == before.remove(i);
    assert forall|j: int| 0 <= j < store_ids(after).len() implies !id.is_prefix_of(
        #[trigger] store_ids(after)[j],
    ) by {
        let from = if j < i {
            j
        } else {
            j + 1
        };
        assert(after[j] == before[from]);
        assert(store_ids(after)[j] == store_ids(before)[from]);
    }
}

} // verus!
