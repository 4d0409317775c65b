//! Choosing the items to show, putting them in order and writing them out.

use vstd::prelude::*;
use crate::error::TackError;
use crate::tackables::{full_text, oneline_text, todo_entry, Fields, Tackable, Tacked};
use crate::text::{join, joined, lemma_deep_view_push, same_text, strip_trailing, without_trailing};

verus! {

/// The fields of the items of a store, in store order.
pub open spec fn fields_of(notes: Seq<Tacked>) -> Seq<Fields> {
    Seq::new(notes.len(), |i: int| notes[i]@)
}

/// Whether an item is on the file asked for. With no file asked for every
/// item is; else the item's path must equal the one asked for, from which one
/// trailing `/` is dropped first.
pub open spec fn is_on(item: Fields, maybe_on: Option<Seq<char>>) -> bool {
    match maybe_on {
        None => true,
        Some(target) => item.on == Some(without_trailing(target, '/')),
    }
}

/// Whether an item belongs to the list asked for: it is on the file, and in
/// the to-do view it is a to-do item.
pub open spec fn is_listed(item: Fields, maybe_on: Option<Seq<char>>, todo: bool) -> bool {
    is_on(item, maybe_on) && (todo ==> item.todo is Some)
}

/// The priority of a to-do item; a note has none, and counts as 0.
pub open spec fn priority(item: Fields) -> int {
    match item.todo {
        Some((priority, _)) => priority as int,
        None => 0,
    }
}

/// Whether the item at `i` is shown before the item at `j`. In the to-do view
/// the higher priority goes first, and of two equal priorities the item that
/// stands earlier in the store; else store order decides alone.
pub open spec fn goes_before(items: Seq<Fields>, todo: bool, i: int, j: int) -> bool {
    if todo {
        priority(items[i]) > priority(items[j]) || (priority(items[i]) == priority(items[j]) && i
            < j)
    } else {
        i < j
    }
}

/// Whether `order` lists the places of exactly the items that belong to the
/// list asked for, each once, in the order in which they are shown.
pub open spec fn is_listing(
    items: Seq<Fields>,
    maybe_on: Option<Seq<char>>,
    todo: bool,
    order: Seq<usize>,
) -> bool {
    &&& forall|k: int|
        0 <= k < order.len() ==> (#[trigger] order[k]) < items.len() && is_listed(
            items[order[k] as int],
            maybe_on,
            todo,
        )
    &&& forall|i: int|
        0 <= i < items.len() && is_listed(#[trigger] items[i], maybe_on, todo) ==> exists|k: int|
            0 <= k < order.len() && #[trigger] order[k] == i
    &&& forall|k: int, l: int|
        0 <= k < l < order.len() ==> goes_before(
            items,
            todo,
            #[trigger] order[k] as int,
            #[trigger] order[l] as int,
        )
}

/// The line or lines that show one item: its to-do line in the to-do view,
/// else its one-line form if that is asked for, else its full form.
pub open spec fn shown_as(item: Fields, oneline: bool, todo: bool) -> Seq<char> {
    if todo {
        match todo_entry(item) {
            Some((_, line)) => line,
            None => Seq::empty(),
        }
    } else if oneline {
        oneline_text(item)
    } else {
        full_text(item)
    }
}

/// What is shown for the items at the places `order`, one text for each.
pub open spec fn shown_lines(items: Seq<Fields>, order: Seq<usize>, oneline: bool, todo: bool) -> Seq<
    Seq<char>,
> {
    Seq::new(order.len(), |k: int| shown_as(items[order[k] as int], oneline, todo))
}

/// Whether `out` is what is shown for a store: the texts of the items that
/// belong to the list asked for, in their order, with a line feed between
/// each two.
pub open spec fn is_showing(
    items: Seq<Fields>,
    out: Seq<char>,
    maybe_on: Option<Seq<char>>,
    oneline: bool,
    todo: bool,
) -> bool {
    exists|order: Seq<usize>|
        is_listing(items, maybe_on, todo, order) && out == joined(
            #[trigger] shown_lines(items, order, oneline, todo),
            "\n"@,
        )
}

/// Tells whether `item` is on the file asked for.
pub fn on_target(item: &Tacked, maybe_on: Option<&str>) -> (on: bool)
    ensures
        on == is_on(item@, maybe_on.deep_view()),
{
    match maybe_on {
        None => true,
        Some(target) => match item.get_on() {
            Some(path) => same_text(path.as_str(), strip_trailing(target, '/')),
            None => false,
        },
    }
}

/// The priority of the item at `place`, 0 for a note.
fn priority_at(notes: &Vec<Tacked>, place: usize) -> (rank: i8)
    requires
        place < notes.len(),
    ensures
        rank == priority(fields_of(notes@)[place as int]),
{
    match notes[place].todo() {
        Some((rank, _)) => rank,
        None => 0,
    }
}

/// The places of the items to show, in the order in which they are shown.
///
/// Only items on the file asked for are shown, and in the to-do view only
/// to-do items. The to-do view goes by falling priority, and items of one
/// priority stay in store order; the other views keep store order.
pub fn listing(maybe_on: Option<&str>, todo: bool, notes: &Vec<Tacked>) -> (order: Vec<usize>)
    ensures
        is_listing(fields_of(notes@), maybe_on.deep_view(), todo, order@),
{
    let ghost items = fields_of(notes@);
    let ghost target = maybe_on.deep_view();
    let mut order: Vec<usize> = Vec::new();
    let mut i: usize = 0;
    while i < notes.len()
        invariant
            i <= notes.len(),
            items == fields_of(notes@),
            target == maybe_on.deep_view(),
            forall|k: int|
                0 <= k < order.len() ==> (#[trigger] order[k]) < i && is_listed(
                    items[order[k] as int],
                    target,
                    todo,
                ),
            forall|j: int|
                0 <= j < i && is_listed(#[trigger] items[j], target, todo) ==> exists|k: int|
                    0 <= k < order.len() && #[trigger] order[k] == j,
            forall|k: int, l: int|
                0 <= k < l < order.len() ==> goes_before(
                    items,
                    todo,
                    #[trigger] order[k] as int,
                    #[trigger] order[l] as int,
                ),
        decreases notes.len() - i,
    {
        let item = &notes[i];
        let listed = on_target(item, maybe_on) && (!todo || item.todo().is_some());
        assert(listed == is_listed(items[i as int], target, todo));
        if listed {
            let ghost before = order@;
            let mut at: usize = order.len();
            if todo {
                let rank: i8 = match item.todo() {
                    Some((rank, _)) => rank,
                    None => 0,
                };
                at = 0;
                while at < order.len() && priority_at(notes, order[at]) >= rank
                    invariant
                        at <= order.len(),
                        order@ == before,
                        i < notes.len(),
                        items == fields_of(notes@),
                        rank == priority(items[i as int]),
                        forall|k: int|
                            0 <= k < order.len() ==> (#[trigger] order[k]) < i,
                        forall|k: int|
                            0 <= k < at ==> priority(items[(#[trigger] order[k]) as int]) >= rank,
                    decreases order.len() - at,
                {
                    at += 1;
                }
            }
            order.insert(at, i);
            proof {
                assert forall|k: int, l: int| 0 <= k < l < order.len() implies goes_before(
                    items,
                    todo,
                    #[trigger] order[k] as int,
                    #[trigger] order[l] as int,
                ) by {
                    let from_k = if k < at {
                        k
                    } else {
                        k - 1
                    };
                    let from_l = if l < at {
                        l
                    } else {
                        l - 1
                    };
                    if k != at && l != at {
                        assert(order[k] == before[from_k]);
                        assert(order[l] == before[from_l]);
                    } else if l == at {
                        assert(order[k] == before[k]);
                    } else {
                        assert(order[l] == before[l - 1]);
                        if at < before.len() && at < l - 1 {
                            assert(goes_before(
                                items,
                                todo,
                                before[at as int] as int,
                                before[l - 1] as int,
                            ));
                        }
                    }
                }
                assert forall|j: int|
                    0 <= j < i + 1 && is_listed(#[trigger] items[j], target, todo) implies exists|
                    k: int,
                |
                    0 <= k < order.len() && #[trigger] order[k] == j by {
                    if j == i {
                        assert(order[at as int] == j);
                    } else {
                        let k = choose|k: int| 0 <= k < before.len() && #[trigger] before[k] == j;
                        if k < at {
                            assert(order[k] == j);
                        } else {
                            assert(order[k + 1] == j);
                        }
                    }
                }
                assert forall|k: int| 0 <= k < order.len() implies (#[trigger] order[k]) < i + 1
                    && is_listed(items[order[k] as int], target, todo) by {
                    if k < at {
                        assert(order[k] == before[k]);
                    } else if k > at {
                        assert(order[k] == before[k - 1]);
                    }
                }
            }
        }
        i += 1;
    }
    order
}

/// What is shown for one item.
pub fn show_one(item: &Tacked, oneline: bool, todo: bool) -> (out: String)
    ensures
        out@ == shown_as(item@, oneline, todo),
{
    if todo {
        match item.todo_item() {
            Some((_, line)) => line,
            None => String::new(),
        }
    } else if oneline {
        item.oneliner()
    } else {
        item.full_note()
    }
}

/// What is shown for a store, one text for each item shown, in order.
pub fn show_lines(maybe_on: Option<&str>, oneline: bool, todo: bool, notes: &Vec<Tacked>) -> (lines:
    Vec<String>)
    ensures
        exists|order: Seq<usize>|
            is_listing(fields_of(notes@), maybe_on.deep_view(), todo, order) && lines.deep_view()
                == #[trigger] shown_lines(fields_of(notes@), order, oneline, todo),
{
    let order = listing(maybe_on, todo, notes);
    let ghost items = fields_of(notes@);
    let mut lines: Vec<String> = Vec::new();
    let mut k: usize = 0;
    while k < order.len()
        invariant
            k <= order.len(),
            items == fields_of(notes@),
            forall|k: int| 0 <= k < order.len() ==> (#[trigger] order[k]) < notes.len(),
            lines.deep_view() == shown_lines(items, order@, oneline, todo).take(k as int),
        decreases order.len() - k,
    {
        let ghost before = lines;
        let line = show_one(&notes[order[k]], oneline, todo);
        lines.push(line);
        proof {
            lemma_deep_view_push(before, lines, line);
            assert(lines.deep_view() =~= shown_lines(items, order@, oneline, todo).take(k + 1));
        }
        k += 1;
    }
    proof {
        assert(shown_lines(items, order@, oneline, todo).take(order.len() as int)
            =~= shown_lines(items, order@, oneline, todo));
    }
    lines
}

/// Everything that is shown for a store: the texts of `show_lines`, with a
/// line feed between each two.
pub fn show_notes(maybe_on: Option<&str>, oneline: bool, todo: bool, notes: &Vec<Tacked>) -> (out:
    String)
    ensures
        is_showing(fields_of(notes@), out@, maybe_on.deep_view(), oneline, todo),
{
    let lines = show_lines(maybe_on, oneline, todo, notes);
    join(&lines, "\n")
}

/// Carries out a request to show.
///
/// `maybe_tacked` is the marker directory of the project, if one was found,
/// and `notes` the store of that project. Without a project the request is
/// refused; else the result is what `show_notes` shows.
pub fn run_show(
    maybe_tacked: Option<&Vec<String>>,
    maybe_on: Option<&str>,
    oneline: bool,
    todo: bool,
    notes: &Vec<Tacked>,
) -> (shown: Result<String, TackError>)
    ensures
        (match shown {
            Ok(out) => maybe_tacked is Some && is_showing(
                fields_of(notes@),
                out@,
                maybe_on.deep_view(),
                oneline,
                todo,
            ),
            Err(TackError::NoProjectFound) => maybe_tacked is None,
            Err(_) => false,
        }),
{
    match maybe_tacked {
        None => Err(TackError::NoProjectFound),
        Some(_) => Ok(show_notes(maybe_on, oneline, todo, notes)),
    }
}

/// Where two listings of the same list both reach the place `k`, they agree
/// there; and where the first reaches it, so does the second.
proof fn lemma_listings_agree(
    items: Seq<Fields>,
    maybe_on: Option<Seq<char>>,
    todo: bool,
    a: Seq<usize>,
    b: Seq<usize>,
    k: int,
)
    requires
        is_listing(items, maybe_on, todo, a),
        is_listing(items, maybe_on, todo, b),
        0 <= k < a.len(),
    ensures
        k < b.len(),
        a[k] == b[k],
    decreases k,
{
    let i = a[k] as int;
    assert(is_listed(items[i], maybe_on, todo));
    let l = choose|l: int| 0 <= l < b.len() && #[trigger] b[l] == i;
    if l < k {
        if l < a.len() {
            lemma_listings_agree(items, maybe_on, todo, a, b, l);
            assert(goes_before(items, todo, a[l] as int, a[k] as int));
        }
    } else if l > k {
        let j = b[k] as int;
        assert(is_listed(items[j], maybe_on, todo));
        let m = choose|m: int| 0 <= m < a.len() && #[trigger] a[m] == j;
        assert(goes_before(items, todo, b[k] as int, b[l] as int));
        if m < k {
            lemma_listings_agree(items, maybe_on, todo, a, b, m);
            assert(goes_before(items, todo, b[m] as int, b[k] as int));
        } else if m > k {
            assert(goes_before(items, todo, a[k] as int, a[m] as int));
        }
    }
}

/// A list has one listing only: the conditions of `is_listing` leave no
/// choice of which places are shown, nor of their order.
pub proof fn lemma_listing_unique(
    items: Seq<Fields>,
    maybe_on: Option<Seq<char>>,
    todo: bool,
    a: Seq<usize>,
    b: Seq<usize>,
)
    requires
        is_listing(items, maybe_on, todo, a),
        is_listing(items, maybe_on, todo, b),
    ensures
        a == b,
{
    if a.len() > 0 {
        lemma_listings_agree(items, maybe_on, todo, a, b, a.len() - 1);
    }
    if b.len() > 0 {
        lemma_listings_agree(items, maybe_on, todo, b, a, b.len() - 1);
    }
    assert forall|k: int| 0 <= k < a.len() implies a[k] == b[k] by {
        lemma_listings_agree(items, maybe_on, todo, a, b, k);
    }
    assert(a =~= b);
}

} // verus!
