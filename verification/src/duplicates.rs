//! Items that share an identifier.
use std::sync::Arc;

use eyeball_im::ObservableVectorTransaction;
use itertools::Itertools as _;
use vstd::prelude::*;

use crate::item::{TimelineItem, TimelineUniqueId};
use crate::observable;

verus! {

/// The texts of the identifiers of items.
pub open spec fn unique_ids(items: Seq<Arc<TimelineItem>>) -> Seq<Seq<char>> {
    items.map_values(|item: Arc<TimelineItem>| item.internal_id.0@)
}

/// The texts of identifiers.
pub open spec fn id_texts(ids: Seq<TimelineUniqueId>) -> Seq<Seq<char>> {
    ids.map_values(|id: TimelineUniqueId| id.0@)
}

/// How often an identifier occurs.
pub open spec fn occurrences(ids: Seq<Seq<char>>, id: Seq<char>) -> nat
    decreases ids.len(),
{
    if ids.len() == 0 {
        0
    } else {
        occurrences(ids.drop_last(), id) + if ids.last() == id {
            1nat
        } else {
            0nat
        }
    }
}

/// The identifiers that occur more than once, each once, in the order of their second occurrences.
pub open spec fn duplicates(ids: Seq<Seq<char>>) -> Seq<Seq<char>>
    decreases ids.len(),
{
    if ids.len() == 0 {
        Seq::empty()
    } else if occurrences(ids.drop_last(), ids.last()) == 1 {
        duplicates(ids.drop_last()).push(ids.last())
    } else {
        duplicates(ids.drop_last())
    }
}

/// Calls `Itertools::duplicates_by`, which gives back the second of the items that share a key, in
/// order, and none of the others. The key is the text of the item's identifier.
#[verifier::external_body]
pub(crate) fn duplicate_ids(items: &ObservableVectorTransaction<'_, Arc<TimelineItem>>) -> (ids:
    Vec<TimelineUniqueId>)
    ensures
        id_texts(ids@) == duplicates(unique_ids(observable::pending_items(*items))),
{
    items.iter().duplicates_by(|item| &item.internal_id.0).map(
        |item| item.unique_id().clone(),
    ).collect()
}

/// An identifier occurs if and only if it stands somewhere.
proof fn lemma_occurrences(ids: Seq<Seq<char>>, id: Seq<char>)
    ensures
        occurrences(ids, id) > 0 <==> ids.contains(id),
    decreases ids.len(),
{
    if ids.len() > 0 {
        let rest = ids.drop_last();
        lemma_occurrences(rest, id);
        if ids.last() == id {
            assert(ids[ids.len() - 1] == id);
        } else if ids.contains(id) {
            let i = choose|i: int| 0 <= i < ids.len() && ids[i] == id;
            assert(rest[i] == id);
        }
        if rest.contains(id) {
            let i = choose|i: int| 0 <= i < rest.len() && rest[i] == id;
            assert(ids[i] == id);
        }
    }
}

/// Duplicates are found if and only if two items share an identifier.
pub proof fn law_duplicates_are_found(ids: Seq<Seq<char>>)
    ensures
        duplicates(ids).len() == 0 <==> ids.no_duplicates(),
    decreases ids.len(),
{
    if ids.len() > 0 {
        let rest = ids.drop_last();
        law_duplicates_are_found(rest);
        lemma_occurrences(rest, ids.last());
        if ids.no_duplicates() {
            assert(rest.no_duplicates());
            assert(!rest.contains(ids.last()));
        } else if rest.no_duplicates() {
            let (i, j) = choose|i: int, j: int|
                0 <= i < ids.len() && 0 <= j < ids.len() && i != j && ids[i] == ids[j];
            let earlier = if i < j {
                i
            } else {
                j
            };
            assert(rest[earlier] == ids[earlier]);
            if i < rest.len() && j < rest.len() {
                assert(rest[i] == rest[j]);
            }
            lemma_occurs_once(rest, ids.last());
        }
    }
}

/// Where nothing occurs twice, what occurs does so once.
proof fn lemma_occurs_once(ids: Seq<Seq<char>>, id: Seq<char>)
    requires
        ids.no_duplicates(),
        ids.contains(id),
    ensures
        occurrences(ids, id) == 1,
    decreases ids.len(),
{
    let rest = ids.drop_last();
    lemma_occurrences(rest, id);
    if ids.last() != id {
        let i = choose|i: int| 0 <= i < ids.len() && ids[i] == id;
        assert(rest[i] == id);
        lemma_occurs_once(rest, id);
    }
}

/// What is told to be shared is what stands in two places, and each is told once.
pub proof fn law_duplicates_stand_twice(ids: Seq<Seq<char>>)
    ensures
        duplicates(ids).no_duplicates(),
        forall|id: Seq<char>| #[trigger]
            duplicates(ids).contains(id) <==> exists|i: int, j: int|
                0 <= i < j < ids.len() && #[trigger] ids[i] == id && #[trigger] ids[j] == id,
    decreases ids.len(),
{
    if ids.len() > 0 {
        let rest = ids.drop_last();
        let last = ids.last();
        let found = duplicates(ids);
        let earlier = duplicates(rest);
        law_duplicates_stand_twice(rest);
        lemma_occurrences(rest, last);
        lemma_twice(rest, last);
        assert forall|id: Seq<char>| #[trigger] found.contains(id) implies exists|i: int, j: int|
            0 <= i < j < ids.len() && #[trigger] ids[i] == id && #[trigger] ids[j] == id by {
            if earlier.contains(id) {
                let (i, j) = choose|i: int, j: int|
                    0 <= i < j < rest.len() && #[trigger] rest[i] == id && #[trigger] rest[j] == id;
                assert(ids[i] == id && ids[j] == id);
            } else {
                assert(id == last);
                let i = choose|i: int| 0 <= i < rest.len() && rest[i] == last;
                assert(ids[i] == id && ids[ids.len() - 1] == id);
            }
        }
        assert forall|id: Seq<char>|
            (exists|i: int, j: int|
                0 <= i < j < ids.len() && #[trigger] ids[i] == id && #[trigger] ids[j]
                    == id) implies #[trigger] found.contains(id) by {
            let (i, j) = choose|i: int, j: int|
                0 <= i < j < ids.len() && #[trigger] ids[i] == id && #[trigger] ids[j] == id;
            assert(rest[i] == id);
            if j < rest.len() {
                assert(rest[j] == id);
                assert(earlier.contains(id));
                let k = choose|k: int| 0 <= k < earlier.len() && earlier[k] == id;
                assert(found[k] == id);
            } else {
                assert(rest.contains(last));
                if occurrences(rest, last) == 1 {
                    assert(found[found.len() - 1] == id);
                } else {
                    assert(earlier.contains(id));
                }
            }
        }
        if occurrences(rest, last) == 1 {
            assert(!earlier.contains(last));
        }
    }
}

/// What occurs more than once stands in two places, and the other way round.
proof fn lemma_twice(ids: Seq<Seq<char>>, id: Seq<char>)
    ensures
        occurrences(ids, id) > 1 <==> exists|i: int, j: int|
            0 <= i < j < ids.len() && #[trigger] ids[i] == id && #[trigger] ids[j] == id,
    decreases ids.len(),
{
    if ids.len() > 0 {
        let rest = ids.drop_last();
        lemma_twice(rest, id);
        lemma_occurrences(rest, id);
        if occurrences(rest, id) > 1 {
            let (i, j) = choose|i: int, j: int|
                0 <= i < j < rest.len() && #[trigger] rest[i] == id && #[trigger] rest[j] == id;
            assert(ids[i] == id && ids[j] == id);
        } else if occurrences(ids, id) > 1 {
            let i = choose|i: int| 0 <= i < rest.len() && rest[i] == id;
            assert(ids[i] == id && ids[ids.len() - 1] == id);
        }
        if exists|i: int, j: int|
            0 <= i < j < ids.len() && #[trigger] ids[i] == id && #[trigger] ids[j] == id {
            let (i, j) = choose|i: int, j: int|
                0 <= i < j < ids.len() && #[trigger] ids[i] == id && #[trigger] ids[j] == id;
            assert(rest[i] == id);
            if j < rest.len() {
                assert(rest[j] == id);
            }
        }
    }
}

/// The identifiers of items are taken from each item, in order.
pub proof fn law_unique_ids_are_those_of_the_items(
    items: Seq<Arc<TimelineItem>>,
    ids: Seq<TimelineUniqueId>,
)
    ensures
        unique_ids(items).len() == items.len(),
        forall|i: int|
            0 <= i < items.len() ==> #[trigger] unique_ids(items)[i] == items[i].internal_id.0@,
        id_texts(ids).len() == ids.len(),
        forall|i: int| 0 <= i < ids.len() ==> #[trigger] id_texts(ids)[i] == ids[i].0@,
{
}

} // verus!
