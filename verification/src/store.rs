//! The ordered store of display items: a shared, observable vector that
//! subscribers watch as a diff stream, held behind trusted wrappers, plus the
//! verified lookups the reconciler runs against it.

use vstd::prelude::*;
use futures_signals::signal_vec::MutableVec;
use futures_signals::signal_vec::MutableSignalVec;
use crate::item::ItemModel;
use crate::item::TimelineItem;
use crate::item::spec_effective_event_id;
use crate::item::spec_has_txn_id;
use crate::item::spec_is_virtual;

verus! {

#[verifier::external_type_specification]
#[verifier::external_body]
#[verifier::reject_recursive_types(A)]
pub struct ExMutableVec<A>(MutableVec<A>);

#[verifier::external_type_specification]
#[verifier::external_body]
#[verifier::reject_recursive_types(A)]
pub struct ExMutableSignalVec<A>(MutableSignalVec<A>);

/// The observable, shared container the ordered store lives in.
pub type ItemStore = MutableVec<TimelineItem>;

/// What the store holds, in order.
pub uninterp spec fn store_items(v: ItemStore) -> Seq<ItemModel>;

/// The empty store contents.
pub open spec fn store_empty() -> Seq<ItemModel> {
    Seq::empty()
}

/// The store contents after an item is moved from one position to another:
/// the item is taken out and re-inserted at the new position.
pub open spec fn spec_move_from_to(items: Seq<ItemModel>, from: int, to: int) -> Seq<ItemModel> {
    items.remove(from).insert(to, items[from])
}

/// Relies on `MutableVec::new`: the new vector is empty.
#[verifier::external_body]
pub(crate) fn store_new() -> (r: ItemStore)
    ensures
        store_items(r) == store_empty(),
{
    MutableVec::new()
}

/// Relies on `MutableVec::lock_ref` and the slice `len` it exposes: the number
/// of items held.
#[verifier::external_body]
pub(crate) fn store_len(v: &ItemStore) -> (n: usize)
    ensures
        n == store_items(*v).len(),
{
    v.lock_ref().len()
}

/// Relies on `MutableVec::lock_ref` and slice indexing: returns a copy of the
/// item at the position.
#[verifier::external_body]
pub(crate) fn store_get(v: &ItemStore, i: usize) -> (item: TimelineItem)
    requires
        i < store_items(*v).len(),
    ensures
        item@ == store_items(*v)[i as int],
{
    v.lock_ref()[i].clone()
}

/// Relies on `MutableVecLockMut::push_cloned`: appends the item; subscribers
/// observe a push diff.
#[verifier::external_body]
pub(crate) fn store_push(v: &mut ItemStore, item: TimelineItem)
    ensures
        store_items(*final(v)) == store_items(*old(v)).push(item@),
{
    v.lock_mut().push_cloned(item);
}

/// Relies on `MutableVecLockMut::insert_cloned`: inserts the item at the
/// position, shifting later items; subscribers observe an insert diff.
#[verifier::external_body]
pub(crate) fn store_insert(v: &mut ItemStore, i: usize, item: TimelineItem)
    requires
        i <= store_items(*old(v)).len(),
    ensures
        store_items(*final(v)) == store_items(*old(v)).insert(i as int, item@),
{
    v.lock_mut().insert_cloned(i, item);
}

/// Relies on `MutableVecLockMut::set_cloned`: replaces the item at the
/// position in place; subscribers observe an update diff.
#[verifier::external_body]
pub(crate) fn store_set(v: &mut ItemStore, i: usize, item: TimelineItem)
    requires
        i < store_items(*old(v)).len(),
    ensures
        store_items(*final(v)) == store_items(*old(v)).update(i as int, item@),
{
    v.lock_mut().set_cloned(i, item);
}

/// Relies on `MutableVecLockMut::move_from_to`: removes the item at the old
/// position and re-inserts it at the new one; subscribers observe a move diff.
#[verifier::external_body]
pub(crate) fn store_move_from_to(v: &mut ItemStore, from: usize, to: usize)
    requires
        from < store_items(*old(v)).len(),
        to < store_items(*old(v)).len(),
    ensures
        store_items(*final(v)) == spec_move_from_to(store_items(*old(v)), from as int, to as int),
{
    v.lock_mut().move_from_to(from, to);
}

/// Relies on `MutableVec::signal_vec_cloned`: hands out the diff stream that
/// subscribers render the timeline from.
#[verifier::external_body]
pub(crate) fn store_signal(v: &ItemStore) -> MutableSignalVec<TimelineItem> {
    v.signal_vec_cloned()
}

/// The position of the first item known by the given event id, scanning from a
/// position.
pub open spec fn find_event_from(items: Seq<ItemModel>, id: Seq<char>, i: int) -> Option<int>
    decreases items.len() - i,
    when 0 <= i <= items.len()
{
    if i >= items.len() {
        None
    } else if spec_effective_event_id(items[i]) == Some(id) {
        Some(i)
    } else {
        find_event_from(items, id, i + 1)
    }
}

/// The position of the first item known by the given event id, if any.
pub open spec fn spec_find_event(items: Seq<ItemModel>, id: Seq<char>) -> Option<int> {
    find_event_from(items, id, 0)
}

/// What a `find_event_from` result means, position by position.
pub proof fn lemma_find_event_from(items: Seq<ItemModel>, id: Seq<char>, i: int)
    requires
        0 <= i <= items.len(),
    ensures
        find_event_from(items, id, i) is None ==> forall|j: int|
            i <= j < items.len() ==> spec_effective_event_id(#[trigger] items[j]) != Some(id),
        find_event_from(items, id, i) is Some ==> {
            let k = find_event_from(items, id, i)->Some_0;
            &&& i <= k < items.len()
            &&& spec_effective_event_id(items[k]) == Some(id)
            &&& forall|j: int|
                i <= j < k ==> spec_effective_event_id(#[trigger] items[j]) != Some(id)
        },
    decreases items.len() - i,
{
    if i < items.len() && spec_effective_event_id(items[i]) != Some(id) {
        lemma_find_event_from(items, id, i + 1);
    }
}

/// A first match, with no match before it, is what `find_event_from` returns.
pub proof fn lemma_find_event_from_is(items: Seq<ItemModel>, id: Seq<char>, i: int, k: int)
    requires
        0 <= i <= k < items.len(),
        spec_effective_event_id(items[k]) == Some(id),
        forall|j: int| i <= j < k ==> spec_effective_event_id(#[trigger] items[j]) != Some(id),
    ensures
        find_event_from(items, id, i) == Some(k),
    decreases k - i,
{
    if i < k {
        lemma_find_event_from_is(items, id, i + 1, k);
    }
}

/// The position of the first local-pending item with the given transaction id,
/// scanning from a position.
pub open spec fn find_txn_from(items: Seq<ItemModel>, txn_id: Seq<char>, i: int) -> Option<int>
    decreases items.len() - i,
    when 0 <= i <= items.len()
{
    if i >= items.len() {
        None
    } else if spec_has_txn_id(items[i], txn_id) {
        Some(i)
    } else {
        find_txn_from(items, txn_id, i + 1)
    }
}

/// The position of the first local-pending item with the given transaction id,
/// if any.
pub open spec fn spec_find_txn(items: Seq<ItemModel>, txn_id: Seq<char>) -> Option<int> {
    find_txn_from(items, txn_id, 0)
}

/// What a `find_txn_from` result means, position by position.
pub proof fn lemma_find_txn_from(items: Seq<ItemModel>, txn_id: Seq<char>, i: int)
    requires
        0 <= i <= items.len(),
    ensures
        find_txn_from(items, txn_id, i) is None ==> forall|j: int|
            i <= j < items.len() ==> !spec_has_txn_id(#[trigger] items[j], txn_id),
        find_txn_from(items, txn_id, i) is Some ==> {
            let k = find_txn_from(items, txn_id, i)->Some_0;
            &&& i <= k < items.len()
            &&& spec_has_txn_id(items[k], txn_id)
            &&& forall|j: int| i <= j < k ==> !spec_has_txn_id(#[trigger] items[j], txn_id)
        },
    decreases items.len() - i,
{
    if i < items.len() && !spec_has_txn_id(items[i], txn_id) {
        lemma_find_txn_from(items, txn_id, i + 1);
    }
}

/// A first match, with no match before it, is what `find_txn_from` returns.
pub proof fn lemma_find_txn_from_is(items: Seq<ItemModel>, txn_id: Seq<char>, i: int, k: int)
    requires
        0 <= i <= k < items.len(),
        spec_has_txn_id(items[k], txn_id),
        forall|j: int| i <= j < k ==> !spec_has_txn_id(#[trigger] items[j], txn_id),
    ensures
        find_txn_from(items, txn_id, i) == Some(k),
    decreases k - i,
{
    if i < k {
        lemma_find_txn_from_is(items, txn_id, i + 1, k);
    }
}

/// The position of the first virtual item, scanning from a position.
pub open spec fn find_marker_from(items: Seq<ItemModel>, i: int) -> Option<int>
    decreases items.len() - i,
    when 0 <= i <= items.len()
{
    if i >= items.len() {
        None
    } else if spec_is_virtual(items[i]) {
        Some(i)
    } else {
        find_marker_from(items, i + 1)
    }
}

/// The position of the read-marker item, if any: the first virtual item.
pub open spec fn spec_find_marker(items: Seq<ItemModel>) -> Option<int> {
    find_marker_from(items, 0)
}

/// What a `find_marker_from` result means, position by position.
pub proof fn lemma_find_marker_from(items: Seq<ItemModel>, i: int)
    requires
        0 <= i <= items.len(),
    ensures
        find_marker_from(items, i) is None ==> forall|j: int|
            i <= j < items.len() ==> !spec_is_virtual(#[trigger] items[j]),
        find_marker_from(items, i) is Some ==> {
            let k = find_marker_from(items, i)->Some_0;
            &&& i <= k < items.len()
            &&& spec_is_virtual(items[k])
            &&& forall|j: int| i <= j < k ==> !spec_is_virtual(#[trigger] items[j])
        },
    decreases items.len() - i,
{
    if i < items.len() && !spec_is_virtual(items[i]) {
        lemma_find_marker_from(items, i + 1);
    }
}

/// A first virtual item, with none before it, is what `find_marker_from`
/// returns.
pub proof fn lemma_find_marker_from_is(items: Seq<ItemModel>, i: int, k: int)
    requires
        0 <= i <= k < items.len(),
        spec_is_virtual(items[k]),
        forall|j: int| i <= j < k ==> !spec_is_virtual(#[trigger] items[j]),
    ensures
        find_marker_from(items, i) == Some(k),
    decreases k - i,
{
    if i < k {
        lemma_find_marker_from_is(items, i + 1, k);
    }
}

/// Find the position of the item known by the given event id, if any.
pub fn find_event_by_id(v: &ItemStore, event_id: &String) -> (r: Option<usize>)
    ensures
        spec_find_event(store_items(*v), event_id@) == match r {
            Some(i) => Some(i as int),
            None => None::<int>,
        },
{
    let ghost items = store_items(*v);
    let n = store_len(v);
    let mut i: usize = 0;
    while i < n
        invariant
            n == items.len(),
            i <= n,
            items == store_items(*v),
            forall|j: int| 0 <= j < i ==> spec_effective_event_id(#[trigger] items[j]) != Some(
                event_id@,
            ),
        decreases n - i,
    {
        let item = store_get(v, i);
        if item.matches_event_id(event_id) {
            proof {
                lemma_find_event_from_is(items, event_id@, 0, i as int);
            }
            return Some(i);
        }
        i += 1;
    }
    proof {
        lemma_find_event_from(items, event_id@, 0);
        if spec_find_event(items, event_id@) is Some {
            let k = spec_find_event(items, event_id@)->Some_0;
            assert(spec_effective_event_id(items[k]) != Some(event_id@));
        }
    }
    None
}

/// Find the position of the local-pending item with the given transaction id,
/// if any.
pub fn find_event_by_txn_id(v: &ItemStore, txn_id: &String) -> (r: Option<usize>)
    ensures
        spec_find_txn(store_items(*v), txn_id@) == match r {
            Some(i) => Some(i as int),
            None => None::<int>,
        },
{
    let ghost items = store_items(*v);
    let n = store_len(v);
    let mut i: usize = 0;
    while i < n
        invariant
            n == items.len(),
            i <= n,
            items == store_items(*v),
            forall|j: int| 0 <= j < i ==> !spec_has_txn_id(#[trigger] items[j], txn_id@),
        decreases n - i,
    {
        let item = store_get(v, i);
        if item.matches_txn_id(txn_id) {
            proof {
                lemma_find_txn_from_is(items, txn_id@, 0, i as int);
            }
            return Some(i);
        }
        i += 1;
    }
    proof {
        lemma_find_txn_from(items, txn_id@, 0);
        if spec_find_txn(items, txn_id@) is Some {
            let k = spec_find_txn(items, txn_id@)->Some_0;
            assert(!spec_has_txn_id(items[k], txn_id@));
        }
    }
    None
}

/// Find the position of the read-marker item, if any.
pub fn find_read_marker(v: &ItemStore) -> (r: Option<usize>)
    ensures
        spec_find_marker(store_items(*v)) == match r {
            Some(i) => Some(i as int),
            None => None::<int>,
        },
{
    let ghost items = store_items(*v);
    let n = store_len(v);
    let mut i: usize = 0;
    while i < n
        invariant
            n == items.len(),
            i <= n,
            items == store_items(*v),
            forall|j: int| 0 <= j < i ==> !spec_is_virtual(#[trigger] items[j]),
        decreases n - i,
    {
        let item = store_get(v, i);
        if item.is_virtual() {
            proof {
                lemma_find_marker_from_is(items, 0, i as int);
            }
            return Some(i);
        }
        i += 1;
    }
    proof {
        lemma_find_marker_from(items, 0);
        if spec_find_marker(items) is Some {
            let k = spec_find_marker(items)->Some_0;
            assert(!spec_is_virtual(items[k]));
        }
    }
    None
}

} // verus!
