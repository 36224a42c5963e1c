//! The store: the records of the minimized windows, oldest first. It is read
//! whole and written whole on every change, without a lock: of two changes
//! made at the same time by two runs of the program, one may be lost.

use vstd::prelude::*;
use crate::codec::{create_json_output, parse_windows_from_json};
use crate::format::{decoded, encoded};
use crate::record::{MinimizedWindow, WindowView};
use crate::roundtrip::decode_inverts_encode;

verus! {

/// Whether a record of the store has the key `key`.
pub open spec fn has_key(store: Seq<WindowView>, key: Seq<char>) -> bool {
    exists|i: int| 0 <= i < store.len() && (#[trigger] store[i]).key == key
}

/// Whether no two records of the store have the same key.
pub open spec fn unique_keys(store: Seq<WindowView>) -> bool {
    forall|i: int, j: int|
        0 <= i < j < store.len() ==> (#[trigger] store[i]).key != (#[trigger] store[j]).key
}

/// The store without the records that have the key `key`.
pub open spec fn without_key(store: Seq<WindowView>, key: Seq<char>) -> Seq<WindowView> {
    store.filter(|w: WindowView| w.key != key)
}

/// The keys of the records, in the order of the store.
pub open spec fn keys_of(store: Seq<WindowView>) -> Seq<Seq<char>> {
    store.map_values(|w: WindowView| w.key)
}

/// The text of an empty store.
pub fn empty_store() -> (text: String)
    ensures
        text@ == encoded(Seq::empty()),
        decoded(text@) == Seq::<WindowView>::empty(),
{
    let none: Vec<MinimizedWindow> = Vec::new();
    let records = none.as_slice();
    let text = create_json_output(records);
    proof {
        decode_inverts_encode(Seq::empty());
    }
    text
}

/// The store with `record` behind its last record.
pub fn append(store: &mut Vec<MinimizedWindow>, record: MinimizedWindow)
    ensures
        final(store).deep_view() == old(store).deep_view().push(record@),
{
    store.push(record);
}

/// The records of the store that do not have the key `key`, in their order.
pub fn remove_by_key(store: &Vec<MinimizedWindow>, key: &str) -> (kept: Vec<MinimizedWindow>)
    ensures
        kept.deep_view() == without_key(store.deep_view(), key@),
{
    let ghost all = store.deep_view();
    let ghost keep = |w: WindowView| w.key != key@;
    let wanted = key.to_owned();
    let mut kept: Vec<MinimizedWindow> = Vec::new();
    let mut i: usize = 0;
    proof {
        reveal(Seq::filter);
    }
    while i < store.len()
        invariant
            i <= store.len(),
            all == store.deep_view(),
            keep == |w: WindowView| w.key != key@,
            wanted@ == key@,
            kept.deep_view() == all.take(i as int).filter(keep),
        decreases store.len() - i,
    {
        proof {
            reveal(Seq::filter);
            assert(all.take(i + 1).drop_last() =~= all.take(i as int));
        }
        if store[i].key != wanted {
            kept.push(store[i].copy());
        }
        i += 1;
    }
    assert(all.take(store.len() as int) =~= all);
    kept
}

/// Whether a record of the store has the key `key`.
pub fn contains_key(store: &Vec<MinimizedWindow>, key: &str) -> (found: bool)
    ensures
        found == has_key(store.deep_view(), key@),
{
    let wanted = key.to_owned();
    let mut i: usize = 0;
    while i < store.len()
        invariant
            i <= store.len(),
            wanted@ == key@,
            forall|j: int| 0 <= j < i ==> (#[trigger] store.deep_view()[j]).key != key@,
        decreases store.len() - i,
    {
        if store[i].key == wanted {
            assert(store.deep_view()[i as int].key == key@);
            return true;
        }
        i += 1;
    }
    false
}

/// The keys of the records, in the order of the store.
pub fn keys(store: &Vec<MinimizedWindow>) -> (all: Vec<String>)
    ensures
        all.deep_view() == keys_of(store.deep_view()),
{
    let mut all: Vec<String> = Vec::new();
    let mut i: usize = 0;
    while i < store.len()
        invariant
            i <= store.len(),
            all.deep_view() == keys_of(store.deep_view()).take(i as int),
        decreases store.len() - i,
    {
        all.push(store[i].key.clone());
        assert(keys_of(store.deep_view()).take(i + 1) =~= keys_of(store.deep_view()).take(
            i as int,
        ).push(store[i as int].key@));
        i += 1;
    }
    all
}

/// The text of the store that `content` stands for, with `record` behind its
/// last record.
pub fn append_to_text(content: &str, record: MinimizedWindow) -> (text: String)
    ensures
        text@ == encoded(decoded(content@).push(record@)),
{
    let mut store = parse_windows_from_json(content);
    append(&mut store, record);
    let records = store.as_slice();
    create_json_output(records)
}

/// The text of the store that `content` stands for, without the records
/// that have the key `key`.
pub fn remove_from_text(content: &str, key: &str) -> (text: String)
    ensures
        text@ == encoded(without_key(decoded(content@), key@)),
{
    let store = parse_windows_from_json(content);
    let kept = remove_by_key(&store, key);
    let records = kept.as_slice();
    create_json_output(records)
}

// ------------------------------------------------------------------- laws

/// Removing a key that no record has leaves the store as it is.
pub proof fn remove_absent_key(store: Seq<WindowView>, key: Seq<char>)
    requires
        !has_key(store, key),
    ensures
        without_key(store, key) == store,
    decreases store.len(),
{
    reveal(Seq::filter);
    if store.len() > 0 {
        let front = store.drop_last();
        assert(!has_key(front, key));
        remove_absent_key(front, key);
    }
}

/// Once a key is removed, no record has it.
pub proof fn removed_key_is_absent(store: Seq<WindowView>, key: Seq<char>)
    ensures
        !has_key(without_key(store, key), key),
{
    let keep = |w: WindowView| w.key != key;
    let kept = store.filter(keep);
    assert forall|i: int| 0 <= i < kept.len() implies (#[trigger] kept[i]).key != key by {
        store.lemma_filter_pred(keep, i);
    }
}

/// Removing a key a second time changes nothing.
pub proof fn remove_is_idempotent(store: Seq<WindowView>, key: Seq<char>)
    ensures
        without_key(without_key(store, key), key) == without_key(store, key),
{
    removed_key_is_absent(store, key);
    remove_absent_key(without_key(store, key), key);
}

/// On a store that was written by this library, removing a key that no
/// record has gives the same text again.
pub proof fn remove_absent_key_keeps_text(store: Seq<WindowView>, key: Seq<char>)
    requires
        !has_key(store, key),
    ensures
        encoded(without_key(decoded(encoded(store)), key)) == encoded(store),
{
    decode_inverts_encode(store);
    remove_absent_key(store, key);
}

/// Removing a key keeps the keys of the other records distinct.
pub proof fn remove_keeps_unique(store: Seq<WindowView>, key: Seq<char>)
    requires
        unique_keys(store),
    ensures
        unique_keys(without_key(store, key)),
    decreases store.len(),
{
    reveal(Seq::filter);
    let keep = |w: WindowView| w.key != key;
    if store.len() > 0 {
        let front = store.drop_last();
        let last = store.last();
        assert(unique_keys(front));
        remove_keeps_unique(front, key);
        let kept = front.filter(keep);
        if keep(last) {
            let all = kept.push(last);
            assert forall|i: int, j: int| 0 <= i < j < all.len() implies (#[trigger] all[i]).key
                != (#[trigger] all[j]).key by {
                if j == kept.len() {
                    // `kept[i]` is a record of `front`, so its key is not that of `last`
                    front.lemma_filter_contains_rev(keep, kept[i]);
                }
            }
        }
    }
}

/// Appending a record whose key no record has keeps the keys distinct.
pub proof fn append_keeps_unique(store: Seq<WindowView>, record: WindowView)
    requires
        unique_keys(store),
        !has_key(store, record.key),
    ensures
        unique_keys(store.push(record)),
{
    let all = store.push(record);
    assert forall|i: int, j: int| 0 <= i < j < all.len() implies (#[trigger] all[i]).key != (
    #[trigger] all[j]).key by {
        assert(all[i] == store[i]);
    }
}

/// A change of the store: a window is captured, and its record appended; or
/// a window is restored, and the records with its key removed.
pub enum StoreChange {
    Capture(WindowView),
    Restore(Seq<char>),
}

/// The store after one change.
pub open spec fn changed(store: Seq<WindowView>, change: StoreChange) -> Seq<WindowView> {
    match change {
        StoreChange::Capture(record) => store.push(record),
        StoreChange::Restore(key) => without_key(store, key),
    }
}

/// The store after a sequence of changes.
pub open spec fn changed_by_all(store: Seq<WindowView>, changes: Seq<StoreChange>) -> Seq<
    WindowView,
>
    decreases changes.len(),
{
    if changes.len() == 0 {
        store
    } else {
        changed(changed_by_all(store, changes.drop_last()), changes.last())
    }
}

/// Whether every capture among the changes is of a window that is not in the
/// store at that moment: a window is captured again only after it has been
/// restored.
pub open spec fn captures_are_new(store: Seq<WindowView>, changes: Seq<StoreChange>) -> bool
    decreases changes.len(),
{
    if changes.len() == 0 {
        true
    } else {
        &&& captures_are_new(store, changes.drop_last())
        &&& changes.last() matches StoreChange::Capture(record) ==> !has_key(
            changed_by_all(store, changes.drop_last()),
            record.key,
        )
    }
}

/// Uniqueness: where no window is captured while it is in the store, the
/// keys stay distinct through any sequence of captures and restores.
pub proof fn keys_stay_unique(store: Seq<WindowView>, changes: Seq<StoreChange>)
    requires
        unique_keys(store),
        captures_are_new(store, changes),
    ensures
        unique_keys(changed_by_all(store, changes)),
    decreases changes.len(),
{
    if changes.len() > 0 {
        keys_stay_unique(store, changes.drop_last());
        let before = changed_by_all(store, changes.drop_last());
        match changes.last() {
            StoreChange::Capture(record) => {
                append_keeps_unique(before, record);
            },
            StoreChange::Restore(key) => {
                remove_keeps_unique(before, key);
            },
        }
    }
}

} // verus!
