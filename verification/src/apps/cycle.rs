use crate::apps::eviction::{
    after_eviction, is_backed, is_stale, key_is_stale, lemma_not_stale_is_backed, stale_keys,
};
use crate::apps::store::{bag_of, with_value, Entries, KeyView, ValueView};
use crate::inventory::Inventory;
use crate::models::service::ServiceView;
use crate::models::time::Timestamp;
use crate::models::web_host_meta::WebHostMetaView;
use vstd::prelude::*;

verus! {

/// The apps among the first `n` of `listing` that have a service.
pub open spec fn apps_among(listing: Seq<(Seq<char>, Seq<ServiceView>)>, n: int) -> Set<Seq<char>> {
    Set::new(
        |app: Seq<char>|
            exists|j: int|
                0 <= j < n && j < listing.len() && (#[trigger] listing[j]).0 == app
                    && listing[j].1.len() > 0,
    )
}

/// The keys among the first `n` of `listing` that have to leave.
pub open spec fn stale_among(
    inventory: Inventory,
    listing: Seq<(KeyView, Seq<ValueView>)>,
    n: int,
) -> Set<KeyView> {
    Set::new(
        |key: KeyView|
            exists|j: int|
                0 <= j < n && j < listing.len() && (#[trigger] listing[j]).0 == key && key_is_stale(
                    inventory,
                    key,
                    listing[j].1.to_multiset(),
                ),
    )
}

/// Every entry of the cache is backed by the inventory.
pub open spec fn all_backed(inventory: Inventory, entries: Entries) -> bool {
    forall|key: KeyView, value: ValueView|
        entries.contains_key(key) && entries[key].contains(value) ==> #[trigger] is_backed(
            inventory,
            key,
            value,
        )
}

/// After eviction, every entry that is left is backed by the inventory.
pub proof fn lemma_eviction_leaves_backed(inventory: Inventory, entries: Entries)
    ensures
        all_backed(inventory, after_eviction(inventory, entries)),
{
    let left = after_eviction(inventory, entries);
    assert forall|key: KeyView, value: ValueView|
        left.contains_key(key) && left[key].contains(value) implies #[trigger] is_backed(
        inventory,
        key,
        value,
    ) by {
        assert(!stale_keys(inventory, entries).contains(key));
        assert(!key_is_stale(inventory, key, entries[key]));
        assert(!is_stale(inventory, key, value));
        lemma_not_stale_is_backed(inventory, key, value);
    }
}

/// `part` holds nothing but what `whole` holds: each key of `part` is a key
/// of `whole` with the same values.
pub open spec fn is_part_of(part: Entries, whole: Entries) -> bool {
    forall|key: KeyView| #[trigger]
        part.contains_key(key) ==> whole.contains_key(key) && part[key] == whole[key]
}

/// A part of a cache that is backed by the inventory is backed by it too.
pub proof fn lemma_part_is_backed(inventory: Inventory, part: Entries, whole: Entries)
    requires
        is_part_of(part, whole),
        all_backed(inventory, whole),
    ensures
        all_backed(inventory, part),
{
    assert forall|key: KeyView, value: ValueView|
        part.contains_key(key) && part[key].contains(value) implies #[trigger] is_backed(
        inventory,
        key,
        value,
    ) by {
        assert(whole.contains_key(key) && whole[key].contains(value));
    }
}

/// A probed service with the document that the probe led to.
pub type ResolvedView = (KeyView, ServiceView, WebHostMetaView);

/// The cache after the valid documents among `resolved` were stored, each
/// under its key and with `now` as its time. Documents that are not valid
/// leave no trace.
pub open spec fn with_valid_documents(
    entries: Entries,
    resolved: Seq<ResolvedView>,
    now: Timestamp,
) -> Entries
    decreases resolved.len(),
{
    if resolved.len() == 0 {
        entries
    } else {
        let before = with_valid_documents(entries, resolved.drop_last(), now);
        let last = resolved.last();
        if last.2.is_valid() {
            with_value(before, last.0, ValueView { timestamp: now, web_host_meta: last.2 })
        } else {
            before
        }
    }
}

/// Some valid document among `resolved` belongs under `key` and is the
/// document of `value`, and `value` has the time `now`.
pub open spec fn is_stored_from(
    resolved: Seq<ResolvedView>,
    now: Timestamp,
    key: KeyView,
    value: ValueView,
) -> bool {
    &&& value.timestamp == now
    &&& exists|i: int|
        0 <= i < resolved.len() && (#[trigger] resolved[i]).0 == key && resolved[i].2.is_valid()
            && resolved[i].2 == value.web_host_meta
}

/// What the cache holds after documents were stored: every value that it
/// held before, and every valid document among those that were handed in,
/// with the time of the cycle. Nothing else comes in, and nothing goes.
pub proof fn lemma_stored_documents(
    entries: Entries,
    resolved: Seq<ResolvedView>,
    now: Timestamp,
    key: KeyView,
    value: ValueView,
)
    ensures
        bag_of(with_valid_documents(entries, resolved, now), key).contains(value) <==> bag_of(
            entries,
            key,
        ).contains(value) || is_stored_from(resolved, now, key, value),
    decreases resolved.len(),
{
    if resolved.len() > 0 {
        let front = resolved.drop_last();
        let last = resolved.last();
        let before = with_valid_documents(entries, front, now);
        lemma_stored_documents(entries, front, now, key, value);
        if is_stored_from(front, now, key, value) {
            let i = choose|i: int|
                0 <= i < front.len() && (#[trigger] front[i]).0 == key && front[i].2.is_valid()
                    && front[i].2 == value.web_host_meta;
            assert(resolved[i] == front[i]);
        }
        if is_stored_from(resolved, now, key, value) {
            let i = choose|i: int|
                0 <= i < resolved.len() && (#[trigger] resolved[i]).0 == key
                    && resolved[i].2.is_valid() && resolved[i].2 == value.web_host_meta;
            if i < front.len() {
                assert(front[i] == resolved[i]);
            }
        }
        assert(resolved[resolved.len() - 1] == last);
        if last.2.is_valid() {
            let stored = ValueView { timestamp: now, web_host_meta: last.2 };
            let after = with_value(before, last.0, stored);
            assert(bag_of(after, last.0) == bag_of(before, last.0).insert(stored));
            if key != last.0 {
                assert(bag_of(after, key) == bag_of(before, key));
            }
        }
    }
}

/// After a whole cycle every value in the cache is backed by the inventory
/// of the cycle or was stored in the cycle: the first half leaves what is
/// backed, and the second half adds to it.
pub proof fn lemma_cycle_leaves_backed_or_new(
    inventory: Inventory,
    pending: Entries,
    resolved: Seq<ResolvedView>,
    now: Timestamp,
    key: KeyView,
    value: ValueView,
)
    requires
        all_backed(inventory, pending),
        bag_of(with_valid_documents(pending, resolved, now), key).contains(value),
    ensures
        is_backed(inventory, key, value) || is_stored_from(resolved, now, key, value),
{
    lemma_stored_documents(pending, resolved, now, key, value);
}

/// Every value of the cache holds a valid document.
pub open spec fn all_valid(entries: Entries) -> bool {
    forall|key: KeyView, value: ValueView|
        entries.contains_key(key) && #[trigger] entries[key].contains(value)
            ==> value.web_host_meta.is_valid()
}

/// A cycle keeps the cache free of documents that are not valid: eviction
/// brings nothing in, and of the documents that are handed in only the valid
/// ones are stored.
pub proof fn lemma_cycle_keeps_documents_valid(
    inventory: Inventory,
    entries: Entries,
    resolved: Seq<ResolvedView>,
    now: Timestamp,
)
    requires
        all_valid(entries),
    ensures
        all_valid(after_eviction(inventory, entries)),
        all_valid(with_valid_documents(after_eviction(inventory, entries), resolved, now)),
{
    let evicted = after_eviction(inventory, entries);
    let stored = with_valid_documents(evicted, resolved, now);
    assert forall|key: KeyView, value: ValueView|
        stored.contains_key(key) && #[trigger] stored[key].contains(
            value,
        ) implies value.web_host_meta.is_valid() by {
        lemma_stored_documents(evicted, resolved, now, key, value);
        if bag_of(evicted, key).contains(value) {
            assert(entries[key].contains(value));
        }
    }
}

/// Eviction and insertion in one cycle replace what stood under a key: once
/// the cycle is published, a key that the cycle evicted holds the documents
/// that the cycle stored under it and nothing of what it held before.
pub proof fn lemma_cycle_replaces_evicted_key(
    inventory: Inventory,
    entries: Entries,
    resolved: Seq<ResolvedView>,
    now: Timestamp,
    key: KeyView,
    value: ValueView,
)
    requires
        stale_keys(inventory, entries).contains(key),
    ensures
        bag_of(
            with_valid_documents(after_eviction(inventory, entries), resolved, now),
            key,
        ).contains(value) <==> is_stored_from(resolved, now, key, value),
{
    lemma_stored_documents(after_eviction(inventory, entries), resolved, now, key, value);
}

/// Under every key there is one value at most, however often it is stored.
pub open spec fn is_unambiguous(entries: Entries) -> bool {
    forall|key, a: ValueView, b: ValueView|
        #![trigger entries[key].contains(a), entries[key].contains(b)]
        entries.contains_key(key) && entries[key].contains(a) && entries[key].contains(b) ==> a
            == b
}

/// A cycle keeps the cache free of keys with two values, where no two valid
/// documents are handed in for one key and none for a key that the cache
/// still holds. That is so where the documents belong to the targets of the
/// cycle and the inventory lists no service twice.
pub proof fn lemma_cycle_keeps_one_value_each(
    entries: Entries,
    resolved: Seq<ResolvedView>,
    now: Timestamp,
)
    requires
        is_unambiguous(entries),
        forall|i: int|
            0 <= i < resolved.len() && (#[trigger] resolved[i]).2.is_valid()
                ==> !entries.contains_key(resolved[i].0),
        forall|i: int, j: int|
            0 <= i < j < resolved.len() && (#[trigger] resolved[i]).2.is_valid() && (
            #[trigger] resolved[j]).2.is_valid() ==> resolved[i].0 != resolved[j].0,
    ensures
        is_unambiguous(with_valid_documents(entries, resolved, now)),
{
    let stored = with_valid_documents(entries, resolved, now);
    assert forall|key, a: ValueView, b: ValueView|
        #![trigger stored[key].contains(a), stored[key].contains(b)]
        stored.contains_key(key) && stored[key].contains(a) && stored[key].contains(
            b,
        ) implies a == b by {
        lemma_stored_documents(entries, resolved, now, key, a);
        lemma_stored_documents(entries, resolved, now, key, b);
        if is_stored_from(resolved, now, key, a) && is_stored_from(resolved, now, key, b) {
            let i = choose|i: int|
                0 <= i < resolved.len() && (#[trigger] resolved[i]).0 == key
                    && resolved[i].2.is_valid() && resolved[i].2 == a.web_host_meta;
            let j = choose|j: int|
                0 <= j < resolved.len() && (#[trigger] resolved[j]).0 == key
                    && resolved[j].2.is_valid() && resolved[j].2 == b.web_host_meta;
            assert(i == j);
        }
    }
}

} // verus!
