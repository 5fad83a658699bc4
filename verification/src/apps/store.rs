use crate::models::service::AppName;
use crate::models::time::Timestamp;
use crate::models::web_host_meta::{WebHostMeta, WebHostMetaView};
use evmap::{MapReadRef, ReadHandle, ReadHandleFactory, WriteHandle};
use std::sync::Arc;
use vstd::multiset::Multiset;
use vstd::prelude::*;

verus! {

/// App name and service id: the two strings by which a cached document is
/// found again.
pub type Key = (AppName, String);

pub type KeyView = (Seq<char>, Seq<char>);

/// A copy of a key.
pub fn copy_key(key: &Key) -> (copy: Key)
    ensures
        copy.deep_view() == key.deep_view(),
{
    (key.0.clone(), key.1.clone())
}

/// A cached document and the wall-clock time at which it was stored.
#[derive(Debug, PartialEq, Eq, Hash)]
pub struct Value {
    pub timestamp: Timestamp,
    pub web_host_meta: WebHostMeta,
}

pub struct ValueView {
    pub timestamp: Timestamp,
    pub web_host_meta: WebHostMetaView,
}

impl View for Value {
    type V = ValueView;

    open spec fn view(&self) -> ValueView {
        ValueView { timestamp: self.timestamp, web_host_meta: self.web_host_meta@ }
    }
}

impl DeepView for Value {
    type V = ValueView;

    open spec fn deep_view(&self) -> ValueView {
        self@
    }
}

impl Clone for Value {
    fn clone(&self) -> (copy: Value)
        ensures
            copy@ == self@,
    {
        Value { timestamp: self.timestamp, web_host_meta: self.web_host_meta.clone() }
    }
}

/// The map as a mathematical value: each key that is present, with the bag
/// of values stored under it.
pub type Entries = Map<KeyView, Multiset<ValueView>>;

pub open spec fn no_entries() -> Entries {
    Map::empty()
}

/// The values under `key`, none where the key is absent.
pub open spec fn bag_of(entries: Entries, key: KeyView) -> Multiset<ValueView> {
    if entries.contains_key(key) {
        entries[key]
    } else {
        Multiset::empty()
    }
}

/// One more value under `key`.
pub open spec fn with_value(entries: Entries, key: KeyView, value: ValueView) -> Entries {
    entries.insert(key, bag_of(entries, key).insert(value))
}

/// `key` and all its values gone.
pub open spec fn without_key(entries: Entries, key: KeyView) -> Entries {
    entries.remove(key)
}

/// `value` as the only value under `key`.
pub open spec fn replaced(entries: Entries, key: KeyView, value: ValueView) -> Entries {
    entries.insert(key, Multiset::singleton(value))
}

/// No key of `entries` is without a value.
pub open spec fn no_empty_bag(entries: Entries) -> bool {
    forall|key: KeyView| #[trigger] entries.contains_key(key) ==> entries[key].len() > 0
}

/// Evicting a key and then storing a value under it leaves the value as the
/// only one under the key: the two writes together are one replacement.
pub proof fn lemma_evict_then_insert_replaces(entries: Entries, key: KeyView, value: ValueView)
    ensures
        with_value(without_key(entries, key), key, value) == replaced(entries, key, value),
{
    assert(Multiset::<ValueView>::empty().insert(value) =~= Multiset::singleton(value));
    assert(with_value(without_key(entries, key), key, value) =~= replaced(entries, key, value));
}

/// `listing` names every key of `entries` exactly once, each with the values
/// stored under it, in some order.
pub open spec fn is_snapshot_of(listing: Seq<(KeyView, Seq<ValueView>)>, entries: Entries) -> bool {
    &&& forall|i: int|
        0 <= i < listing.len() ==> entries.contains_key(#[trigger] listing[i].0) && entries[listing[i].0]
            == listing[i].1.to_multiset()
    &&& forall|i: int, j: int|
        0 <= i < j < listing.len() ==> (#[trigger] listing[i]).0 != (#[trigger] listing[j]).0
    &&& forall|key: KeyView| #[trigger]
        entries.contains_key(key) ==> exists|i: int| 0 <= i < listing.len() && #[trigger] listing[i].0 == key
}

/// The write half of the shared map, an `evmap::WriteHandle`. The handle is
/// kept out of the verifier's sight: all that is known of it is what the
/// functions below state. It is the only writer of its map, so what readers
/// see changes in `store_refresh` and nowhere else.
#[verifier::external_body]
pub struct StoreWriter {
    handle: WriteHandle<Key, Arc<Value>>,
}

#[verifier::external_type_specification]
#[verifier::external_body]
#[verifier::reject_recursive_types(K)]
#[verifier::reject_recursive_types(V)]
#[verifier::reject_recursive_types(M)]
#[verifier::reject_recursive_types(S)]
pub struct ExReadHandleFactory<K, V, M, S>(ReadHandleFactory<K, V, M, S>) where
    K: Eq + std::hash::Hash,
    S: std::hash::BuildHasher;

#[verifier::external_type_specification]
#[verifier::external_body]
#[verifier::reject_recursive_types(K)]
#[verifier::reject_recursive_types(V)]
#[verifier::reject_recursive_types(M)]
#[verifier::reject_recursive_types(S)]
pub struct ExReadHandle<K, V, M, S>(ReadHandle<K, V, M, S>) where
    K: Eq + std::hash::Hash,
    S: std::hash::BuildHasher;

#[verifier::external_type_specification]
#[verifier::external_body]
#[verifier::reject_recursive_types(K)]
#[verifier::reject_recursive_types(V)]
#[verifier::reject_recursive_types(M)]
#[verifier::reject_recursive_types(S)]
pub struct ExMapReadRef<'rh, K, V, M, S>(MapReadRef<'rh, K, V, M, S>) where
    K: std::hash::Hash + Eq,
    V: Eq + std::hash::Hash,
    S: std::hash::BuildHasher;

/// What a live reference into the read half of the map shows. While the
/// reference lives the map cannot be refreshed, so this does not change.
pub uninterp spec fn seen(view: MapReadRef<'_, Key, Arc<Value>>) -> Entries;

/// What a reader sees that may have got no reference into the map: nothing,
/// where it got none.
pub open spec fn shown_to(view: Option<MapReadRef<'_, Key, Arc<Value>>>) -> Entries {
    match view {
        Some(view) => seen(view),
        None => no_entries(),
    }
}

/// `found` is what a lookup under `key` may give: one of the values under
/// the key, or nothing where the key is absent or has no value.
pub open spec fn is_lookup(entries: Entries, key: KeyView, found: Option<ValueView>) -> bool {
    match found {
        Some(value) => entries.contains_key(key) && entries[key].contains(value),
        None => bag_of(entries, key).len() == 0,
    }
}

/// What readers of the map see: the writes that came before the last refresh.
pub uninterp spec fn published(writer: StoreWriter) -> Entries;

/// What readers will see after the next refresh: every write so far.
pub uninterp spec fn staged(writer: StoreWriter) -> Entries;

/// `evmap::new`: the two handles of a new map, which holds nothing on either
/// side.
#[verifier::external_body]
pub(crate) fn store_new() -> (handles: (ReadHandle<Key, Arc<Value>>, StoreWriter))
    ensures
        published(handles.1) == no_entries(),
        staged(handles.1) == no_entries(),
{
    let (reader, writer) = evmap::new();
    (reader, StoreWriter { handle: writer })
}

/// `ReadHandle::factory`: a source of readers of the same map, which may be
/// shared among threads.
#[verifier::external_body]
pub(crate) fn store_factory(reader: &ReadHandle<Key, Arc<Value>>) -> (factory: ReadHandleFactory<
    Key,
    Arc<Value>,
>) {
    reader.factory()
}

/// `WriteHandle::insert`: the value joins the bag of the key, which is
/// created where the key is new. Readers see nothing of it yet.
#[verifier::external_body]
pub(crate) fn store_insert(writer: &mut StoreWriter, key: Key, value: Value)
    ensures
        staged(*final(writer)) == with_value(staged(*old(writer)), key.deep_view(), value@),
        published(*final(writer)) == published(*old(writer)),
{
    writer.handle.insert(key, Arc::new(value));
}

/// `WriteHandle::empty`: the key leaves the map with all its values. Readers
/// see nothing of it yet.
#[verifier::external_body]
pub(crate) fn store_empty(writer: &mut StoreWriter, key: Key)
    ensures
        staged(*final(writer)) == without_key(staged(*old(writer)), key.deep_view()),
        published(*final(writer)) == published(*old(writer)),
{
    writer.handle.empty(key);
}

/// `WriteHandle::refresh`: every write so far becomes visible to readers, all
/// at once.
#[verifier::external_body]
pub(crate) fn store_refresh(writer: &mut StoreWriter)
    ensures
        published(*final(writer)) == staged(*old(writer)),
        staged(*final(writer)) == staged(*old(writer)),
{
    writer.handle.refresh();
}

/// `ReadHandle::contains_key` through the write handle, which reads what
/// readers see.
#[verifier::external_body]
pub(crate) fn store_contains_key(writer: &StoreWriter, key: &Key) -> (found: bool)
    ensures
        found == published(*writer).contains_key(key.deep_view()),
{
    writer.handle.contains_key(key)
}

/// `ReadHandle::map_into` through the write handle: each key that readers
/// see, with copies of its values. The order of keys and of values is left
/// open.
#[verifier::external_body]
pub(crate) fn store_snapshot(writer: &StoreWriter) -> (listing: Vec<(Key, Vec<Value>)>)
    ensures
        is_snapshot_of(listing.deep_view(), published(*writer)),
{
    writer.handle.map_into(|k, vs| (k.clone(), vs.iter().map(|v| (**v).clone()).collect()))
}

/// `ReadHandleFactory::handle`: a reader of the same map.
#[verifier::external_body]
pub(crate) fn store_reader(factory: &ReadHandleFactory<Key, Arc<Value>>) -> (reader: ReadHandle<
    Key,
    Arc<Value>,
>) {
    factory.handle()
}

/// `ReadHandle::read`: a live reference into the read half of the map,
/// `None` where the map was never refreshed or its writer is gone. What the
/// reference shows is up to the writer, so nothing is promised of it.
#[verifier::external_body]
pub(crate) fn store_read<'rh>(reader: &'rh ReadHandle<Key, Arc<Value>>) -> (view: Option<
    MapReadRef<'rh, Key, Arc<Value>>,
>) {
    reader.read()
}

/// `MapReadRef::get_one`: a copy of one of the values that the reference
/// shows under `key`, `None` where it shows none.
#[verifier::external_body]
pub(crate) fn store_get_one(view: &MapReadRef<'_, Key, Arc<Value>>, key: &Key) -> (value: Option<
    Value,
>)
    ensures
        is_lookup(seen(*view), key.deep_view(), value.deep_view()),
{
    view.get_one(key).map(|v| (**v).clone())
}

} // verus!
