use crate::apps::store::{no_empty_bag, no_entries, Entries, Key, KeyView, Value, ValueView};
use crate::inventory::{inventory_get_vec, no_apps, services_by_app, Inventory};
use crate::models::service::{Service, ServiceStatus, ServiceView};
use multimap::MultiMap;
use vstd::multiset::Multiset;
use vstd::prelude::*;

verus! {

/// Some service in `services` has the id.
pub open spec fn lists_id(services: Seq<ServiceView>, id: Seq<char>) -> bool {
    exists|i: int| 0 <= i < services.len() && (#[trigger] services[i]).id == id
}

/// `i` is the place of the first service in `services` that has the id.
pub open spec fn is_first_with_id(services: Seq<ServiceView>, id: Seq<char>, i: int) -> bool {
    &&& 0 <= i < services.len()
    &&& services[i].id == id
    &&& forall|j: int| 0 <= j < i ==> (#[trigger] services[j]).id != id
}

/// The service no longer vouches for a document stored at the value's time:
/// it is paused, or it started after the document was stored.
pub open spec fn outdates(service: ServiceView, value: ValueView) -> bool {
    service.status == ServiceStatus::Paused || service.started_at@ > value.timestamp@
}

/// The entry has to leave the cache: its app is gone, its service is gone,
/// or the service outdates it.
pub open spec fn is_stale(inventory: Inventory, key: KeyView, value: ValueView) -> bool {
    ||| !inventory.contains_key(key.0)
    ||| !lists_id(inventory[key.0], key.1)
    ||| exists|i: int| #[trigger]
        is_first_with_id(inventory[key.0], key.1, i) && outdates(inventory[key.0][i], value)
}

/// A key leaves the cache when one of its values is stale.
pub open spec fn key_is_stale(
    inventory: Inventory,
    key: KeyView,
    bag: Multiset<ValueView>,
) -> bool {
    exists|value: ValueView| bag.contains(value) && #[trigger] is_stale(inventory, key, value)
}

/// The keys of `entries` that have to leave.
pub open spec fn stale_keys(inventory: Inventory, entries: Entries) -> Set<KeyView> {
    Set::new(|key: KeyView| entries.contains_key(key) && key_is_stale(inventory, key, entries[key]))
}

/// The cache after the stale keys have left with all their values.
pub open spec fn after_eviction(inventory: Inventory, entries: Entries) -> Entries {
    entries.remove_keys(stale_keys(inventory, entries))
}

/// The inventory lists, under the key's app, a service with the key's id that
/// is not paused and did not start after the value was stored.
pub open spec fn is_backed(inventory: Inventory, key: KeyView, value: ValueView) -> bool {
    &&& inventory.contains_key(key.0)
    &&& exists|i: int|
        0 <= i < inventory[key.0].len() && (#[trigger] inventory[key.0][i]).id == key.1
            && inventory[key.0][i].status != ServiceStatus::Paused && inventory[key.0][i].started_at@
            <= value.timestamp@
}

/// An entry that is not stale is backed by the inventory.
pub proof fn lemma_not_stale_is_backed(inventory: Inventory, key: KeyView, value: ValueView)
    requires
        !is_stale(inventory, key, value),
    ensures
        is_backed(inventory, key, value),
{
    let services = inventory[key.0];
    let first = first_index_with_id(services, key.1);
    assert(is_first_with_id(services, key.1, first));
    assert(!outdates(services[first], value));
}

/// While the service of an entry is listed and running, the entry is stale
/// exactly when the service started after the entry was stored. A service
/// that started at the very time of the entry leaves it in place.
pub proof fn lemma_running_service_outdates_strictly(
    inventory: Inventory,
    key: KeyView,
    value: ValueView,
    i: int,
)
    requires
        inventory.contains_key(key.0),
        is_first_with_id(inventory[key.0], key.1, i),
        inventory[key.0][i].status == ServiceStatus::Running,
    ensures
        is_stale(inventory, key, value) <==> inventory[key.0][i].started_at@ > value.timestamp@,
{
    let services = inventory[key.0];
    assert(services[i].id == key.1);
    assert forall|j: int| #[trigger] is_first_with_id(services, key.1, j) implies j == i by {}
}

/// While the service of an entry is paused, the entry is stale.
pub proof fn lemma_paused_service_outdates(
    inventory: Inventory,
    key: KeyView,
    value: ValueView,
    i: int,
)
    requires
        inventory.contains_key(key.0),
        is_first_with_id(inventory[key.0], key.1, i),
        inventory[key.0][i].status == ServiceStatus::Paused,
    ensures
        is_stale(inventory, key, value),
{
}

/// Against an inventory that lists no app, every entry is stale: eviction
/// leaves nothing of a cache in which each key has a value.
pub proof fn lemma_empty_inventory_evicts_all(entries: Entries)
    requires
        no_empty_bag(entries),
    ensures
        after_eviction(no_apps(), entries) == no_entries(),
{
    assert forall|key: KeyView| entries.contains_key(key) implies stale_keys(
        no_apps(),
        entries,
    ).contains(key) by {
        let value = entries[key].choose();
        assert(entries[key].len() > 0);
        assert(entries[key].contains(value)) by {
            if !entries[key].contains(value) {
                assert forall|v: ValueView| entries[key].count(v) == 0 by {
                    if entries[key].count(v) > 0 {
                        assert(entries[key].contains(v));
                    }
                }
                assert(entries[key] =~= Multiset::empty());
            }
        }
        assert(is_stale(no_apps(), key, value));
    }
    assert(after_eviction(no_apps(), entries) =~= no_entries());
}

/// The least index at which `services` holds the id.
pub proof fn first_index_with_id(services: Seq<ServiceView>, id: Seq<char>) -> (first: int)
    requires
        lists_id(services, id),
    ensures
        is_first_with_id(services, id, first),
{
    let some = choose|i: int| 0 <= i < services.len() && (#[trigger] services[i]).id == id;
    least_index_below(services, id, some)
}

/// The least index, not above `bound`, at which `services` holds the id.
proof fn least_index_below(services: Seq<ServiceView>, id: Seq<char>, bound: int) -> (first: int)
    requires
        0 <= bound < services.len(),
        services[bound].id == id,
    ensures
        is_first_with_id(services, id, first),
    decreases bound,
{
    if exists|j: int| 0 <= j < bound && (#[trigger] services[j]).id == id {
        let j = choose|j: int| 0 <= j < bound && (#[trigger] services[j]).id == id;
        least_index_below(services, id, j)
    } else {
        bound
    }
}

/// The first service in `services` with the given id.
pub fn find_service<'a>(services: &'a Vec<Service>, id: &String) -> (found: Option<&'a Service>)
    ensures
        found is Some == lists_id(services.deep_view(), id@),
        found matches Some(service) ==> exists|i: int| #[trigger]
            is_first_with_id(services.deep_view(), id@, i) && services.deep_view()[i] == service@,
{
    let mut i: usize = 0;
    while i < services.len()
        invariant
            i <= services.len(),
            forall|j: int| 0 <= j < i ==> (#[trigger] services.deep_view()[j]).id != id@,
        decreases services.len() - i,
    {
        if *services[i].id() == *id {
            assert(services.deep_view()[i as int] == services[i as int]@);
            assert(is_first_with_id(services.deep_view(), id@, i as int));
            return Some(&services[i]);
        }
        assert(services.deep_view()[i as int] == services[i as int]@);
        i += 1;
    }
    None
}

/// Whether one cached value is stale against the inventory.
pub fn value_is_stale(
    inventory: &MultiMap<String, Service>,
    key: &Key,
    value: &Value,
) -> (stale: bool)
    ensures
        stale == is_stale(services_by_app(*inventory), key.deep_view(), value@),
{
    match inventory_get_vec(inventory, &key.0) {
        None => true,
        Some(services) => match find_service(services, &key.1) {
            None => true,
            Some(service) => {
                let outdated = match service.status() {
                    ServiceStatus::Paused => true,
                    ServiceStatus::Running => service.started_at().is_after(&value.timestamp),
                };
                proof {
                    let list = services.deep_view();
                    let first = choose|i: int| #[trigger]
                        is_first_with_id(list, key.1@, i) && list[i] == service@;
                    assert forall|i: int| #[trigger] is_first_with_id(list, key.1@, i) implies i
                        == first by {}
                }
                outdated
            },
        },
    }
}

/// Whether a key has to leave, given copies of all its values.
pub fn any_value_is_stale(
    inventory: &MultiMap<String, Service>,
    key: &Key,
    values: &Vec<Value>,
) -> (stale: bool)
    ensures
        stale == key_is_stale(
            services_by_app(*inventory),
            key.deep_view(),
            values.deep_view().to_multiset(),
        ),
{
    let ghost inv = services_by_app(*inventory);
    let ghost bag = values.deep_view().to_multiset();
    let mut i: usize = 0;
    while i < values.len()
        invariant
            i <= values.len(),
            inv == services_by_app(*inventory),
            bag == values.deep_view().to_multiset(),
            forall|j: int| 0 <= j < i ==> !is_stale(inv, key.deep_view(), #[trigger] values.deep_view()[j]),
        decreases values.len() - i,
    {
        assert(values.deep_view()[i as int] == values[i as int]@);
        if value_is_stale(inventory, key, &values[i]) {
            proof {
                values.deep_view().to_multiset_ensures();
                assert(values.deep_view().contains(values[i as int]@));
                assert(bag.contains(values[i as int]@));
            }
            return true;
        }
        i += 1;
    }
    proof {
        values.deep_view().to_multiset_ensures();
        assert forall|value: ValueView| bag.contains(value) implies !is_stale(
            inv,
            key.deep_view(),
            value,
        ) by {
            assert(values.deep_view().contains(value));
            let j = choose|j: int| 0 <= j < values.deep_view().len() && values.deep_view()[j] == value;
            assert(!is_stale(inv, key.deep_view(), values.deep_view()[j]));
        }
    }
    false
}

} // verus!
