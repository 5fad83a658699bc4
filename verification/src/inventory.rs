use crate::models::service::{Service, ServiceView};
use multimap::MultiMap;
use vstd::prelude::*;

verus! {

#[verifier::external_type_specification]
#[verifier::external_body]
#[verifier::reject_recursive_types(K)]
#[verifier::reject_recursive_types(V)]
#[verifier::reject_recursive_types(S)]
pub struct ExMultiMap<K, V, S>(MultiMap<K, V, S>);

/// An inventory as a mathematical value: for each app name that it lists,
/// the services filed under that name.
pub type Inventory = Map<Seq<char>, Seq<ServiceView>>;

/// What an inventory holds: for each app name that it lists, the services
/// filed under that name, in the order in which they were filed.
pub uninterp spec fn services_by_app(inventory: MultiMap<String, Service>) -> Inventory;

/// The inventory that lists no app.
pub open spec fn no_apps() -> Inventory {
    Map::empty()
}

/// The services filed under `app`, none where the app is not listed.
pub open spec fn services_of(by_app: Inventory, app: Seq<char>) -> Seq<
    ServiceView,
> {
    if by_app.contains_key(app) {
        by_app[app]
    } else {
        Seq::empty()
    }
}

/// The inventory after one more service is filed under `app`.
pub open spec fn with_service(
    by_app: Inventory,
    app: Seq<char>,
    service: ServiceView,
) -> Inventory {
    by_app.insert(app, services_of(by_app, app).push(service))
}

/// `listing` names every app of `by_app` exactly once, each with its services.
pub open spec fn is_listing_of(
    listing: Seq<(Seq<char>, Seq<ServiceView>)>,
    by_app: Inventory,
) -> bool {
    &&& forall|i: int|
        0 <= i < listing.len() ==> by_app.contains_key(#[trigger] listing[i].0) && by_app[listing[i].0]
            == listing[i].1
    &&& forall|i: int, j: int|
        0 <= i < j < listing.len() ==> (#[trigger] listing[i]).0 != (#[trigger] listing[j]).0
    &&& forall|app: Seq<char>| #[trigger]
        by_app.contains_key(app) ==> exists|i: int| 0 <= i < listing.len() && #[trigger] listing[i].0 == app
}

/// `MultiMap::new`: a map without keys.
#[verifier::external_body]
pub(crate) fn inventory_new() -> (inventory: MultiMap<String, Service>)
    ensures
        services_by_app(inventory) == no_apps(),
{
    MultiMap::new()
}

/// `MultiMap::insert`: the value is pushed to the end of the key's vector,
/// which is created where the key is new. No other key changes.
#[verifier::external_body]
pub(crate) fn inventory_insert(
    inventory: &mut MultiMap<String, Service>,
    app: String,
    service: Service,
)
    ensures
        services_by_app(*final(inventory)) == with_service(
            services_by_app(*old(inventory)),
            app@,
            service@,
        ),
{
    inventory.insert(app, service);
}

/// `MultiMap::get_vec`: the key's vector, `None` where the map lacks the key.
#[verifier::external_body]
pub(crate) fn inventory_get_vec<'a>(
    inventory: &'a MultiMap<String, Service>,
    app: &String,
) -> (services: Option<&'a Vec<Service>>)
    ensures
        services is Some == services_by_app(*inventory).contains_key(app@),
        services matches Some(list) ==> list.deep_view() == services_by_app(*inventory)[app@],
{
    inventory.get_vec(app)
}

/// `MultiMap::iter_all`, collected: each key of the map once, with its
/// vector. The order in which the keys come is left open.
#[verifier::external_body]
pub(crate) fn inventory_listing<'a>(inventory: &'a MultiMap<String, Service>) -> (listing: Vec<
    (&'a String, &'a Vec<Service>),
>)
    ensures
        is_listing_of(listing.deep_view(), services_by_app(*inventory)),
{
    inventory.iter_all().collect()
}

} // verus!
