
use crate::apps::store::KeyView;
use crate::inventory::{is_listing_of, no_apps, Inventory};
use crate::models::service::ServiceView;
use vstd::prelude::*;

verus! {

/// A service to ask for its document, with the key under which the answer
/// will be stored.
pub type TargetView = (KeyView, ServiceView);

/// The services of one app that the cache holds no key for, in the order of
/// `services`.
pub open spec fn targets_in_app(
    app: Seq<char>,
    services: Seq<ServiceView>,
    cached: Set<KeyView>,
) -> Seq<TargetView>
    decreases services.len(),
{
    if services.len() == 0 {
        Seq::empty()
    } else {
        let rest = targets_in_app(app, services.drop_last(), cached);
        let service = services.last();
        if cached.contains((app, service.id)) {
            rest
        } else {
            rest.push(((app, service.id), service))
        }
    }
}

/// The targets of every app of `listing`, app after app.
pub open spec fn targets_in_listing(
    listing: Seq<(Seq<char>, Seq<ServiceView>)>,
    cached: Set<KeyView>,
) -> Seq<TargetView>
    decreases listing.len(),
{
    if listing.len() == 0 {
        Seq::empty()
    } else {
        targets_in_listing(listing.drop_last(), cached) + targets_in_app(
            listing.last().0,
            listing.last().1,
            cached,
        )
    }
}

/// `service` is listed under the key's app, the key holds its id, and the
/// cache holds nothing under the key.
pub open spec fn is_target(inventory: Inventory, cached: Set<KeyView>, target: TargetView) -> bool {
    &&& inventory.contains_key(target.0.0)
    &&& inventory[target.0.0].contains(target.1)
    &&& target.0.1 == target.1.id
    &&& !cached.contains(target.0)
}

/// Some listed service is unknown to the cache.
pub open spec fn has_target(inventory: Inventory, cached: Set<KeyView>) -> bool {
    exists|target: TargetView| is_target(inventory, cached, target)
}

/// An inventory that lists no app has no target.
pub proof fn lemma_empty_inventory_has_no_target(cached: Set<KeyView>)
    ensures
        !has_target(no_apps(), cached),
{
}

/// What `targets_in_app` holds.
pub proof fn lemma_targets_in_app(
    app: Seq<char>,
    services: Seq<ServiceView>,
    cached: Set<KeyView>,
    target: TargetView,
)
    ensures
        targets_in_app(app, services, cached).contains(target) <==> {
            &&& target.0.0 == app
            &&& services.contains(target.1)
            &&& target.0.1 == target.1.id
            &&& !cached.contains(target.0)
        },
    decreases services.len(),
{
    if services.len() > 0 {
        let front = services.drop_last();
        let rest = targets_in_app(app, front, cached);
        let service = services.last();
        lemma_targets_in_app(app, front, cached, target);
        assert(services =~= front.push(service));
        if services.contains(target.1) {
            let i = choose|i: int| 0 <= i < services.len() && services[i] == target.1;
            if i < front.len() {
                assert(front[i] == target.1);
            }
        }
        if front.contains(target.1) {
            let i = choose|i: int| 0 <= i < front.len() && front[i] == target.1;
            assert(services[i] == target.1);
        }
        assert(services[services.len() - 1] == service);
        if !cached.contains((app, service.id)) {
            let all = rest.push(((app, service.id), service));
            if all.contains(target) {
                let i = choose|i: int| 0 <= i < all.len() && all[i] == target;
                if i < rest.len() {
                    assert(rest[i] == target);
                }
            }
            if rest.contains(target) {
                let i = choose|i: int| 0 <= i < rest.len() && rest[i] == target;
                assert(all[i] == target);
            }
            assert(all[all.len() - 1] == ((app, service.id), service));
        }
    }
}

/// The targets of an inventory are the listed services that the cache does
/// not know, whatever the order in which the apps were listed.
pub proof fn lemma_targets_in_listing(
    listing: Seq<(Seq<char>, Seq<ServiceView>)>,
    inventory: Inventory,
    cached: Set<KeyView>,
    target: TargetView,
)
    requires
        is_listing_of(listing, inventory),
    ensures
        targets_in_listing(listing, cached).contains(target) <==> is_target(inventory, cached, target),
{
    lemma_targets_of_prefix(listing, listing.len() as int, cached, target);
    assert(listing.take(listing.len() as int) =~= listing);
    if is_target(inventory, cached, target) {
        let i = choose|i: int| 0 <= i < listing.len() && #[trigger] listing[i].0 == target.0.0;
        assert(listing[i].1 == inventory[target.0.0]);
    }
}

/// What the targets of the first `n` apps of a listing hold.
proof fn lemma_targets_of_prefix(
    listing: Seq<(Seq<char>, Seq<ServiceView>)>,
    n: int,
    cached: Set<KeyView>,
    target: TargetView,
)
    requires
        0 <= n <= listing.len(),
    ensures
        targets_in_listing(listing.take(n), cached).contains(target) <==> exists|i: int|
            0 <= i < n && (#[trigger] listing[i]).0 == target.0.0 && listing[i].1.contains(target.1)
                && target.0.1 == target.1.id && !cached.contains(target.0),
    decreases n,
{
    let prefix = listing.take(n);
    if n > 0 {
        let front = targets_in_listing(prefix.drop_last(), cached);
        let back = targets_in_app(prefix.last().0, prefix.last().1, cached);
        assert(prefix.drop_last() =~= listing.take(n - 1));
        assert(prefix.last() == listing[n - 1]);
        lemma_targets_of_prefix(listing, n - 1, cached, target);
        lemma_targets_in_app(listing[n - 1].0, listing[n - 1].1, cached, target);
        let all = front + back;
        if all.contains(target) {
            let i = choose|i: int| 0 <= i < all.len() && all[i] == target;
            if i < front.len() {
                assert(front[i] == target);
            } else {
                assert(back[i - front.len()] == target);
            }
        }
        if front.contains(target) {
            let i = choose|i: int| 0 <= i < front.len() && front[i] == target;
            assert(all[i] == target);
        }
        if back.contains(target) {
            let i = choose|i: int| 0 <= i < back.len() && back[i] == target;
            assert(all[front.len() + i] == target);
        }
    }
}

/// An inventory of one service that the cache does not know has exactly one
/// target: that service, under the key made of its app and its id.
pub proof fn lemma_one_service_is_one_target(
    listing: Seq<(Seq<char>, Seq<ServiceView>)>,
    inventory: Inventory,
    cached: Set<KeyView>,
    app: Seq<char>,
    service: ServiceView,
)
    requires
        is_listing_of(listing, inventory),
        inventory == Map::<Seq<char>, Seq<ServiceView>>::empty().insert(app, seq![service]),
        !cached.contains((app, service.id)),
    ensures
        targets_in_listing(listing, cached) == seq![((app, service.id), service)],
{
    assert(inventory.contains_key(app));
    let at = choose|i: int| 0 <= i < listing.len() && #[trigger] listing[i].0 == app;
    assert(listing.len() == 1) by {
        if listing.len() > 1 {
            assert(inventory.contains_key(listing[0].0));
            assert(inventory.contains_key(listing[1].0));
            assert(listing[0].0 != listing[1].0);
        }
    }
    assert(inventory.contains_key(listing[0].0));
    let services = listing[0].1;
    assert(services == seq![service]);
    assert(listing.drop_last() =~= Seq::empty());
    assert(services.drop_last() =~= Seq::empty());
    assert(services.last() == service);
    assert(targets_in_app(app, services.drop_last(), cached) =~= Seq::empty());
    assert(targets_in_app(app, services, cached) =~= seq![((app, service.id), service)]);
    assert(targets_in_listing(listing.drop_last(), cached) =~= Seq::empty());
    assert(targets_in_listing(listing, cached) =~= seq![((app, service.id), service)]);
}

} // verus!
