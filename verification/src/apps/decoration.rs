
use crate::apps::cycle::is_unambiguous;
use crate::apps::store::{bag_of, is_lookup, Entries, Value, ValueView};
use crate::models::service::{Service, ServiceView};
use vstd::multiset::lemma_multiset_empty_len;
use crate::inventory::Inventory;
use vstd::prelude::*;

verus! {

/// A service as a listing shows it: with the base URL of the request that
/// asked, and, where the cache gave a value, with the cached document read
/// relative to that base URL. Where the cache gave none, the document of the
/// service stays as it was.
pub open spec fn decorated(
    service: ServiceView,
    cached: Option<ValueView>,
    base_url: Seq<char>,
) -> ServiceView {
    ServiceView {
        base_url: Some(base_url),
        web_host_meta: match cached {
            Some(value) => Some(value.web_host_meta.with_base_url(base_url)),
            None => service.web_host_meta,
        },
        ..service
    }
}

/// `output` is `input`, listed under `app` and decorated with what a lookup
/// in `seen` may give for it.
pub open spec fn is_decorated_from(
    seen: Entries,
    app: Seq<char>,
    output: ServiceView,
    input: ServiceView,
    base_url: Seq<char>,
) -> bool {
    exists|cached: Option<ValueView>|
        is_lookup(seen, (app, input.id), cached) && output == #[trigger] decorated(
            input,
            cached,
            base_url,
        )
}

/// `output` holds the services of `input`, one for one and in order, each
/// decorated from `seen`.
pub open spec fn is_decoration_of(
    seen: Entries,
    app: Seq<char>,
    output: Seq<ServiceView>,
    input: Seq<ServiceView>,
    base_url: Seq<char>,
) -> bool {
    &&& output.len() == input.len()
    &&& forall|i: int|
        0 <= i < input.len() ==> #[trigger] is_decorated_from(
            seen,
            app,
            output[i],
            input[i],
            base_url,
        )
}

/// `output` lists the apps of `input` that have a service, each with its
/// services decorated from `seen`.
pub open spec fn is_decorated_inventory(
    seen: Entries,
    output: Inventory,
    input: Inventory,
    base_url: Seq<char>,
) -> bool {
    &&& forall|app: Seq<char>| #[trigger]
        output.contains_key(app) <==> input.contains_key(app) && input[app].len() > 0
    &&& forall|app: Seq<char>|
        output.contains_key(app) ==> is_decoration_of(
            seen,
            app,
            #[trigger] output[app],
            input[app],
            base_url,
        )
}

/// What the cache holds for a service listed under `app`.
pub open spec fn cached_for(seen: Entries, app: Seq<char>, service: ServiceView) -> Option<
    ValueView,
> {
    if bag_of(seen, (app, service.id)).len() > 0 {
        Some(bag_of(seen, (app, service.id)).choose())
    } else {
        None
    }
}

/// The services of one app, decorated from the cache.
pub open spec fn decorated_services(
    seen: Entries,
    app: Seq<char>,
    services: Seq<ServiceView>,
    base_url: Seq<char>,
) -> Seq<ServiceView> {
    Seq::new(
        services.len(),
        |i: int| decorated(services[i], cached_for(seen, app, services[i]), base_url),
    )
}

/// A whole inventory, decorated from the cache. Apps without services are
/// left out.
pub open spec fn decorated_inventory(seen: Entries, inventory: Inventory, base_url: Seq<char>) -> Inventory {
    Map::new(
        |app: Seq<char>| inventory.contains_key(app) && inventory[app].len() > 0,
        |app: Seq<char>| decorated_services(seen, app, inventory[app], base_url),
    )
}

/// Every decorated service carries the base URL it was decorated with.
pub proof fn lemma_decorated_has_base_url(
    service: ServiceView,
    cached: Option<ValueView>,
    base_url: Seq<char>,
)
    ensures
        decorated(service, cached, base_url).base_url == Some(base_url),
{
}

/// Decorating twice with the same cached value and base URL gives what
/// decorating once gives.
pub proof fn lemma_decorated_is_idempotent(
    service: ServiceView,
    cached: Option<ValueView>,
    base_url: Seq<char>,
)
    ensures
        decorated(decorated(service, cached, base_url), cached, base_url) == decorated(
            service,
            cached,
            base_url,
        ),
{
}

/// While the cache does not change, decorating an inventory that is already
/// decorated changes nothing.
pub proof fn lemma_decorated_inventory_is_idempotent(
    seen: Entries,
    inventory: Inventory,
    base_url: Seq<char>,
)
    ensures
        decorated_inventory(seen, decorated_inventory(seen, inventory, base_url), base_url)
            == decorated_inventory(seen, inventory, base_url),
{
    let once = decorated_inventory(seen, inventory, base_url);
    let twice = decorated_inventory(seen, once, base_url);
    assert forall|app: Seq<char>| once.contains_key(app) implies twice.contains_key(app)
        && #[trigger] twice[app] == once[app] by {
        assert(once[app].len() == inventory[app].len());
        assert(twice[app] =~= once[app]);
    }
    assert(twice =~= once);
}

/// Where the cache holds one value at most under every key, there is one
/// way only to decorate an inventory from it.
pub proof fn lemma_decoration_is_determined(
    seen: Entries,
    output: Inventory,
    input: Inventory,
    base_url: Seq<char>,
)
    requires
        is_unambiguous(seen),
        is_decorated_inventory(seen, output, input, base_url),
    ensures
        output == decorated_inventory(seen, input, base_url),
{
    let wanted = decorated_inventory(seen, input, base_url);
    assert forall|app: Seq<char>| output.contains_key(app) implies #[trigger] output[app]
        == wanted[app] by {
        assert(is_decoration_of(seen, app, output[app], input[app], base_url));
        assert forall|i: int| 0 <= i < input[app].len() implies output[app][i] == wanted[app][i] by {
            let service = input[app][i];
            assert(is_decorated_from(seen, app, output[app][i], service, base_url));
            let cached = choose|cached: Option<ValueView>|
                is_lookup(seen, (app, service.id), cached) && output[app][i] == #[trigger] decorated(
                    service,
                    cached,
                    base_url,
                );
            let bag = bag_of(seen, (app, service.id));
            lemma_multiset_empty_len(bag);
            match cached {
                Some(value) => {
                    assert(bag.count(value) > 0);
                    assert(bag.contains(bag.choose()));
                },
                None => {},
            }
        }
        assert(output[app] =~= wanted[app]);
    }
    assert(output =~= wanted);
}

/// Decorating a second time from the same state of the cache changes
/// nothing, where the cache holds one value at most under every key: the
/// apps, the services and their order, the base URL and the documents are
/// those of the first time.
pub proof fn lemma_decorating_again_changes_nothing(
    seen: Entries,
    input: Inventory,
    once: Inventory,
    twice: Inventory,
    base_url: Seq<char>,
)
    requires
        is_unambiguous(seen),
        is_decorated_inventory(seen, once, input, base_url),
        is_decorated_inventory(seen, twice, once, base_url),
    ensures
        twice == once,
{
    lemma_decoration_is_determined(seen, once, input, base_url);
    lemma_decoration_is_determined(seen, twice, once, base_url);
    lemma_decorated_inventory_is_idempotent(seen, input, base_url);
}

/// Decorates one service with what the cache gave for it.
pub fn decorate_service(service: &Service, cached: Option<Value>, base_url: &String) -> (output:
    Service)
    ensures
        output@ == decorated(service@, cached.deep_view(), base_url@),
{
    let mut output = service.clone();
    output.set_base_url(base_url.clone());
    match cached {
        Some(value) => {
            output.set_web_host_meta(value.web_host_meta.with_base_url(base_url));
        },
        None => {},
    }
    output
}

} // verus!
