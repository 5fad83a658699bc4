use crate::apps::cycle::{
    all_backed, apps_among, is_part_of, lemma_eviction_leaves_backed, lemma_part_is_backed,
    stale_among, with_valid_documents,
};
use crate::apps::decoration::{
    decorate_service, decorated, is_decorated_from, is_decorated_inventory, is_decoration_of,
};
use crate::apps::eviction::{
    after_eviction, any_value_is_stale, lemma_empty_inventory_evicts_all, stale_keys,
};
use crate::apps::store::{
    copy_key, is_lookup, is_snapshot_of, no_empty_bag, no_entries, published, shown_to, staged,
    store_contains_key, store_empty, store_factory, store_get_one, store_insert, store_new,
    store_read, store_reader, store_refresh, store_snapshot, with_value, Entries, Key, KeyView,
    StoreWriter, Value, ValueView,
};
use crate::apps::targets::{
    has_target, is_target, lemma_targets_in_listing, targets_in_app, targets_in_listing, TargetView,
};
use crate::clock::clock_now;
use crate::inventory::{
    inventory_insert, inventory_listing, inventory_new, is_listing_of, no_apps, services_by_app,
    services_of,
};
use crate::models::request_info::RequestInfo;
use crate::models::service::{AppName, Service, ServiceView};
use crate::models::time::Timestamp;
use crate::models::web_host_meta::{WebHostMeta, WebHostMetaView};
use evmap::{MapReadRef, ReadHandle, ReadHandleFactory};
use multimap::MultiMap;
use std::sync::Arc;
use vstd::prelude::*;

verus! {

/// Seconds from one cycle of the crawler to the next.
pub const CRAWL_PERIOD_SECONDS: u64 = 5;

/// The read side of the host-meta cache.
pub struct HostMetaCache {
    reader_factory: ReadHandleFactory<Key, Arc<Value>>,
}

/// The write side of the host-meta cache. What it changes becomes visible to
/// readers when it publishes, all at once. Between the two halves of a cycle
/// it holds the evictions of the cycle back: `evicted` are the keys that have
/// left the cache but are still shown to readers.
pub struct HostMetaCrawler {
    writer: StoreWriter,
    evicted: Vec<Key>,
}

/// The keys of a list, as a set.
pub open spec fn keys_of(keys: Seq<KeyView>) -> Set<KeyView> {
    Set::new(|key: KeyView| keys.contains(key))
}

/// A new cache, which holds nothing, as its two sides.
pub fn new() -> (handles: (HostMetaCache, HostMetaCrawler))
    ensures
        handles.1.wf(),
        handles.1.is_settled(),
        handles.1.entries() == no_entries(),
{
    let (reader, writer) = store_new();
    let crawler = HostMetaCrawler { writer, evicted: Vec::new() };
    assert(no_entries().remove_keys(keys_of(crawler.evicted.deep_view())) =~= no_entries());
    (HostMetaCache { reader_factory: store_factory(&reader) }, crawler)
}

/// One reader of the cache.
pub struct CacheReader {
    reader: ReadHandle<Key, Arc<Value>>,
}

/// The cache in one state: what the crawler had published when the view was
/// taken. While a view lives the crawler cannot publish, so a view is to be
/// let go of soon.
pub struct CacheView<'a> {
    view: Option<MapReadRef<'a, Key, Arc<Value>>>,
}

impl HostMetaCache {
    /// A reader of the cache.
    pub fn reader(&self) -> CacheReader {
        CacheReader { reader: store_reader(&self.reader_factory) }
    }

    /// Decorates every listed service: each gets the base URL of the
    /// request, and each for which the cache shows a document gets that
    /// document, read relative to the base URL. The result lists the same
    /// apps with the same services in the same order; an app without
    /// services is left out.
    ///
    /// All lookups of one call see the cache in one state: what some refresh
    /// of the crawler published. Which state that is, the call cannot know;
    /// to see one state in several calls, take a view and decorate with it.
    pub fn update_meta_data(
        &self,
        services: MultiMap<AppName, Service>,
        request_info: &RequestInfo,
    ) -> (assigned_apps: MultiMap<AppName, Service>)
        ensures
            exists|shown: Entries| #[trigger]
                is_decorated_inventory(
                    shown,
                    services_by_app(assigned_apps),
                    services_by_app(services),
                    request_info.spec_base_url(),
                ),
            forall|app: Seq<char>, i: int|
                #![trigger services_by_app(assigned_apps)[app][i]]
                services_by_app(assigned_apps).contains_key(app) && 0 <= i < services_by_app(
                    assigned_apps,
                )[app].len() ==> services_by_app(assigned_apps)[app][i].base_url == Some(
                    request_info.spec_base_url(),
                ),
    {
        let reader = self.reader();
        let view = reader.view();
        view.decorate(&services, request_info)
    }
}

impl CacheReader {
    /// The cache as it is shown now, held still until the view is let go of.
    pub fn view<'a>(&'a self) -> CacheView<'a> {
        CacheView { view: store_read(&self.reader) }
    }
}

impl<'a> CacheView<'a> {
    /// What the view shows.
    pub closed spec fn shown(&self) -> Entries {
        shown_to(self.view)
    }

    /// Decorates every listed service from what the view shows: each gets
    /// the base URL of the request, and each for which the view shows a
    /// document gets that document, read relative to the base URL. The
    /// result lists the same apps with the same services in the same order;
    /// an app without services is left out.
    pub fn decorate(
        &self,
        services: &MultiMap<AppName, Service>,
        request_info: &RequestInfo,
    ) -> (assigned_apps: MultiMap<AppName, Service>)
        ensures
            is_decorated_inventory(
                self.shown(),
                services_by_app(assigned_apps),
                services_by_app(*services),
                request_info.spec_base_url(),
            ),
            forall|app: Seq<char>, i: int|
                #![trigger services_by_app(assigned_apps)[app][i]]
                services_by_app(assigned_apps).contains_key(app) && 0 <= i < services_by_app(
                    assigned_apps,
                )[app].len() ==> services_by_app(assigned_apps)[app][i].base_url == Some(
                    request_info.spec_base_url(),
                ),
    {
        let ghost input = services_by_app(*services);
        let ghost base_url = request_info.spec_base_url();
        let mut assigned_apps = inventory_new();
        let ghost shown = shown_to(self.view);
        let listed = inventory_listing(services);
        let ghost listing = listed.deep_view();
        let mut i: usize = 0;
        while i < listed.len()
            invariant
                i <= listed.len(),
                listing == listed.deep_view(),
                is_listing_of(listing, input),
                base_url == request_info.spec_base_url(),
                shown == shown_to(self.view),
                services_by_app(assigned_apps).dom() =~= apps_among(listing, i as int),
                forall|app: Seq<char>|
                    #![trigger services_by_app(assigned_apps)[app]]
                    services_by_app(assigned_apps).contains_key(app) ==> is_decoration_of(
                        shown,
                        app,
                        services_by_app(assigned_apps)[app],
                        input[app],
                        base_url,
                    ),
            decreases listed.len() - i,
        {
            let app_name: &String = listed[i].0;
            let list: &Vec<Service> = listed[i].1;
            let ghost app = app_name@;
            let ghost given = list.deep_view();
            let ghost before = services_by_app(assigned_apps);
            assert(listing[i as int] == (app, given));
            assert(!before.contains_key(app)) by {
                if before.contains_key(app) {
                    assert(apps_among(listing, i as int).contains(app));
                }
            }
            let mut k: usize = 0;
            while k < list.len()
                invariant
                    k <= list.len(),
                    given == list.deep_view(),
                    app == app_name@,
                    base_url == request_info.spec_base_url(),
                    shown == shown_to(self.view),
                    !before.contains_key(app),
                    k == 0 ==> services_by_app(assigned_apps) == before,
                    k > 0 ==> services_by_app(assigned_apps).dom() =~= before.dom().insert(app),
                    forall|other: Seq<char>|
                        #![trigger services_by_app(assigned_apps)[other]]
                        before.contains_key(other) ==> services_by_app(assigned_apps)[other]
                            == before[other],
                    k > 0 ==> is_decoration_of(
                        shown,
                        app,
                        services_by_app(assigned_apps)[app],
                        given.take(k as int),
                        base_url,
                    ),
                decreases list.len() - k,
            {
                let service = &list[k];
                let key: Key = (app_name.clone(), service.id().clone());
                let cached = match &self.view {
                    Some(v) => store_get_one(v, &key),
                    None => None,
                };
                assert(is_lookup(shown, (app, service@.id), cached.deep_view()));
                let ghost filed = services_of(services_by_app(assigned_apps), app);
                let decorated_service = decorate_service(
                    service,
                    cached,
                    request_info.get_base_url(),
                );
                assert(given[k as int] == service@);
                inventory_insert(&mut assigned_apps, key.0, decorated_service);
                proof {
                    let now = services_by_app(assigned_apps)[app];
                    assert(now == filed.push(decorated_service@));
                    assert(given.take(k + 1) =~= given.take(k as int).push(service@));
                    let wanted = given.take(k + 1);
                    assert forall|m: int| 0 <= m < wanted.len() implies #[trigger] is_decorated_from(
                        shown,
                        app,
                        now[m],
                        wanted[m],
                        base_url,
                    ) by {
                        if m < k {
                            assert(now[m] == filed[m]);
                            assert(is_decorated_from(
                                shown,
                                app,
                                filed[m],
                                given.take(k as int)[m],
                                base_url,
                            ));
                        } else {
                            assert(now[m] == decorated(wanted[m], cached.deep_view(), base_url));
                        }
                    }
                    assert(is_decoration_of(shown, app, now, wanted, base_url));
                }
                k += 1;
            }
            proof {
                assert(given.take(list.len() as int) =~= given);
                assert(apps_among(listing, i + 1) =~= if given.len() > 0 {
                    apps_among(listing, i as int).insert(app)
                } else {
                    apps_among(listing, i as int)
                });
                assert(input.contains_key(listing[i as int].0));
                assert(input[app] == given);
            }
            i += 1;
        }
        proof {
            let output = services_by_app(assigned_apps);
            assert forall|app: Seq<char>| #[trigger]
                output.contains_key(app) <==> input.contains_key(app) && input[app].len()
                    > 0 by {
                if input.contains_key(app) && input[app].len() > 0 {
                    let j = choose|j: int| 0 <= j < listing.len() && #[trigger] listing[j].0 == app;
                    assert(listing[j].0 == app);
                    assert(apps_among(listing, listed.len() as int).contains(app));
                }
                if output.contains_key(app) {
                    assert(apps_among(listing, listed.len() as int).contains(app));
                }
            }
            assert(is_decorated_inventory(shown, output, input, base_url));
            assert forall|app: Seq<char>, i: int|
                output.contains_key(app) && 0 <= i < output[app].len() implies (
            #[trigger] output[app][i]).base_url == Some(base_url) by {
                assert(is_decorated_from(shown, app, output[app][i], input[app][i], base_url));
            }
        }
        assigned_apps
    }
}

/// What one cycle of the crawler asks of its caller.
#[derive(Debug)]
pub enum CrawlStep {
    /// The cache knows every listed service: nothing to do until the next
    /// cycle.
    Sleep,
    /// These services are to be probed. `now` is the time of the cycle, with
    /// which the documents will be stored; `duration_prevant_startup` is how
    /// long the process had run by then, in nanoseconds.
    Probe { targets: Vec<(Key, Service)>, now: Timestamp, duration_prevant_startup: i128 },
}

impl HostMetaCrawler {
    /// The cache as readers see it.
    pub closed spec fn entries(&self) -> Entries {
        published(self.writer)
    }

    /// The cache as readers will see it once the crawler has published.
    pub closed spec fn pending(&self) -> Entries {
        staged(self.writer)
    }

    /// Nothing waits to be published.
    pub open spec fn is_settled(&self) -> bool {
        self.pending() == self.entries()
    }

    /// All that waits to be published are evictions, and the crawler knows
    /// which; and no key that readers see is without a value.
    pub closed spec fn wf(&self) -> bool {
        &&& staged(self.writer) == published(self.writer).remove_keys(
            keys_of(self.evicted.deep_view()),
        )
        &&& no_empty_bag(published(self.writer))
    }

    /// In a well-formed cache every key has a value, and what waits to be
    /// published is a part of what readers see: each key that is left shows
    /// the values that it shows to readers.
    pub proof fn lemma_wf(&self)
        requires
            self.wf(),
        ensures
            no_empty_bag(self.entries()),
            no_empty_bag(self.pending()),
            is_part_of(self.pending(), self.entries()),
    {
    }

    /// Whether the key has left the cache without readers having seen it
    /// leave.
    fn is_evicted(&self, key: &Key) -> (found: bool)
        ensures
            found == keys_of(self.evicted.deep_view()).contains(key.deep_view()),
    {
        let ghost keys = self.evicted.deep_view();
        let mut i: usize = 0;
        while i < self.evicted.len()
            invariant
                i <= self.evicted.len(),
                keys == self.evicted.deep_view(),
                forall|j: int| 0 <= j < i ==> keys[j] != key.deep_view(),
            decreases self.evicted.len() - i,
        {
            assert(keys[i as int] == self.evicted[i as int].deep_view());
            if self.evicted[i].0 == key.0 && self.evicted[i].1 == key.1 {
                return true;
            }
            i += 1;
        }
        false
    }

    /// Makes every change so far visible to readers, all at once.
    pub fn publish(&mut self)
        requires
            old(self).wf(),
        ensures
            final(self).wf(),
            final(self).is_settled(),
            final(self).entries() == old(self).pending(),
    {
        store_refresh(&mut self.writer);
        self.evicted = Vec::new();
        assert(published(self.writer).remove_keys(keys_of(self.evicted.deep_view()))
            =~= published(self.writer));
    }

    /// Evicts every key of which a value that readers see is stale against
    /// `apps`. Readers see nothing of it until the crawler publishes.
    pub fn clear_stale_web_host_meta(&mut self, apps: &MultiMap<AppName, Service>)
        requires
            old(self).wf(),
        ensures
            final(self).wf(),
            final(self).entries() == old(self).entries(),
            final(self).pending() == old(self).pending().remove_keys(
                stale_keys(services_by_app(*apps), old(self).entries()),
            ),
            all_backed(services_by_app(*apps), final(self).pending()),
    {
        let ghost inventory = services_by_app(*apps);
        let ghost before = published(self.writer);
        let ghost staged_before = staged(self.writer);
        let ghost evicted_before = keys_of(self.evicted.deep_view());
        let snapshot = store_snapshot(&self.writer);
        let ghost listing = snapshot.deep_view();
        let mut i: usize = 0;
        assert(staged_before.remove_keys(stale_among(inventory, listing, 0)) =~= staged_before);
        assert(evicted_before.union(stale_among(inventory, listing, 0)) =~= evicted_before);
        while i < snapshot.len()
            invariant
                i <= snapshot.len(),
                inventory == services_by_app(*apps),
                listing == snapshot.deep_view(),
                is_snapshot_of(listing, before),
                published(self.writer) == before,
                staged(self.writer) == staged_before.remove_keys(
                    stale_among(inventory, listing, i as int),
                ),
                keys_of(self.evicted.deep_view()) == evicted_before.union(
                    stale_among(inventory, listing, i as int),
                ),
            decreases snapshot.len() - i,
        {
            assert(listing[i as int] == snapshot[i as int].deep_view());
            let ghost known = self.evicted.deep_view();
            let stale = any_value_is_stale(apps, &snapshot[i].0, &snapshot[i].1);
            if stale {
                store_empty(&mut self.writer, copy_key(&snapshot[i].0));
                self.evicted.push(copy_key(&snapshot[i].0));
            }
            proof {
                let now = stale_among(inventory, listing, i as int);
                let next = stale_among(inventory, listing, i + 1);
                let key = listing[i as int].0;
                if stale {
                    assert(next =~= now.insert(key));
                    assert(staged_before.remove_keys(next) =~= staged_before.remove_keys(
                        now,
                    ).remove(key));
                    assert(self.evicted.deep_view() =~= known.push(key));
                    assert forall|k: KeyView| keys_of(known.push(key)).contains(k) == keys_of(
                        known,
                    ).insert(key).contains(k) by {
                        if known.push(key).contains(k) {
                            let j = choose|j: int|
                                0 <= j < known.push(key).len() && known.push(key)[j] == k;
                            if j < known.len() {
                                assert(known[j] == k);
                            }
                        }
                        if known.contains(k) {
                            let j = choose|j: int| 0 <= j < known.len() && known[j] == k;
                            assert(known.push(key)[j] == k);
                        }
                        assert(known.push(key)[known.len() as int] == key);
                    }
                    assert(keys_of(known.push(key)) =~= keys_of(known).insert(key));
                    assert(keys_of(self.evicted.deep_view()) =~= evicted_before.union(next));
                } else {
                    assert(next =~= now);
                }
            }
            i += 1;
        }
        proof {
            let found = stale_among(inventory, listing, snapshot.len() as int);
            let wanted = stale_keys(inventory, before);
            assert forall|key: KeyView| found.contains(key) == wanted.contains(key) by {
                if wanted.contains(key) {
                    let j = choose|j: int| 0 <= j < listing.len() && #[trigger] listing[j].0 == key;
                    assert(listing[j].0 == key);
                }
            }
            assert(found =~= wanted);
            assert(staged(self.writer) =~= before.remove_keys(
                keys_of(self.evicted.deep_view()),
            ));
            lemma_eviction_leaves_backed(inventory, before);
            lemma_part_is_backed(inventory, staged(self.writer), after_eviction(inventory, before));
        }
    }

    /// The listed services for which the cache, once it is published, holds
    /// no key, each with the key made of the app it is listed under and its
    /// id. Within an app they come in the order of the inventory; the order
    /// of the apps is some listing of the inventory.
    pub fn services_without_host_meta(&self, apps: &MultiMap<AppName, Service>) -> (targets: Vec<
        (Key, Service),
    >)
        requires
            self.wf(),
        ensures
            exists|listing: Seq<(Seq<char>, Seq<ServiceView>)>|
                is_listing_of(listing, services_by_app(*apps)) && targets.deep_view()
                    == #[trigger] targets_in_listing(listing, self.pending().dom()),
            forall|target: TargetView| #[trigger]
                targets.deep_view().contains(target) <==> is_target(
                    services_by_app(*apps),
                    self.pending().dom(),
                    target,
                ),
    {
        let ghost cached = staged(self.writer).dom();
        let listed = inventory_listing(apps);
        let ghost listing = listed.deep_view();
        let mut targets: Vec<(Key, Service)> = Vec::new();
        let mut i: usize = 0;
        assert(listing.take(0) =~= Seq::empty());
        while i < listed.len()
            invariant
                self.wf(),
                i <= listed.len(),
                listing == listed.deep_view(),
                is_listing_of(listing, services_by_app(*apps)),
                cached == staged(self.writer).dom(),
                targets.deep_view() == targets_in_listing(listing.take(i as int), cached),
            decreases listed.len() - i,
        {
            let app: &String = listed[i].0;
            let services: &Vec<Service> = listed[i].1;
            let ghost before = targets.deep_view();
            let ghost list = services.deep_view();
            assert(listing[i as int] == (app@, list));
            let mut k: usize = 0;
            assert(list.take(0) =~= Seq::empty());
            while k < services.len()
                invariant
                    self.wf(),
                    k <= services.len(),
                    list == services.deep_view(),
                    cached == staged(self.writer).dom(),
                    targets.deep_view() == before + targets_in_app(app@, list.take(k as int), cached),
                decreases services.len() - k,
            {
                let service = &services[k];
                let key: Key = (app.clone(), service.id().clone());
                let ghost shown = targets.deep_view();
                assert(list[k as int] == service@);
                let known = store_contains_key(&self.writer, &key) && !self.is_evicted(&key);
                assert(known == cached.contains(key.deep_view()));
                if !known {
                    targets.push((key, service.clone()));
                    assert(targets.deep_view() =~= shown.push(((app@, service@.id), service@)));
                }
                proof {
                    let next = list.take(k + 1);
                    assert(next.drop_last() =~= list.take(k as int));
                    assert(next.last() == service@);
                }
                k += 1;
            }
            proof {
                let next = listing.take(i + 1);
                assert(next.drop_last() =~= listing.take(i as int));
                assert(next.last() == listing[i as int]);
                assert(list.take(services.len() as int) =~= list);
            }
            i += 1;
        }
        assert(listing.take(listed.len() as int) =~= listing);
        assert(targets.deep_view() == targets_in_listing(listing, self.pending().dom()));
        assert forall|target: TargetView| #[trigger]
            targets.deep_view().contains(target) <==> is_target(
                services_by_app(*apps),
                cached,
                target,
            ) by {
            lemma_targets_in_listing(listing, services_by_app(*apps), cached, target);
        }
        targets
    }

    /// The first half of a cycle: evicts what is stale against `apps` and
    /// says which services are to be probed. Where there are some, readers
    /// see nothing of the evictions yet: they become visible together with
    /// the documents of the cycle, in `store_resolved`. Where there is none,
    /// the cycle is over and the evictions are published at once. The time
    /// of the cycle is read from the clock; `since_timestamp` is the time at
    /// which the process started.
    pub fn crawl(&mut self, apps: &MultiMap<AppName, Service>, since_timestamp: Timestamp) -> (step:
        CrawlStep)
        requires
            old(self).wf(),
        ensures
            final(self).wf(),
            final(self).pending() == old(self).pending().remove_keys(
                stale_keys(services_by_app(*apps), old(self).entries()),
            ),
            all_backed(services_by_app(*apps), final(self).pending()),
            step is Probe <==> has_target(services_by_app(*apps), final(self).pending().dom()),
            step is Probe ==> final(self).entries() == old(self).entries(),
            step is Sleep ==> final(self).is_settled(),
            services_by_app(*apps) == no_apps() ==> final(self).entries() == no_entries()
                && step is Sleep,
            step matches CrawlStep::Probe { targets, now, duration_prevant_startup } ==> {
                &&& exists|listing: Seq<(Seq<char>, Seq<ServiceView>)>|
                    is_listing_of(listing, services_by_app(*apps)) && targets.deep_view()
                        == #[trigger] targets_in_listing(listing, final(self).pending().dom())
                &&& forall|target: TargetView| #[trigger]
                    targets.deep_view().contains(target) <==> is_target(
                        services_by_app(*apps),
                        final(self).pending().dom(),
                        target,
                    )
                &&& duration_prevant_startup == now@ - since_timestamp@
            },
    {
        proof {
            self.lemma_wf();
            if services_by_app(*apps) == no_apps() {
                lemma_empty_inventory_evicts_all(self.entries());
                assert(self.pending().remove_keys(stale_keys(no_apps(), self.entries()))
                    =~= no_entries());
            }
        }
        self.clear_stale_web_host_meta(apps);
        let targets = self.services_without_host_meta(apps);
        proof {
            let inventory = services_by_app(*apps);
            let cached = self.pending().dom();
            let listing = choose|listing: Seq<(Seq<char>, Seq<ServiceView>)>|
                is_listing_of(listing, inventory) && targets.deep_view()
                    == #[trigger] targets_in_listing(listing, cached);
            if targets.len() > 0 {
                let first = targets.deep_view()[0];
                assert(targets_in_listing(listing, cached).contains(first));
                lemma_targets_in_listing(listing, inventory, cached, first);
            }
            if has_target(inventory, cached) {
                let target = choose|target: TargetView| is_target(inventory, cached, target);
                lemma_targets_in_listing(listing, inventory, cached, target);
            }
        }
        if targets.len() == 0 {
            self.publish();
            return CrawlStep::Sleep;
        }
        let now = clock_now();
        let duration_prevant_startup = now.nanos_since(&since_timestamp);
        CrawlStep::Probe { targets, now, duration_prevant_startup }
    }

    /// Stores an empty document under the given key, with the time that the
    /// clock shows, and publishes. The document is stored although it is
    /// not valid: this is for trying out what readers do with it.
    pub fn fake_empty_host_meta_info(&mut self, app_name: AppName, service_id: String)
        requires
            old(self).wf(),
        ensures
            final(self).wf(),
            final(self).is_settled(),
            exists|timestamp: Timestamp|
                final(self).entries() == #[trigger] with_value(
                    old(self).pending(),
                    (app_name@, service_id@),
                    ValueView { timestamp, web_host_meta: WebHostMetaView::empty() },
                ),
    {
        proof {
            self.lemma_wf();
        }
        let web_host_meta = WebHostMeta::empty();
        let timestamp = clock_now();
        let ghost before = self.pending();
        let ghost key = (app_name@, service_id@);
        store_insert(&mut self.writer, (app_name, service_id), Value { timestamp, web_host_meta });
        store_refresh(&mut self.writer);
        self.evicted = Vec::new();
        assert(published(self.writer).remove_keys(keys_of(self.evicted.deep_view()))
            =~= published(self.writer));
        assert(self.entries() == with_value(
            before,
            key,
            ValueView { timestamp, web_host_meta: WebHostMetaView::empty() },
        ));
    }

    /// The second half of a cycle: stores the valid documents among
    /// `resolved`, each under its key and with `now` as its time, and
    /// publishes. The evictions of the first half and the documents become
    /// visible to readers together.
    pub fn store_resolved(&mut self, resolved: &Vec<(Key, Service, WebHostMeta)>, now: Timestamp)
        requires
            old(self).wf(),
        ensures
            final(self).wf(),
            final(self).is_settled(),
            final(self).entries() == with_valid_documents(
                old(self).pending(),
                resolved.deep_view(),
                now,
            ),
    {
        proof {
            self.lemma_wf();
        }
        let ghost shown = published(self.writer);
        let ghost before = staged(self.writer);
        let ghost all = resolved.deep_view();
        let mut i: usize = 0;
        assert(all.take(0) =~= Seq::empty());
        while i < resolved.len()
            invariant
                i <= resolved.len(),
                all == resolved.deep_view(),
                published(self.writer) == shown,
                staged(self.writer) == with_valid_documents(before, all.take(i as int), now),
                no_empty_bag(staged(self.writer)),
            decreases resolved.len() - i,
        {
            proof {
                let next = all.take(i + 1);
                assert(next.drop_last() =~= all.take(i as int));
                assert(next.last() == resolved[i as int].deep_view());
            }
            if resolved[i].2.is_valid() {
                let value = Value { timestamp: now, web_host_meta: resolved[i].2.clone() };
                store_insert(&mut self.writer, copy_key(&resolved[i].0), value);
            }
            i += 1;
        }
        assert(all.take(resolved.len() as int) =~= all);
        store_refresh(&mut self.writer);
        self.evicted = Vec::new();
        assert(published(self.writer).remove_keys(keys_of(self.evicted.deep_view()))
            =~= published(self.writer));
    }
}

} // verus!
