use multimap::MultiMap;
use prevant::apps::host_meta_cache::{new, CrawlStep, HostMetaCache, HostMetaCrawler};
use prevant::apps::probe::{resolve_web_host_meta, resolve_web_host_meta_at, ProbeOutcome};
use prevant::apps::store::Key;
use prevant::models::request_info::RequestInfo;
use prevant::models::service::{ContainerType, Service, ServiceStatus};
use prevant::models::time::Timestamp;
use prevant::models::web_host_meta::{HostMetaKind, WebHostMeta};

const MINUTE: i128 = 60_000_000_000;

fn service(app: &str, name: &str, id: &str, status: ServiceStatus, started_at: i64) -> Service {
    Service::new(
        app.to_string(),
        name.to_string(),
        id.to_string(),
        ContainerType::Instance,
        status,
        Timestamp::new(started_at, 0),
    )
}

fn inventory(services: Vec<Service>) -> MultiMap<String, Service> {
    let mut apps = MultiMap::new();
    for s in services {
        apps.insert(s.app_name().clone(), s);
    }
    apps
}

fn key(app: &str, id: &str) -> Key {
    (app.to_string(), id.to_string())
}

fn document(text: &str) -> WebHostMeta {
    WebHostMeta::document(text.to_string())
}

fn request_info() -> RequestInfo {
    RequestInfo::new("http://example.com/".to_string())
}

fn targets_of(step: CrawlStep) -> Vec<(Key, Service)> {
    match step {
        CrawlStep::Probe { targets, .. } => targets,
        CrawlStep::Sleep => Vec::new(),
    }
}

/// The document that a listing shows for the service `id` of `app`.
fn shown(cache: &HostMetaCache, apps: &MultiMap<String, Service>, app: &str, id: &str) -> Option<WebHostMeta> {
    let decorated = cache.update_meta_data(apps.clone(), &request_info());
    let services = decorated.get_vec(app).expect("the app is listed");
    let found = services.iter().find(|s| s.id() == id).expect("the service is listed");
    found.web_host_meta().cloned()
}

fn cache_with(entries: Vec<(Key, WebHostMeta)>, stored_at: i64) -> (HostMetaCache, HostMetaCrawler) {
    let (cache, mut crawler) = new();
    let resolved = entries
        .into_iter()
        .map(|(k, meta)| {
            let s = service(&k.0, "svc", &k.1, ServiceStatus::Running, 0);
            (k, s, meta)
        })
        .collect();
    crawler.store_resolved(&resolved, Timestamp::new(stored_at, 0));
    (cache, crawler)
}

#[test]
fn a_new_cache_shows_nothing() {
    let (cache, _crawler) = new();
    let apps = inventory(vec![service("demo", "svc-a", "1", ServiceStatus::Running, 0)]);
    assert_eq!(shown(&cache, &apps, "demo", "1"), None);
}

#[test]
fn first_cycle_probes_the_service_and_stores_its_document() {
    let (cache, mut crawler) = new();
    let apps = inventory(vec![service("demo", "svc-a", "1", ServiceStatus::Running, 0)]);

    let step = crawler.crawl(&apps, Timestamp::new(0, 0));
    let (targets, now, uptime) = match step {
        CrawlStep::Probe { targets, now, duration_prevant_startup } => {
            (targets, now, duration_prevant_startup)
        }
        CrawlStep::Sleep => panic!("the service has to be probed"),
    };
    assert_eq!(targets.len(), 1);
    assert_eq!(targets[0].0, key("demo", "1"));
    assert_eq!(targets[0].1.service_name(), "svc-a");
    assert_eq!(uptime, now.nanos_since(&Timestamp::new(0, 0)));

    let mut resolved = Vec::new();
    for (k, s) in targets {
        resolved.push(resolve_web_host_meta(k, s, ProbeOutcome::Document(document("M")), uptime));
    }
    crawler.store_resolved(&resolved, now);

    let meta = shown(&cache, &apps, "demo", "1").expect("the document is attached");
    assert_eq!(meta, document("M").with_base_url(&"http://example.com/".to_string()));
    assert_eq!(meta.content(), "M");
    assert_eq!(meta.base_url(), Some(&"http://example.com/".to_string()));

    // The cache knows the service now: the next cycle has nothing to probe.
    assert!(matches!(crawler.crawl(&apps, Timestamp::new(0, 0)), CrawlStep::Sleep));
}

#[test]
fn a_restarted_service_loses_its_entry_and_is_probed_again() {
    let (cache, mut crawler) = cache_with(vec![(key("demo", "1"), document("M"))], 10);
    let apps = inventory(vec![service("demo", "svc-a", "1", ServiceStatus::Running, 20)]);
    assert!(shown(&cache, &apps, "demo", "1").is_some());

    let targets = targets_of(crawler.crawl(&apps, Timestamp::new(0, 0)));
    assert_eq!(targets.len(), 1);
    assert_eq!(targets[0].0, key("demo", "1"));

    // The probe brings nothing that can be stored: the cycle ends with the
    // eviction alone.
    let resolved = targets.into_iter().map(|(k, s)| (k, s, WebHostMeta::invalid())).collect();
    crawler.store_resolved(&resolved, Timestamp::new(30, 0));

    assert_eq!(shown(&cache, &apps, "demo", "1"), None);
    assert_eq!(targets_of(crawler.crawl(&apps, Timestamp::new(0, 0))).len(), 1);
}

#[test]
fn a_paused_service_loses_its_entry() {
    let (cache, mut crawler) = cache_with(vec![(key("demo", "1"), document("M"))], 10);
    let apps = inventory(vec![service("demo", "svc-a", "1", ServiceStatus::Paused, 0)]);

    let targets = targets_of(crawler.crawl(&apps, Timestamp::new(0, 0)));
    assert_eq!(targets.len(), 1);
    crawler.store_resolved(&Vec::new(), Timestamp::new(30, 0));

    assert_eq!(shown(&cache, &apps, "demo", "1"), None);
}

#[test]
fn readers_see_nothing_of_a_cycle_before_its_end() {
    let (cache, mut crawler) = cache_with(
        vec![(key("demo", "1"), document("old")), (key("demo", "2"), document("kept"))],
        10,
    );
    let apps = inventory(vec![
        service("demo", "svc-a", "1", ServiceStatus::Running, 20),
        service("demo", "svc-b", "2", ServiceStatus::Running, 0),
    ]);

    let targets = targets_of(crawler.crawl(&apps, Timestamp::new(0, 0)));
    assert_eq!(targets.len(), 1);
    assert_eq!(targets[0].0, key("demo", "1"));
    // Between the two halves of the cycle the evicted entry is still shown.
    assert_eq!(shown(&cache, &apps, "demo", "1").unwrap().content(), "old");
    assert_eq!(shown(&cache, &apps, "demo", "2").unwrap().content(), "kept");

    let resolved = targets.into_iter().map(|(k, s)| (k, s, document("new"))).collect();
    crawler.store_resolved(&resolved, Timestamp::new(30, 0));
    assert_eq!(shown(&cache, &apps, "demo", "1").unwrap().content(), "new");
    assert_eq!(shown(&cache, &apps, "demo", "2").unwrap().content(), "kept");
}

#[test]
fn a_cycle_that_is_given_up_publishes_nothing() {
    let (cache, mut crawler) = cache_with(vec![(key("demo", "1"), document("old"))], 10);
    let restarted = inventory(vec![service("demo", "svc-a", "1", ServiceStatus::Running, 20)]);

    // The first cycle is given up after its first half.
    assert_eq!(targets_of(crawler.crawl(&restarted, Timestamp::new(0, 0))).len(), 1);
    assert_eq!(shown(&cache, &restarted, "demo", "1").unwrap().content(), "old");

    // The next cycle asks for the same service again and ends as usual.
    let targets = targets_of(crawler.crawl(&restarted, Timestamp::new(0, 0)));
    assert_eq!(targets.len(), 1);
    assert_eq!(shown(&cache, &restarted, "demo", "1").unwrap().content(), "old");
    let resolved = targets.into_iter().map(|(k, s)| (k, s, document("new"))).collect();
    crawler.store_resolved(&resolved, Timestamp::new(30, 0));
    assert_eq!(shown(&cache, &restarted, "demo", "1").unwrap().content(), "new");
    assert!(matches!(crawler.crawl(&restarted, Timestamp::new(0, 0)), CrawlStep::Sleep));
}

#[test]
fn evictions_are_shown_once_they_are_published() {
    let (cache, mut crawler) = cache_with(vec![(key("demo", "1"), document("M"))], 10);
    let apps = inventory(vec![service("demo", "svc-a", "1", ServiceStatus::Running, 0)]);

    crawler.clear_stale_web_host_meta(&MultiMap::new());
    assert!(shown(&cache, &apps, "demo", "1").is_some());
    assert_eq!(crawler.services_without_host_meta(&apps).len(), 1);

    crawler.publish();
    assert_eq!(shown(&cache, &apps, "demo", "1"), None);
}

#[test]
fn a_service_restarted_at_the_time_of_its_entry_keeps_it() {
    let (cache, mut crawler) = cache_with(vec![(key("demo", "1"), document("M"))], 10);
    let same = inventory(vec![service("demo", "svc-a", "1", ServiceStatus::Running, 10)]);

    assert!(matches!(crawler.crawl(&same, Timestamp::new(0, 0)), CrawlStep::Sleep));
    assert!(shown(&cache, &same, "demo", "1").is_some());

    // One nanosecond later is later.
    let mut later = MultiMap::new();
    later.insert(
        "demo".to_string(),
        Service::new(
            "demo".to_string(),
            "svc-a".to_string(),
            "1".to_string(),
            ContainerType::Instance,
            ServiceStatus::Running,
            Timestamp::new(10, 1),
        ),
    );
    assert!(matches!(crawler.crawl(&later, Timestamp::new(0, 0)), CrawlStep::Probe { .. }));
    crawler.store_resolved(&Vec::new(), Timestamp::new(30, 0));
    assert_eq!(shown(&cache, &later, "demo", "1"), None);
}

#[test]
fn an_entry_goes_when_its_service_or_its_app_is_gone() {
    let (cache, mut crawler) = cache_with(
        vec![(key("demo", "1"), document("M")), (key("other", "7"), document("N"))],
        10,
    );
    // "demo" still runs, but another service; "other" is not listed at all.
    let apps = inventory(vec![service("demo", "svc-b", "2", ServiceStatus::Running, 0)]);

    let targets = targets_of(crawler.crawl(&apps, Timestamp::new(0, 0)));
    assert_eq!(targets.len(), 1);
    assert_eq!(targets[0].0, key("demo", "2"));
    crawler.store_resolved(&Vec::new(), Timestamp::new(30, 0));

    let with_old = inventory(vec![
        service("demo", "svc-a", "1", ServiceStatus::Running, 0),
        service("other", "svc-x", "7", ServiceStatus::Running, 0),
    ]);
    assert_eq!(shown(&cache, &with_old, "demo", "1"), None);
    assert_eq!(shown(&cache, &with_old, "other", "7"), None);
}

#[test]
fn an_entry_of_another_app_with_the_same_id_is_not_shown() {
    let (cache, _crawler) = cache_with(vec![(key("demo", "1"), document("M"))], 10);
    let apps = inventory(vec![service("other", "svc-a", "1", ServiceStatus::Running, 0)]);
    assert_eq!(shown(&cache, &apps, "other", "1"), None);
}

#[test]
fn an_empty_inventory_leaves_an_empty_cache_and_nothing_to_probe() {
    let (cache, mut crawler) = cache_with(vec![(key("demo", "1"), document("M"))], 10);
    let none: MultiMap<String, Service> = MultiMap::new();

    assert!(matches!(crawler.crawl(&none, Timestamp::new(0, 0)), CrawlStep::Sleep));

    let apps = inventory(vec![service("demo", "svc-a", "1", ServiceStatus::Running, 0)]);
    assert_eq!(shown(&cache, &apps, "demo", "1"), None);
    let decorated = cache.update_meta_data(none, &request_info());
    assert!(decorated.is_empty());
}

#[test]
fn a_settled_service_that_cannot_be_reached_counts_as_empty_and_is_not_stored() {
    let (cache, mut crawler) = new();
    let apps = inventory(vec![service("demo", "svc-a", "1", ServiceStatus::Running, 0)]);
    let targets = targets_of(crawler.crawl(&apps, Timestamp::new(0, 0)));
    let (k, s) = targets.into_iter().next().unwrap();

    // The service runs for six minutes, the process for two.
    let now = Timestamp::new(360, 0);
    let resolved = resolve_web_host_meta_at(k, s, ProbeOutcome::TransportError, now, 2 * MINUTE);
    assert_eq!(resolved.2, WebHostMeta::empty());
    assert_eq!(resolved.2.kind(), HostMetaKind::Empty);
    assert!(!resolved.2.is_valid());

    crawler.store_resolved(&vec![resolved], now);
    assert_eq!(shown(&cache, &apps, "demo", "1"), None);
    assert_eq!(targets_of(crawler.crawl(&apps, Timestamp::new(0, 0))).len(), 1);
}

#[test]
fn a_young_service_that_cannot_be_reached_counts_as_invalid_and_is_not_stored() {
    let (cache, mut crawler) = new();
    let apps = inventory(vec![service("demo", "svc-a", "1", ServiceStatus::Running, 0)]);
    let targets = targets_of(crawler.crawl(&apps, Timestamp::new(0, 0)));
    let (k, s) = targets.into_iter().next().unwrap();

    // Service and process both run for thirty seconds.
    let now = Timestamp::new(30, 0);
    let resolved = resolve_web_host_meta_at(k, s, ProbeOutcome::TransportError, now, MINUTE / 2);
    assert_eq!(resolved.2, WebHostMeta::invalid());
    assert_eq!(resolved.2.kind(), HostMetaKind::Invalid);

    crawler.store_resolved(&vec![resolved], now);
    assert_eq!(shown(&cache, &apps, "demo", "1"), None);
    assert_eq!(targets_of(crawler.crawl(&apps, Timestamp::new(0, 0))).len(), 1);
}

#[test]
fn a_young_process_never_gives_up_on_a_service() {
    let s = service("demo", "svc-a", "1", ServiceStatus::Running, 0);
    // The service runs for an hour, the process for one nanosecond less than
    // a minute.
    let now = Timestamp::new(3600, 0);
    let resolved =
        resolve_web_host_meta_at(key("demo", "1"), s, ProbeOutcome::TransportError, now, MINUTE - 1);
    assert_eq!(resolved.2, WebHostMeta::invalid());

    let s = service("demo", "svc-a", "1", ServiceStatus::Running, 0);
    let resolved = resolve_web_host_meta(key("demo", "1"), s, ProbeOutcome::TransportError, MINUTE - 1);
    assert_eq!(resolved.2, WebHostMeta::invalid());
}

#[test]
fn the_two_uptimes_count_from_their_thresholds_on() {
    let at = |service_secs: i64, process: i128| {
        let s = service("demo", "svc-a", "1", ServiceStatus::Running, 0);
        let now = Timestamp::new(service_secs, 0);
        resolve_web_host_meta_at(key("demo", "1"), s, ProbeOutcome::TransportError, now, process).2
    };
    assert_eq!(at(300, MINUTE), WebHostMeta::empty());
    assert_eq!(at(299, MINUTE), WebHostMeta::invalid());
    assert_eq!(at(300, MINUTE - 1), WebHostMeta::invalid());
    assert_eq!(at(-5, 10 * MINUTE), WebHostMeta::invalid());
}

#[test]
fn outcomes_other_than_transport_errors_do_not_depend_on_time() {
    let resolve = |outcome: ProbeOutcome| {
        let s = service("demo", "svc-a", "1", ServiceStatus::Running, 0);
        resolve_web_host_meta_at(key("demo", "1"), s, outcome, Timestamp::new(1, 0), 0)
    };
    let resolved = resolve(ProbeOutcome::Unparseable);
    assert_eq!(resolved.0, key("demo", "1"));
    assert_eq!(resolved.1.id(), "1");
    assert_eq!(resolved.2, WebHostMeta::empty());
    assert_eq!(resolve(ProbeOutcome::NoForwarder).2, WebHostMeta::empty());
    assert_eq!(resolve(ProbeOutcome::Document(document("M"))).2, document("M"));
    assert_eq!(resolve(ProbeOutcome::Document(document(""))).2, WebHostMeta::empty());
}

#[test]
fn only_valid_documents_are_stored() {
    let (cache, mut crawler) = new();
    let apps = inventory(vec![
        service("demo", "svc-a", "1", ServiceStatus::Running, 0),
        service("demo", "svc-b", "2", ServiceStatus::Running, 0),
        service("demo", "svc-c", "3", ServiceStatus::Running, 0),
        service("demo", "svc-d", "4", ServiceStatus::Running, 0),
    ]);
    let resolved = vec![
        (key("demo", "1"), service("demo", "svc-a", "1", ServiceStatus::Running, 0), WebHostMeta::empty()),
        (key("demo", "2"), service("demo", "svc-b", "2", ServiceStatus::Running, 0), document("B")),
        (key("demo", "3"), service("demo", "svc-c", "3", ServiceStatus::Running, 0), WebHostMeta::invalid()),
        (key("demo", "4"), service("demo", "svc-d", "4", ServiceStatus::Running, 0), document("")),
    ];
    crawler.store_resolved(&resolved, Timestamp::new(5, 0));

    assert_eq!(shown(&cache, &apps, "demo", "1"), None);
    assert_eq!(shown(&cache, &apps, "demo", "2").unwrap().content(), "B");
    assert_eq!(shown(&cache, &apps, "demo", "3"), None);
    assert_eq!(shown(&cache, &apps, "demo", "4"), None);

    let targets = targets_of(crawler.crawl(&apps, Timestamp::new(0, 0)));
    let mut ids: Vec<String> = targets.iter().map(|t| t.0 .1.clone()).collect();
    ids.sort();
    assert_eq!(ids, vec!["1".to_string(), "3".to_string(), "4".to_string()]);
}

#[test]
fn eviction_and_insertion_in_one_cycle_replace_the_entry() {
    let (cache, mut crawler) = cache_with(vec![(key("demo", "1"), document("old"))], 10);
    let apps = inventory(vec![service("demo", "svc-a", "1", ServiceStatus::Running, 20)]);

    let targets = targets_of(crawler.crawl(&apps, Timestamp::new(0, 0)));
    assert_eq!(shown(&cache, &apps, "demo", "1").unwrap().content(), "old");
    let resolved = targets.into_iter().map(|(k, s)| (k, s, document("new"))).collect();
    crawler.store_resolved(&resolved, Timestamp::new(30, 0));

    assert_eq!(shown(&cache, &apps, "demo", "1").unwrap().content(), "new");
    // The entry is as young as the cycle: the service that started at 20
    // does not evict it again.
    assert!(matches!(crawler.crawl(&apps, Timestamp::new(0, 0)), CrawlStep::Sleep));
    assert_eq!(shown(&cache, &apps, "demo", "1").unwrap().content(), "new");
}

#[test]
fn every_decorated_service_carries_the_base_url() {
    let (cache, _crawler) = cache_with(vec![(key("demo", "1"), document("M"))], 10);
    let apps = inventory(vec![
        service("demo", "svc-a", "1", ServiceStatus::Running, 0),
        service("demo", "svc-b", "2", ServiceStatus::Paused, 0),
        service("other", "svc-c", "3", ServiceStatus::Running, 0),
    ]);

    let decorated = cache.update_meta_data(apps, &request_info());

    assert_eq!(decorated.len(), 2);
    let demo = decorated.get_vec("demo").unwrap();
    assert_eq!(demo.len(), 2);
    assert_eq!(demo[0].id(), "1");
    assert_eq!(demo[1].id(), "2");
    assert_eq!(demo[1].status(), ServiceStatus::Paused);
    assert_eq!(decorated.get_vec("other").unwrap().len(), 1);
    for (_app, services) in decorated.iter_all() {
        for s in services {
            assert_eq!(s.base_url(), Some(&"http://example.com/".to_string()));
        }
    }
}

#[test]
fn decorating_twice_gives_what_decorating_once_gives() {
    let (cache, _crawler) = cache_with(vec![(key("demo", "1"), document("M"))], 10);
    let apps = inventory(vec![
        service("demo", "svc-a", "1", ServiceStatus::Running, 0),
        service("demo", "svc-b", "2", ServiceStatus::Running, 0),
    ]);

    let once = cache.update_meta_data(apps, &request_info());
    let twice = cache.update_meta_data(once.clone(), &request_info());

    let a = once.get_vec("demo").unwrap();
    let b = twice.get_vec("demo").unwrap();
    assert_eq!(a.len(), b.len());
    for i in 0..a.len() {
        assert_eq!(a[i].id(), b[i].id());
        assert_eq!(a[i].app_name(), b[i].app_name());
        assert_eq!(a[i].service_name(), b[i].service_name());
        assert_eq!(a[i].base_url(), b[i].base_url());
        assert_eq!(a[i].web_host_meta(), b[i].web_host_meta());
    }
}

#[test]
fn two_decorations_from_one_view_see_one_state() {
    let (cache, mut crawler) = cache_with(vec![(key("demo", "1"), document("M"))], 10);
    let apps = inventory(vec![
        service("demo", "svc-a", "1", ServiceStatus::Running, 0),
        service("demo", "svc-b", "2", ServiceStatus::Running, 0),
    ]);

    let once;
    let twice;
    {
        let reader = cache.reader();
        let view = reader.view();
        once = view.decorate(&apps, &request_info());
        twice = view.decorate(&once, &request_info());
    }
    let a = once.get_vec("demo").unwrap();
    let b = twice.get_vec("demo").unwrap();
    assert_eq!(a.len(), 2);
    assert_eq!(b.len(), 2);
    for i in 0..2 {
        assert_eq!(a[i].id(), b[i].id());
        assert_eq!(a[i].base_url(), b[i].base_url());
        assert_eq!(a[i].web_host_meta(), b[i].web_host_meta());
    }
    assert_eq!(a[0].web_host_meta().unwrap().content(), "M");
    assert_eq!(a[1].web_host_meta(), None);

    // With the view let go of, the crawler publishes again.
    crawler.fake_empty_host_meta_info("demo".to_string(), "2".to_string());
    assert_eq!(shown(&cache, &apps, "demo", "2"), Some(WebHostMeta::empty()));
}

#[test]
fn a_view_taken_before_the_first_publication_shows_nothing() {
    let (cache, _crawler) = new();
    let apps = inventory(vec![service("demo", "svc-a", "1", ServiceStatus::Running, 0)]);
    let reader = cache.reader();
    let decorated = reader.view().decorate(&apps, &request_info());
    let services = decorated.get_vec("demo").unwrap();
    assert_eq!(services[0].web_host_meta(), None);
    assert_eq!(services[0].base_url(), Some(&"http://example.com/".to_string()));
}

#[test]
fn a_service_listed_twice_is_probed_twice_and_shows_one_of_the_documents() {
    let (cache, mut crawler) = new();
    let apps = inventory(vec![
        service("demo", "svc-a", "1", ServiceStatus::Running, 0),
        service("demo", "svc-a", "1", ServiceStatus::Running, 0),
    ]);
    let targets = targets_of(crawler.crawl(&apps, Timestamp::new(0, 0)));
    assert_eq!(targets.len(), 2);

    let resolved = targets.into_iter().map(|(k, s)| (k, s, document("M"))).collect();
    crawler.store_resolved(&resolved, Timestamp::new(1, 0));
    assert_eq!(shown(&cache, &apps, "demo", "1").unwrap().content(), "M");
}

#[test]
fn a_faked_entry_shows_an_empty_document() {
    let (cache, mut crawler) = new();
    let apps = inventory(vec![service("demo", "svc-a", "1", ServiceStatus::Running, 0)]);

    crawler.fake_empty_host_meta_info("demo".to_string(), "1".to_string());

    assert_eq!(shown(&cache, &apps, "demo", "1"), Some(WebHostMeta::empty()));
    assert!(matches!(crawler.crawl(&apps, Timestamp::new(0, 0)), CrawlStep::Sleep));
}

#[test]
fn services_without_host_meta_lists_what_the_cache_does_not_know() {
    let (_cache, mut crawler) = cache_with(vec![(key("demo", "1"), document("M"))], 10);
    let apps = inventory(vec![
        service("demo", "svc-a", "1", ServiceStatus::Running, 0),
        service("demo", "svc-b", "2", ServiceStatus::Running, 0),
        service("demo", "svc-c", "3", ServiceStatus::Running, 0),
    ]);

    let targets = crawler.services_without_host_meta(&apps);
    let ids: Vec<&str> = targets.iter().map(|t| t.1.id().as_str()).collect();
    assert_eq!(ids, vec!["2", "3"]);
    assert_eq!(targets[0].0, key("demo", "2"));

    crawler.clear_stale_web_host_meta(&MultiMap::new());
    assert_eq!(crawler.services_without_host_meta(&apps).len(), 3);
}
