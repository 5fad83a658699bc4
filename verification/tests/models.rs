use prevant::apps::probe::host_meta_request;
use prevant::models::image::chars_of;
use prevant::models::request_info::RequestInfo;
use prevant::models::service::{ContainerType, Service, ServiceError, ServiceStatus};
use prevant::models::service_config::{ContainerConfig, Image, ServiceConfig};
use prevant::models::time::Timestamp;
use prevant::models::web_host_meta::{HostMetaKind, WebHostMeta};

fn named(registry: Option<&str>, user: Option<&str>, repo: &str, tag: Option<&str>) -> Image {
    Image::Named {
        repo: repo.to_string(),
        registry: registry.map(|s| s.to_string()),
        user: user.map(|s| s.to_string()),
        tag: tag.map(|s| s.to_string()),
    }
}

fn parts(image: &Image) -> (Option<String>, Option<String>, String, Option<String>) {
    match image {
        Image::Named { repo, registry, user, tag } => {
            (registry.clone(), user.clone(), repo.clone(), tag.clone())
        }
        Image::Digest { .. } => panic!("a named image was expected"),
    }
}

#[test]
fn timestamps_are_ordered_by_their_nanoseconds() {
    let a = Timestamp::new(10, 0);
    let b = Timestamp::new(10, 1);
    let c = Timestamp::new(9, 999_999_999);
    assert!(b.is_after(&a));
    assert!(!a.is_after(&b));
    assert!(!a.is_after(&a));
    assert!(a.is_after(&c));
    assert_eq!(a.total_nanos(), 10_000_000_000);
    assert_eq!(b.nanos_since(&c), 2);
    assert_eq!(c.nanos_since(&b), -2);
    assert_eq!(Timestamp::new(-1, 500_000_000).total_nanos(), -500_000_000);
}

#[test]
fn timestamps_at_the_ends_of_their_range_do_not_overflow() {
    let low = Timestamp::new(i64::MIN, 0);
    let high = Timestamp::new(i64::MAX, u32::MAX);
    assert!(high.is_after(&low));
    assert_eq!(
        high.nanos_since(&low),
        (i64::MAX as i128 - i64::MIN as i128) * 1_000_000_000 + u32::MAX as i128
    );
}

#[test]
fn documents_come_in_three_kinds() {
    assert_eq!(WebHostMeta::empty().kind(), HostMetaKind::Empty);
    assert!(WebHostMeta::empty().is_empty());
    assert!(!WebHostMeta::empty().is_valid());
    assert_eq!(WebHostMeta::invalid().kind(), HostMetaKind::Invalid);
    assert!(!WebHostMeta::invalid().is_valid());
    assert!(!WebHostMeta::invalid().is_empty());

    let m = WebHostMeta::document("{\"links\":[]}".to_string());
    assert_eq!(m.kind(), HostMetaKind::Document);
    assert!(m.is_valid());
    assert!(!m.is_empty());
    assert_eq!(m.content(), "{\"links\":[]}");
    assert_eq!(m.base_url(), None);

    assert_eq!(WebHostMeta::document(String::new()), WebHostMeta::empty());
}

#[test]
fn a_base_url_is_applied_once_and_for_all() {
    let url = "https://host/".to_string();
    let m = WebHostMeta::document("M".to_string());
    let once = m.with_base_url(&url);
    assert_eq!(once.base_url(), Some(&url));
    assert_eq!(once.content(), "M");
    assert_eq!(once.with_base_url(&url), once);
    assert_eq!(m.clone(), m);

    assert_eq!(WebHostMeta::empty().with_base_url(&url), WebHostMeta::empty());
    assert_eq!(WebHostMeta::invalid().with_base_url(&url), WebHostMeta::invalid());
}

#[test]
fn container_types_are_read_back_from_their_labels() {
    let all = [
        (ContainerType::Instance, "instance"),
        (ContainerType::ApplicationCompanion, "application-companion"),
        (ContainerType::ServiceCompanion, "service-companion"),
        (ContainerType::Linked, "linked"),
    ];
    for (t, label) in all {
        assert_eq!(t.to_string(), label);
        assert_eq!(ContainerType::parse(&label.to_string()).unwrap(), t);
    }
    assert!(ContainerType::ApplicationCompanion.is_companion_type());
    assert!(ContainerType::ServiceCompanion.is_companion_type());
    assert!(!ContainerType::Instance.is_companion_type());
    assert!(!ContainerType::Linked.is_companion_type());
}

#[test]
fn an_unknown_container_type_is_handed_back() {
    match ContainerType::parse(&"Instance".to_string()) {
        Err(ServiceError::InvalidServiceType { label }) => assert_eq!(label, "Instance"),
        other => panic!("unexpected: {:?}", other),
    }
    assert!(ContainerType::parse(&String::new()).is_err());
}

#[test]
fn services_are_equal_when_their_ids_are() {
    let a = Service::new(
        "demo".to_string(),
        "api".to_string(),
        "1".to_string(),
        ContainerType::Instance,
        ServiceStatus::Running,
        Timestamp::new(0, 0),
    );
    let mut b = Service::new(
        "other".to_string(),
        "db".to_string(),
        "1".to_string(),
        ContainerType::Linked,
        ServiceStatus::Paused,
        Timestamp::new(5, 0),
    );
    let c = Service::new(
        "demo".to_string(),
        "api".to_string(),
        "2".to_string(),
        ContainerType::Instance,
        ServiceStatus::Running,
        Timestamp::new(0, 0),
    );
    assert!(a == b);
    assert!(a != c);

    assert_eq!(b.base_url(), None);
    assert_eq!(b.web_host_meta(), None);
    b.set_base_url("u".to_string());
    b.set_web_host_meta(WebHostMeta::empty());
    b.set_container_type(ContainerType::Instance);
    let copy = b.clone();
    assert_eq!(copy.app_name(), "other");
    assert_eq!(copy.service_name(), "db");
    assert_eq!(copy.id(), "1");
    assert_eq!(copy.container_type(), ContainerType::Instance);
    assert_eq!(copy.status(), ServiceStatus::Paused);
    assert_eq!(copy.started_at(), Timestamp::new(5, 0));
    assert_eq!(copy.base_url(), Some(&"u".to_string()));
    assert_eq!(copy.web_host_meta(), Some(&WebHostMeta::empty()));
}

#[test]
fn image_names_are_put_together_from_their_parts() {
    assert_eq!(named(None, None, "nginx", None).name(), "nginx");
    assert_eq!(named(None, None, "nginx", Some("1.21")).name(), "nginx:1.21");
    assert_eq!(named(None, Some("library"), "nginx", Some("latest")).name(), "library/nginx:latest");
    assert_eq!(
        named(Some("docker.io"), Some("library"), "nginx", Some("latest")).name(),
        "docker.io/library/nginx:latest"
    );
    let digest = Image::Digest { hash: "sha256:9895c9b90b58".to_string() };
    assert_eq!(digest.name(), "sha256:9895c9b90b58");
}

#[test]
fn image_names_are_read_from_the_back() {
    let s = |t: &str| Some(t.to_string());
    assert_eq!(parts(&Image::parse(&"nginx".to_string())), (None, None, "nginx".to_string(), None));
    assert_eq!(
        parts(&Image::parse(&"nginx:1.21".to_string())),
        (None, None, "nginx".to_string(), s("1.21"))
    );
    assert_eq!(
        parts(&Image::parse(&"mariadb/server:10.3".to_string())),
        (None, s("mariadb"), "server".to_string(), s("10.3"))
    );
    assert_eq!(
        parts(&Image::parse(&"localhost:5000/team/api:v1".to_string())),
        (s("localhost:5000"), s("team"), "api".to_string(), s("v1"))
    );
    assert_eq!(
        parts(&Image::parse(&"registry.io/a/b/c".to_string())),
        (s("registry.io/a"), s("b"), "c".to_string(), None)
    );
    assert_eq!(parts(&Image::parse(&String::new())), (None, None, String::new(), None));
    assert_eq!(parts(&Image::parse(&"a:".to_string())), (None, None, "a".to_string(), s("")));
}

#[test]
fn a_digest_is_read_as_it_stands() {
    match Image::parse(&"sha256:9895c9b90b58".to_string()) {
        Image::Digest { hash } => assert_eq!(hash, "sha256:9895c9b90b58"),
        other => panic!("unexpected: {:?}", other),
    }
    // Too short for the mark of a digest.
    assert_eq!(parts(&Image::parse(&"sha256".to_string())), (None, None, "sha256".to_string(), None));
}

#[test]
fn every_image_name_survives_reading_and_writing() {
    for text in [
        "nginx",
        "nginx:latest",
        "library/nginx",
        "docker.io/library/nginx:1",
        "localhost:5000/x/y:z",
        "a/b/c/d:e",
        "/",
        ":",
        "//:",
        "",
        "sha256:abc",
        "préfixe/naïve:été",
    ] {
        assert_eq!(Image::parse(&text.to_string()).name(), text);
    }
}

#[test]
fn characters_are_counted_not_bytes() {
    assert_eq!(chars_of("é/ü"), vec!['é', '/', 'ü']);
    assert_eq!(
        parts(&Image::parse(&"é/ü:ö".to_string())),
        (None, Some("é".to_string()), "ü".to_string(), Some("ö".to_string()))
    );
}

#[test]
fn a_service_config_knows_its_image() {
    let mut config = ServiceConfig::new(
        "db".to_string(),
        named(None, None, "mariadb", Some("10.3")),
        Some(vec!["KEY=value".to_string()]),
    );
    assert_eq!(config.get_service_name(), "db");
    assert_eq!(config.get_docker_image(), "mariadb:10.3");
    assert_eq!(config.get_env(), &Some(vec!["KEY=value".to_string()]));
    assert_eq!(config.get_container_type(), ContainerType::Instance);
    assert!(!config.refers_to_image_id());
    config.set_container_type(ContainerType::Linked);
    let copy = config.clone();
    assert_eq!(copy.get_container_type(), ContainerType::Linked);
    assert_eq!(copy.get_image().name(), "mariadb:10.3");

    let by_id = ServiceConfig::new("db".to_string(), Image::Digest { hash: "sha256:1".to_string() }, None);
    assert!(by_id.refers_to_image_id());
    assert_eq!(by_id.get_docker_image(), "sha256:1");

    assert_eq!(ContainerConfig::new(Some(1024)).get_memory_limit(), Some(1024));
    assert_eq!(ContainerConfig::new(None).get_memory_limit(), None);
    assert_eq!(RequestInfo::new("u".to_string()).get_base_url(), "u");
}

#[test]
fn the_probe_request_is_fixed_but_for_version_and_prefix() {
    let request = host_meta_request(&"demo".to_string(), &"api".to_string(), "1.2.3");
    assert_eq!(request.method, "GET");
    assert_eq!(request.path, "/.well-known/host-meta.json");
    let expected = [
        ("Host", "127.0.0.1"),
        ("Connection", "close"),
        ("Accept", "application/json"),
        ("User-Agent", "PREvant/1.2.3"),
        ("Forwarded", "host=www.prevant.example.com;proto=http"),
        ("X-Forwarded-Prefix", "/demo/api"),
    ];
    assert_eq!(request.headers.len(), expected.len());
    for (i, (name, value)) in expected.iter().enumerate() {
        assert_eq!(request.headers[i].0, *name);
        assert_eq!(request.headers[i].1, *value);
    }
}
