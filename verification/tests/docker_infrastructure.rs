use prevant::infrastructure::configs::ConfigsState;
use prevant::infrastructure::docker_infrastructure::DockerInfrastructure;
use prevant::infrastructure::errors::DockerInfrastructureError;
use prevant::infrastructure::labels::{
    get_label, APP_NAME_LABEL, CONTAINER_TYPE_LABEL, ROUTING_LABEL, SERVICE_NAME_LABEL,
};
use prevant::infrastructure::network::{DeleteNetworkState, NetworkState};
use prevant::infrastructure::progress::{reply_error, Progress};
use prevant::infrastructure::runtime::{
    Container, ContainerDetails, ContainerFilter, ContainerSpec, Network, RuntimeCall, RuntimeFault,
    RuntimeReply,
};
use prevant::infrastructure::start_container::StartState;
use prevant::infrastructure::stop_services::StopState;
use prevant::models::service::{ContainerType, Service, ServiceStatus};
use prevant::models::service_config::{ContainerConfig, Image, ServiceConfig};
use prevant::models::time::Timestamp;

type Failure = DockerInfrastructureError;

#[derive(Clone, Debug)]
struct FakeContainer {
    id: String,
    labels: Vec<(String, String)>,
    image: String,
    env: Option<Vec<String>>,
    running: bool,
    connected: Vec<(String, Vec<String>)>,
}

/// A container runtime that lives in memory and keeps a record of what it
/// was asked.
#[derive(Default)]
struct FakeRuntime {
    containers: Vec<FakeContainer>,
    networks: Vec<(String, String)>,
    calls: Vec<String>,
    created: u32,
    missing_images: Vec<String>,
    images_in_use: bool,
    broken: bool,
}

fn fault(code: Option<u16>, message: &str) -> RuntimeReply {
    RuntimeReply::Failed(RuntimeFault {
        code,
        message: message.to_string(),
        description: format!("fault: {}", message),
    })
}

impl FakeRuntime {
    fn with_container(mut self, id: &str, labels: &[(&str, &str)], image: &str) -> Self {
        self.containers.push(FakeContainer {
            id: id.to_string(),
            labels: labels.iter().map(|(k, v)| (k.to_string(), v.to_string())).collect(),
            image: image.to_string(),
            env: None,
            running: true,
            connected: Vec::new(),
        });
        self
    }

    fn with_service(self, id: &str, app: &str, service: &str, image: &str) -> Self {
        self.with_container(
            id,
            &[(APP_NAME_LABEL, app), (SERVICE_NAME_LABEL, service), (CONTAINER_TYPE_LABEL, "instance")],
            image,
        )
    }

    fn with_network(mut self, id: &str, name: &str) -> Self {
        self.networks.push((id.to_string(), name.to_string()));
        self
    }

    fn listed(c: &FakeContainer) -> Container {
        Container {
            id: c.id.clone(),
            labels: c.labels.clone(),
            status: ServiceStatus::Running,
            started_at: Timestamp::new(0, 0),
        }
    }

    fn shows(filter: &ContainerFilter, c: &FakeContainer) -> bool {
        match filter {
            ContainerFilter::All => true,
            ContainerFilter::LabelName(name) => c.labels.iter().any(|l| &l.0 == name),
            ContainerFilter::Label(name, value) => {
                c.labels.iter().any(|l| &l.0 == name && &l.1 == value)
            }
        }
    }

    fn respond(&mut self, call: &RuntimeCall) -> RuntimeReply {
        if self.broken {
            return fault(Some(500), "server error");
        }
        match call {
            RuntimeCall::ListNetworks => {
                self.calls.push("networks".to_string());
                RuntimeReply::Networks(
                    self.networks
                        .iter()
                        .map(|(id, name)| Network { id: id.clone(), name: name.clone() })
                        .collect(),
                )
            }
            RuntimeCall::CreateNetwork { name } => {
                self.calls.push(format!("create network {}", name));
                let id = format!("net-{}", self.networks.len() + 1);
                self.networks.push((id.clone(), name.clone()));
                RuntimeReply::NetworkCreated { id }
            }
            RuntimeCall::DeleteNetwork { id } => {
                self.calls.push(format!("delete network {}", id));
                self.networks.retain(|n| &n.0 != id);
                RuntimeReply::Done
            }
            RuntimeCall::ListContainers { filter } => {
                self.calls.push("containers".to_string());
                RuntimeReply::Containers(
                    self.containers.iter().filter(|c| Self::shows(filter, c)).map(Self::listed).collect(),
                )
            }
            RuntimeCall::PullImage { image } => {
                self.calls.push(format!("pull {}", image));
                if self.missing_images.contains(image) {
                    fault(Some(404), "no such image")
                } else {
                    RuntimeReply::Done
                }
            }
            RuntimeCall::InspectContainer { id } => {
                self.calls.push(format!("inspect {}", id));
                match self.containers.iter().find(|c| &c.id == id) {
                    Some(c) => RuntimeReply::Details(ContainerDetails {
                        image: c.image.clone(),
                        env: c.env.clone(),
                    }),
                    None => fault(Some(404), "no such container"),
                }
            }
            RuntimeCall::StopContainer { id, grace_seconds } => {
                self.calls.push(format!("stop {} {:?}", id, grace_seconds));
                match self.containers.iter_mut().find(|c| &c.id == id) {
                    Some(c) => {
                        c.running = false;
                        RuntimeReply::Done
                    }
                    None => fault(Some(404), "no such container"),
                }
            }
            RuntimeCall::DeleteContainer { id } => {
                self.calls.push(format!("delete {}", id));
                self.containers.retain(|c| &c.id != id);
                RuntimeReply::Done
            }
            RuntimeCall::CreateContainer { spec } => {
                self.calls.push(format!("create {}", spec.image));
                self.created += 1;
                let id = format!("new-{}", self.created);
                self.containers.push(FakeContainer {
                    id: id.clone(),
                    labels: spec.labels.clone(),
                    image: spec.image.clone(),
                    env: spec.env.clone(),
                    running: false,
                    connected: Vec::new(),
                });
                RuntimeReply::ContainerCreated { id }
            }
            RuntimeCall::StartContainer { id } => {
                self.calls.push(format!("start {}", id));
                match self.containers.iter_mut().find(|c| &c.id == id) {
                    Some(c) => {
                        c.running = true;
                        RuntimeReply::Done
                    }
                    None => fault(Some(404), "no such container"),
                }
            }
            RuntimeCall::ConnectContainer { network_id, container_id, aliases } => {
                self.calls.push(format!("connect {} to {} as {:?}", container_id, network_id, aliases));
                match self.containers.iter_mut().find(|c| &c.id == container_id) {
                    Some(c) => {
                        c.connected.push((network_id.clone(), aliases.clone()));
                        RuntimeReply::Done
                    }
                    None => fault(Some(404), "no such container"),
                }
            }
            RuntimeCall::DeleteImage { image } => {
                self.calls.push(format!("delete image {}", image));
                if self.images_in_use {
                    fault(Some(409), "image is in use")
                } else {
                    RuntimeReply::Done
                }
            }
        }
    }

    fn of_app(&self, app: &str) -> Vec<&FakeContainer> {
        self.containers
            .iter()
            .filter(|c| c.labels.iter().any(|l| l.0 == APP_NAME_LABEL && l.1 == app))
            .collect()
    }

    fn of_service(&self, app: &str, service: &str) -> Vec<&FakeContainer> {
        self.of_app(app)
            .into_iter()
            .filter(|c| c.labels.iter().any(|l| l.0 == SERVICE_NAME_LABEL && l.1 == service))
            .collect()
    }

    fn has_network(&self, name: &str) -> bool {
        self.networks.iter().any(|n| n.1 == name)
    }
}

fn network_id(runtime: &mut FakeRuntime, app: &str) -> Result<String, Failure> {
    let infrastructure = DockerInfrastructure::new();
    let app = app.to_string();
    let mut progress = infrastructure.create_or_get_network_id(&app, NetworkState::Start, None);
    loop {
        match progress {
            Progress::Finished(result) => return result,
            Progress::Call(call, state) => {
                let reply = runtime.respond(&call);
                progress = infrastructure.create_or_get_network_id(&app, state, Some(reply));
            }
        }
    }
}

fn delete_network(runtime: &mut FakeRuntime, app: &str) -> Result<(), Failure> {
    let infrastructure = DockerInfrastructure::new();
    let app = app.to_string();
    let mut progress = infrastructure.delete_network(&app, DeleteNetworkState::Start, None);
    loop {
        match progress {
            Progress::Finished(result) => return result,
            Progress::Call(call, state) => {
                let reply = runtime.respond(&call);
                progress = infrastructure.delete_network(&app, state, Some(reply));
            }
        }
    }
}

fn start_container(
    runtime: &mut FakeRuntime,
    app: &str,
    network: &str,
    config: &ServiceConfig,
    cc: &ContainerConfig,
) -> Result<Service, Failure> {
    let infrastructure = DockerInfrastructure::new();
    let app = app.to_string();
    let network = network.to_string();
    let mut progress = infrastructure.start_container(&app, &network, config, cc, StartState::Start, None);
    loop {
        match progress {
            Progress::Finished(result) => return result,
            Progress::Call(call, state) => {
                let reply = runtime.respond(&call);
                progress = infrastructure.start_container(&app, &network, config, cc, state, Some(reply));
            }
        }
    }
}

fn start_services(
    runtime: &mut FakeRuntime,
    app: &str,
    configs: &[ServiceConfig],
    cc: &ContainerConfig,
) -> Result<Vec<Service>, Failure> {
    let network = network_id(runtime, app)?;
    let started = configs.iter().map(|c| start_container(runtime, app, &network, c, cc)).collect();
    DockerInfrastructure::new().collect_started_services(started)
}

fn stop_services(runtime: &mut FakeRuntime, app: &str) -> Result<Vec<Service>, Failure> {
    let infrastructure = DockerInfrastructure::new();
    let app = app.to_string();
    let mut progress = infrastructure.stop_services(&app, StopState::Start, None);
    loop {
        match progress {
            Progress::Finished(result) => return result,
            Progress::Call(call, state) => {
                let reply = runtime.respond(&call);
                progress = infrastructure.stop_services(&app, state, Some(reply));
            }
        }
    }
}

fn configs_of_app(runtime: &mut FakeRuntime, app: &str) -> Result<Vec<ServiceConfig>, Failure> {
    let infrastructure = DockerInfrastructure::new();
    let app = app.to_string();
    let mut progress = infrastructure.get_configs_of_app(&app, ConfigsState::Start, None);
    loop {
        match progress {
            Progress::Finished(result) => return result,
            Progress::Call(call, state) => {
                let reply = runtime.respond(&call);
                progress = infrastructure.get_configs_of_app(&app, state, Some(reply));
            }
        }
    }
}

fn config(service: &str, repo: &str, tag: &str) -> ServiceConfig {
    ServiceConfig::new(
        service.to_string(),
        Image::Named { repo: repo.to_string(), registry: None, user: None, tag: Some(tag.to_string()) },
        None,
    )
}

fn container(id: &str, labels: &[(&str, &str)]) -> Container {
    Container {
        id: id.to_string(),
        labels: labels.iter().map(|(k, v)| (k.to_string(), v.to_string())).collect(),
        status: ServiceStatus::Running,
        started_at: Timestamp::new(7, 0),
    }
}

fn no_limit() -> ContainerConfig {
    ContainerConfig::new(None)
}

#[test]
fn orchestrator_can_be_created() {
    assert_eq!(format!("{:?}", DockerInfrastructure::new()), "DockerInfrastructure");
}

#[test]
fn starting_two_services_replaces_the_one_that_runs_already() {
    let mut runtime = FakeRuntime::default().with_service("old-db", "demo", "db", "X:1");
    let configs = [config("api", "api", "2"), config("db", "X", "2")];

    let services = start_services(&mut runtime, "demo", &configs, &no_limit()).unwrap();

    assert_eq!(services.len(), 2);
    assert_eq!(services[0].service_name(), "api");
    assert_eq!(services[1].service_name(), "db");
    assert_eq!(services[1].app_name(), "demo");
    assert_eq!(
        runtime.calls,
        vec![
            "networks",
            "create network demo-net",
            "pull api:2",
            "containers",
            "create api:2",
            "start new-1",
            "connect new-1 to net-1 as [\"api\"]",
            "containers",
            "pull X:2",
            "containers",
            "inspect old-db",
            "stop old-db Some(10)",
            "delete old-db",
            "create X:2",
            "start new-2",
            "connect new-2 to net-1 as [\"db\"]",
            "containers",
            "delete image X:1",
        ]
    );
    assert!(runtime.containers.iter().all(|c| c.id != "old-db"));
    assert!(runtime.has_network("demo-net"));
    for c in &runtime.containers {
        assert!(c.running);
        assert_eq!(c.connected.len(), 1);
        assert_eq!(c.connected[0].0, "net-1");
    }
    assert_eq!(runtime.of_service("demo", "api")[0].connected[0].1, vec!["api".to_string()]);
    assert_eq!(runtime.of_service("demo", "db")[0].connected[0].1, vec!["db".to_string()]);
}

#[test]
fn after_a_start_each_service_has_exactly_one_container() {
    let mut runtime = FakeRuntime::default()
        .with_service("a", "demo", "api", "api:1")
        .with_service("x", "other", "api", "api:1");
    let configs = [config("api", "api", "2"), config("db", "db", "1"), config("cache", "redis", "7")];

    let services = start_services(&mut runtime, "demo", &configs, &no_limit()).unwrap();

    assert_eq!(services.len(), 3);
    for c in &configs {
        assert_eq!(runtime.of_service("demo", c.get_service_name()).len(), 1);
    }
    assert_eq!(runtime.of_app("demo").len(), 3);
    assert_eq!(runtime.of_app("other").len(), 1);
}

#[test]
fn a_second_start_creates_no_second_network() {
    let mut runtime = FakeRuntime::default();
    start_services(&mut runtime, "demo", &[config("api", "api", "1")], &no_limit()).unwrap();
    start_services(&mut runtime, "demo", &[config("api", "api", "2")], &no_limit()).unwrap();

    assert_eq!(runtime.networks, vec![("net-1".to_string(), "demo-net".to_string())]);
    assert_eq!(runtime.of_service("demo", "api").len(), 1);
    assert_eq!(runtime.of_service("demo", "api")[0].image, "api:2");
}

#[test]
fn the_first_network_with_the_name_is_taken() {
    let mut runtime = FakeRuntime::default()
        .with_network("n0", "other-net")
        .with_network("n1", "demo-net")
        .with_network("n2", "demo-net");
    assert_eq!(network_id(&mut runtime, "demo").unwrap(), "n1");
    assert_eq!(runtime.calls, vec!["networks"]);

    let infrastructure = DockerInfrastructure::new();
    let networks = vec![
        Network { id: "n0".to_string(), name: "other-net".to_string() },
        Network { id: "n1".to_string(), name: "demo-net".to_string() },
        Network { id: "n2".to_string(), name: "demo-net".to_string() },
    ];
    assert_eq!(infrastructure.network_name(&"demo".to_string()), "demo-net");
    assert_eq!(infrastructure.find_network_id(&networks, &"demo".to_string()), Some("n1".to_string()));
    assert_eq!(infrastructure.find_network_id(&networks, &"none".to_string()), None);
    assert_eq!(
        infrastructure.find_network_ids(&networks, &"demo".to_string()),
        vec!["n1".to_string(), "n2".to_string()]
    );
}

#[test]
fn deleting_the_network_deletes_every_network_of_that_name() {
    let mut runtime = FakeRuntime::default()
        .with_network("n0", "other-net")
        .with_network("n1", "demo-net")
        .with_network("n2", "demo-net");
    delete_network(&mut runtime, "demo").unwrap();
    assert_eq!(runtime.networks, vec![("n0".to_string(), "other-net".to_string())]);
    assert_eq!(runtime.calls, vec!["networks", "delete network n1", "delete network n2"]);

    delete_network(&mut runtime, "demo").unwrap();
    assert_eq!(runtime.networks.len(), 1);
}

#[test]
fn no_container_of_the_app_survives_a_stop() {
    let mut runtime = FakeRuntime::default()
        .with_service("a", "demo", "api", "api:1")
        .with_service("x", "other", "api", "api:1")
        .with_service("b", "demo", "db", "db:1")
        .with_container("c", &[(APP_NAME_LABEL, "demo")], "tool:1")
        .with_network("n1", "demo-net")
        .with_network("n2", "other-net");

    let services = stop_services(&mut runtime, "demo").unwrap();

    // The services are those that stood for one; the container without a
    // service name is stopped all the same.
    let names: Vec<&str> = services.iter().map(|s| s.service_name().as_str()).collect();
    assert_eq!(names, vec!["api", "db"]);
    assert!(runtime.of_app("demo").is_empty());
    assert_eq!(runtime.of_app("other").len(), 1);
    assert!(!runtime.has_network("demo-net"));
    assert!(runtime.has_network("other-net"));
    assert_eq!(
        runtime.calls,
        vec![
            "containers",
            "containers",
            "stop a None",
            "delete a",
            "stop b None",
            "delete b",
            "stop c None",
            "delete c",
            "networks",
            "delete network n1",
        ]
    );
}

#[test]
fn containers_that_stand_for_no_service_are_stopped_too() {
    let mut runtime = FakeRuntime::default()
        .with_container("a", &[(APP_NAME_LABEL, "demo")], "tool:1")
        .with_container(
            "b",
            &[(APP_NAME_LABEL, "demo"), (SERVICE_NAME_LABEL, "odd"), (CONTAINER_TYPE_LABEL, "sidecar")],
            "odd:1",
        )
        .with_service("x", "other", "api", "api:1")
        .with_network("n1", "demo-net")
        .with_network("n2", "other-net");

    let services = stop_services(&mut runtime, "demo").unwrap();

    assert!(services.is_empty());
    assert!(runtime.of_app("demo").is_empty());
    assert_eq!(runtime.of_app("other").len(), 1);
    assert!(!runtime.has_network("demo-net"));
    assert!(runtime.has_network("other-net"));
    assert_eq!(
        runtime.calls,
        vec![
            "containers",
            "containers",
            "stop a None",
            "delete a",
            "stop b None",
            "delete b",
            "networks",
            "delete network n1",
        ]
    );
}

#[test]
fn a_network_left_without_containers_is_removed_by_a_stop() {
    let mut runtime = FakeRuntime::default().with_network("n1", "demo-net");
    assert!(stop_services(&mut runtime, "demo").unwrap().is_empty());
    assert!(!runtime.has_network("demo-net"));
}

#[test]
fn stopping_an_app_twice_finds_nothing_the_second_time() {
    let mut runtime = FakeRuntime::default().with_service("a", "demo", "api", "api:1");
    assert_eq!(stop_services(&mut runtime, "demo").unwrap().len(), 1);

    runtime.calls.clear();
    assert!(stop_services(&mut runtime, "demo").unwrap().is_empty());
    assert_eq!(runtime.calls, vec!["containers", "containers", "networks"]);
    assert!(runtime.containers.is_empty());
    assert!(runtime.networks.is_empty());

    assert!(stop_services(&mut FakeRuntime::default(), "never-started").unwrap().is_empty());
}

#[test]
fn the_network_of_an_app_lives_as_long_as_its_containers() {
    let mut runtime = FakeRuntime::default();
    assert!(!runtime.has_network("demo-net"));
    assert!(runtime.of_app("demo").is_empty());

    start_services(&mut runtime, "demo", &[config("api", "api", "1")], &no_limit()).unwrap();
    assert!(runtime.has_network("demo-net"));
    assert!(!runtime.of_app("demo").is_empty());

    stop_services(&mut runtime, "demo").unwrap();
    assert!(!runtime.has_network("demo-net"));
    assert!(runtime.of_app("demo").is_empty());
}

#[test]
fn an_image_given_by_digest_is_not_pulled() {
    let mut runtime = FakeRuntime::default();
    let by_id = ServiceConfig::new("api".to_string(), Image::Digest { hash: "sha256:1".to_string() }, None);

    let service = start_container(&mut runtime, "demo", "net-1", &by_id, &no_limit()).unwrap();

    assert_eq!(service.id(), "new-1");
    assert!(runtime.calls.iter().all(|c| !c.starts_with("pull")));
    assert_eq!(runtime.calls[0], "containers");
    assert_eq!(runtime.calls[1], "create sha256:1");
}

#[test]
fn the_started_service_has_the_type_of_its_configuration() {
    let mut runtime = FakeRuntime::default();
    let mut linked = config("db", "db", "1");
    linked.set_container_type(ContainerType::Linked);

    let service = start_container(&mut runtime, "demo", "net-1", &linked, &no_limit()).unwrap();

    assert_eq!(service.container_type(), ContainerType::Linked);
    assert_eq!(service.app_name(), "demo");
    assert_eq!(service.service_name(), "db");
    assert_eq!(get_label(&runtime.containers[0].labels, CONTAINER_TYPE_LABEL), Some(&"linked".to_string()));
}

#[test]
fn a_missing_image_is_told_apart_from_other_faults() {
    let mut runtime = FakeRuntime::default();
    runtime.missing_images.push("api:1".to_string());
    match start_services(&mut runtime, "demo", &[config("api", "api", "1")], &no_limit()) {
        Err(DockerInfrastructureError::ImageNotFound { internal_message }) => {
            assert_eq!(internal_message, "no such image")
        }
        other => panic!("unexpected: {:?}", other),
    }

    let mut broken = FakeRuntime { broken: true, ..FakeRuntime::default() };
    match start_services(&mut broken, "demo", &[config("api", "api", "1")], &no_limit()) {
        Err(DockerInfrastructureError::UnexpectedError { internal_message }) => {
            assert_eq!(internal_message, "fault: server error")
        }
        other => panic!("unexpected: {:?}", other),
    }
    assert!(stop_services(&mut broken, "demo").is_err());
    assert!(configs_of_app(&mut broken, "demo").is_err());
    assert!(delete_network(&mut broken, "demo").is_err());
}

#[test]
fn the_first_failure_is_reported_and_what_started_keeps_running() {
    let mut runtime = FakeRuntime::default();
    runtime.missing_images.push("db:1".to_string());
    let configs = [config("api", "api", "1"), config("db", "db", "1"), config("cache", "redis", "7")];

    let result = start_services(&mut runtime, "demo", &configs, &no_limit());

    assert!(matches!(result, Err(DockerInfrastructureError::ImageNotFound { .. })));
    assert_eq!(runtime.of_service("demo", "api").len(), 1);
    assert_eq!(runtime.of_service("demo", "cache").len(), 1);
    assert!(runtime.of_service("demo", "db").is_empty());
}

#[test]
fn outcomes_are_gathered_in_their_order() {
    let infrastructure = DockerInfrastructure::new();
    let service = |id: &str| Service::try_from(&container(
        id,
        &[(APP_NAME_LABEL, "demo"), (SERVICE_NAME_LABEL, "api")],
    ));
    let failure = |text: &str| Err(DockerInfrastructureError::unexpected(text));

    let all = infrastructure.collect_started_services(vec![service("1"), service("2"), service("3")]);
    let ids: Vec<String> = all.unwrap().iter().map(|s| s.id().clone()).collect();
    assert_eq!(ids, vec!["1", "2", "3"]);

    let some = infrastructure.collect_started_services(vec![
        service("1"),
        failure("first"),
        service("3"),
        failure("second"),
    ]);
    match some {
        Err(DockerInfrastructureError::UnexpectedError { internal_message }) => {
            assert_eq!(internal_message, "first")
        }
        other => panic!("unexpected: {:?}", other),
    }
    assert!(infrastructure.collect_started_services(Vec::new()).unwrap().is_empty());
}

#[test]
fn a_failed_cleanup_of_the_old_image_does_not_fail_the_start() {
    let mut runtime = FakeRuntime::default().with_service("old", "demo", "db", "X:1");
    runtime.images_in_use = true;

    let service = start_container(&mut runtime, "demo", "net-1", &config("db", "X", "2"), &no_limit());

    assert_eq!(service.unwrap().id(), "new-1");
    assert_eq!(runtime.calls.last().unwrap(), "delete image X:1");
}

#[test]
fn a_reply_that_does_not_fit_ends_the_task() {
    let infrastructure = DockerInfrastructure::new();
    let progress = infrastructure.create_or_get_network_id(
        &"demo".to_string(),
        NetworkState::Listing,
        Some(RuntimeReply::Done),
    );
    match progress {
        Progress::Finished(Err(DockerInfrastructureError::UnexpectedError { internal_message })) => {
            assert_eq!(internal_message, "unexpected reply of the container runtime")
        }
        other => panic!("unexpected: {:?}", other),
    }
    assert!(matches!(reply_error(None), DockerInfrastructureError::UnexpectedError { .. }));
    let progress = infrastructure.stop_services(&"demo".to_string(), StopState::ListingAll, None);
    assert!(matches!(progress, Progress::Finished(Err(_))));
}

#[test]
fn a_new_container_that_is_not_listed_is_an_error() {
    let infrastructure = DockerInfrastructure::new();
    let progress = infrastructure.start_container(
        &"demo".to_string(),
        &"net".to_string(),
        &config("api", "api", "1"),
        &no_limit(),
        StartState::Resolving { id: "gone".to_string(), image_to_delete: None },
        Some(RuntimeReply::Containers(Vec::new())),
    );
    match progress {
        Progress::Finished(Err(DockerInfrastructureError::UnexpectedError { internal_message })) => {
            assert_eq!(internal_message, "the new container is not listed")
        }
        other => panic!("unexpected: {:?}", other),
    }
}

#[test]
fn a_service_is_rebuilt_from_the_labels_of_its_container() {
    let c = container(
        "42",
        &[
            (SERVICE_NAME_LABEL, "api"),
            ("unrelated", "x"),
            (APP_NAME_LABEL, "demo"),
            (CONTAINER_TYPE_LABEL, "service-companion"),
        ],
    );
    let service = Service::try_from(&c).unwrap();
    assert_eq!(service.app_name(), "demo");
    assert_eq!(service.service_name(), "api");
    assert_eq!(service.id(), "42");
    assert_eq!(service.container_type(), ContainerType::ServiceCompanion);
    assert_eq!(service.status(), ServiceStatus::Running);
    assert_eq!(service.started_at(), Timestamp::new(7, 0));
    assert_eq!(service.base_url(), None);
    assert_eq!(service.web_host_meta(), None);

    let plain = container("43", &[(SERVICE_NAME_LABEL, "api"), (APP_NAME_LABEL, "demo")]);
    assert_eq!(Service::try_from(&plain).unwrap().container_type(), ContainerType::Instance);
}

#[test]
fn a_container_without_its_labels_stands_for_no_service() {
    match Service::try_from(&container("1", &[(APP_NAME_LABEL, "demo")])) {
        Err(DockerInfrastructureError::MissingServiceNameLabel { container_id }) => {
            assert_eq!(container_id, "1")
        }
        other => panic!("unexpected: {:?}", other),
    }
    match Service::try_from(&container("2", &[(SERVICE_NAME_LABEL, "api")])) {
        Err(DockerInfrastructureError::MissingAppNameLabel { container_id }) => {
            assert_eq!(container_id, "2")
        }
        other => panic!("unexpected: {:?}", other),
    }
    // The service name is looked for first.
    assert!(matches!(
        Service::try_from(&container("3", &[])),
        Err(DockerInfrastructureError::MissingServiceNameLabel { .. })
    ));
    let odd = container(
        "4",
        &[(SERVICE_NAME_LABEL, "api"), (APP_NAME_LABEL, "demo"), (CONTAINER_TYPE_LABEL, "sidecar")],
    );
    match Service::try_from(&odd) {
        Err(DockerInfrastructureError::UnknownServiceType { unknown_label }) => {
            assert_eq!(unknown_label, "sidecar")
        }
        other => panic!("unexpected: {:?}", other),
    }
}

#[test]
fn errors_describe_themselves() {
    let text = |e: DockerInfrastructureError| e.to_string();
    assert_eq!(
        text(DockerInfrastructureError::ImageNotFound { internal_message: "x".to_string() }),
        "Could not find image: x"
    );
    assert_eq!(
        text(DockerInfrastructureError::MissingServiceNameLabel { container_id: "c1".to_string() }),
        "The container c1 does not provide a label for service name."
    );
    assert_eq!(
        text(DockerInfrastructureError::MissingAppNameLabel { container_id: "c1".to_string() }),
        "The container c1 does not provide a label for app name."
    );
    assert_eq!(
        text(DockerInfrastructureError::UnexpectedError { internal_message: "boom".to_string() }),
        "Unexpected docker interaction error: boom"
    );
    assert_eq!(
        text(DockerInfrastructureError::UnknownServiceType { unknown_label: "l".to_string() }),
        "Unknown service type label: l"
    );
}

#[test]
fn faults_of_the_runtime_become_errors() {
    let from = |code: Option<u16>| {
        DockerInfrastructureError::from(RuntimeFault {
            code,
            message: "message".to_string(),
            description: "description".to_string(),
        })
    };
    match from(Some(404)) {
        DockerInfrastructureError::ImageNotFound { internal_message } => {
            assert_eq!(internal_message, "message")
        }
        other => panic!("unexpected: {:?}", other),
    }
    for code in [Some(403), Some(405), Some(500), None] {
        match from(code) {
            DockerInfrastructureError::UnexpectedError { internal_message } => {
                assert_eq!(internal_message, "description")
            }
            other => panic!("unexpected: {:?}", other),
        }
    }
}

#[test]
fn services_are_filed_under_their_apps() {
    let containers = vec![
        container("1", &[(APP_NAME_LABEL, "demo"), (SERVICE_NAME_LABEL, "api")]),
        container("2", &[(APP_NAME_LABEL, "other"), (SERVICE_NAME_LABEL, "api")]),
        container("3", &[(APP_NAME_LABEL, "demo")]),
        container("4", &[(APP_NAME_LABEL, "demo"), (SERVICE_NAME_LABEL, "db")]),
    ];
    let apps = DockerInfrastructure::new().get_services(&containers);

    assert_eq!(apps.len(), 2);
    let demo: Vec<&str> = apps.get_vec("demo").unwrap().iter().map(|s| s.id().as_str()).collect();
    assert_eq!(demo, vec!["1", "4"]);
    assert_eq!(apps.get_vec("other").unwrap().len(), 1);
    assert!(DockerInfrastructure::new().get_services(&Vec::new()).is_empty());
}

#[test]
fn containers_are_found_by_service_and_by_id() {
    let infrastructure = DockerInfrastructure::new();
    let containers = vec![
        container("1", &[(APP_NAME_LABEL, "demo"), (SERVICE_NAME_LABEL, "api")]),
        container("2", &[(APP_NAME_LABEL, "other"), (SERVICE_NAME_LABEL, "db")]),
        container("3", &[(APP_NAME_LABEL, "demo"), (SERVICE_NAME_LABEL, "db")]),
        container("4", &[(APP_NAME_LABEL, "demo"), (SERVICE_NAME_LABEL, "db")]),
    ];
    let find = |app: &str, service: &str| {
        infrastructure
            .get_app_container(&containers, &app.to_string(), &service.to_string())
            .map(|c| c.id.clone())
    };
    assert_eq!(find("demo", "db"), Some("3".to_string()));
    assert_eq!(find("other", "db"), Some("2".to_string()));
    assert_eq!(find("other", "api"), None);
    assert_eq!(
        infrastructure.get_app_container_by_id(&containers, &"4".to_string()).map(|c| c.id.clone()),
        Some("4".to_string())
    );
    assert!(infrastructure.get_app_container_by_id(&containers, &"5".to_string()).is_none());
}

#[test]
fn the_first_label_of_a_name_counts() {
    let labels = vec![
        ("a".to_string(), "1".to_string()),
        ("b".to_string(), "2".to_string()),
        ("a".to_string(), "3".to_string()),
    ];
    assert_eq!(get_label(&labels, "a"), Some(&"1".to_string()));
    assert_eq!(get_label(&labels, "b"), Some(&"2".to_string()));
    assert_eq!(get_label(&labels, "c"), None);
    assert_eq!(APP_NAME_LABEL, "preview.servant.app-name");
    assert_eq!(SERVICE_NAME_LABEL, "preview.servant.service-name");
    assert_eq!(CONTAINER_TYPE_LABEL, "preview.servant.container-type");
}

#[test]
fn a_container_is_created_with_the_labels_that_find_it_again() {
    let mut with_env = ServiceConfig::new(
        "api".to_string(),
        Image::Named {
            repo: "api".to_string(),
            registry: Some("registry.io".to_string()),
            user: Some("team".to_string()),
            tag: Some("1".to_string()),
        },
        Some(vec!["A=1".to_string(), "B=2".to_string()]),
    );
    with_env.set_container_type(ContainerType::ApplicationCompanion);

    let spec: ContainerSpec = DockerInfrastructure::new().container_spec(
        &"demo".to_string(),
        &with_env,
        &ContainerConfig::new(Some(512)),
    );

    assert_eq!(spec.image, "registry.io/team/api:1");
    assert_eq!(spec.env, Some(vec!["A=1".to_string(), "B=2".to_string()]));
    assert_eq!(spec.memory, Some(512));
    assert_eq!(spec.restart_policy.name, "always");
    assert_eq!(spec.restart_policy.maximum_retry_count, 5);
    let expected = [
        (APP_NAME_LABEL, "demo"),
        (SERVICE_NAME_LABEL, "api"),
        (CONTAINER_TYPE_LABEL, "application-companion"),
        (ROUTING_LABEL, "ReplacePathRegex: ^/demo/api(.*) /$1;PathPrefix:/demo/api;"),
    ];
    assert_eq!(spec.labels.len(), expected.len());
    for (i, (name, value)) in expected.iter().enumerate() {
        assert_eq!(spec.labels[i].0, *name);
        assert_eq!(spec.labels[i].1, *value);
    }
    assert_eq!(ROUTING_LABEL, "traefik.frontend.rule");

    let bare = DockerInfrastructure::new().container_spec(
        &"demo".to_string(),
        &config("db", "db", "1"),
        &no_limit(),
    );
    assert_eq!(bare.env, None);
    assert_eq!(bare.memory, None);
}

#[test]
fn configurations_are_read_back_without_the_companions() {
    let mut runtime = FakeRuntime::default()
        .with_service("1", "demo", "api", "registry.io/team/api:1")
        .with_container(
            "2",
            &[
                (APP_NAME_LABEL, "demo"),
                (SERVICE_NAME_LABEL, "proxy"),
                (CONTAINER_TYPE_LABEL, "application-companion"),
            ],
            "proxy:1",
        )
        .with_container(
            "3",
            &[
                (APP_NAME_LABEL, "demo"),
                (SERVICE_NAME_LABEL, "sidecar"),
                (CONTAINER_TYPE_LABEL, "service-companion"),
            ],
            "sidecar:1",
        )
        .with_container("4", &[(APP_NAME_LABEL, "demo")], "tool:1")
        .with_container(
            "5",
            &[(APP_NAME_LABEL, "demo"), (SERVICE_NAME_LABEL, "db"), (CONTAINER_TYPE_LABEL, "linked")],
            "mariadb",
        )
        .with_service("6", "other", "api", "api:9");
    runtime.containers[4].env = Some(vec!["KEY=value".to_string()]);

    let configs = configs_of_app(&mut runtime, "demo").unwrap();

    assert_eq!(configs.len(), 2);
    assert_eq!(configs[0].get_service_name(), "api");
    assert_eq!(configs[0].get_docker_image(), "registry.io/team/api:1");
    assert_eq!(configs[0].get_env(), &None);
    assert_eq!(configs[0].get_container_type(), ContainerType::Instance);
    match configs[0].get_image() {
        Image::Named { repo, registry, user, tag } => {
            assert_eq!(repo, "api");
            assert_eq!(registry, &Some("registry.io".to_string()));
            assert_eq!(user, &Some("team".to_string()));
            assert_eq!(tag, &Some("1".to_string()));
        }
        other => panic!("unexpected: {:?}", other),
    }
    assert_eq!(configs[1].get_service_name(), "db");
    assert_eq!(configs[1].get_docker_image(), "mariadb");
    assert_eq!(configs[1].get_env(), &Some(vec!["KEY=value".to_string()]));
    assert_eq!(runtime.calls, vec!["containers", "inspect 1", "inspect 5"]);

    assert!(configs_of_app(&mut runtime, "none").unwrap().is_empty());
    let services = DockerInfrastructure::new().configurable_services(&vec![
        container("1", &[(APP_NAME_LABEL, "demo"), (SERVICE_NAME_LABEL, "api")]),
        container(
            "2",
            &[(APP_NAME_LABEL, "demo"), (SERVICE_NAME_LABEL, "p"), (CONTAINER_TYPE_LABEL, "service-companion")],
        ),
    ]);
    assert_eq!(services.len(), 1);
    assert_eq!(services[0].id(), "1");
}

#[test]
fn the_request_to_pull_names_the_image() {
    match DockerInfrastructure::new().pull_image(&config("api", "api", "1")) {
        RuntimeCall::PullImage { image } => assert_eq!(image, "api:1"),
        other => panic!("unexpected: {:?}", other),
    }
}
