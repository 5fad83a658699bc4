
use crate::infrastructure::errors::{DockerInfrastructureError, DockerInfrastructureErrorView};
use crate::infrastructure::labels::{
    get_label, label_value, APP_NAME_LABEL, CONTAINER_TYPE_LABEL, ROUTING_LABEL, SERVICE_NAME_LABEL,
};
use crate::infrastructure::runtime::{
    Container, ContainerSpec, ContainerSpecView, ContainerView, Label, Network, NetworkView,
    RestartPolicy, RestartPolicyView,
};
use crate::inventory::{inventory_insert, inventory_new, no_apps, services_by_app, with_service, Inventory};
use crate::models::service::{ContainerType, Service, ServiceView};
use crate::models::service_config::{ContainerConfig, ServiceConfig, ServiceConfigView};
use crate::models::text::copy_texts;
use multimap::MultiMap;
use vstd::prelude::*;
use vstd::string::StringExecFns;

verus! {

/// The decisions of the container orchestrator. It holds no state of its
/// own: all state is that of the container runtime.
#[derive(Debug)]
pub struct DockerInfrastructure {}

/// The name of the network that the services of an app share.
pub open spec fn network_name(app_name: Seq<char>) -> Seq<char> {
    app_name + "-net"@
}

/// The id of the first network with the given name.
pub open spec fn network_id_by_name(
    networks: Seq<NetworkView>,
    name: Seq<char>,
) -> Option<Seq<char>>
    decreases networks.len(),
{
    if networks.len() == 0 {
        None
    } else if networks[0].name == name {
        Some(networks[0].id)
    } else {
        network_id_by_name(networks.drop_first(), name)
    }
}

/// The ids of all networks with the given name, in the order of the listing.
pub open spec fn network_ids_by_name(networks: Seq<NetworkView>, name: Seq<char>) -> Seq<Seq<char>>
    decreases networks.len(),
{
    if networks.len() == 0 {
        Seq::empty()
    } else {
        let ids = network_ids_by_name(networks.drop_last(), name);
        if networks.last().name == name {
            ids.push(networks.last().id)
        } else {
            ids
        }
    }
}

/// The container runs the service `service_name` of the app `app_name`.
pub open spec fn runs_service(
    container: ContainerView,
    app_name: Seq<char>,
    service_name: Seq<char>,
) -> bool {
    &&& label_value(container.labels, APP_NAME_LABEL@) == Some(app_name)
    &&& label_value(container.labels, SERVICE_NAME_LABEL@) == Some(service_name)
}

/// The first container that runs the given service of the given app.
pub open spec fn app_container(
    containers: Seq<ContainerView>,
    app_name: Seq<char>,
    service_name: Seq<char>,
) -> Option<ContainerView>
    decreases containers.len(),
{
    if containers.len() == 0 {
        None
    } else if runs_service(containers[0], app_name, service_name) {
        Some(containers[0])
    } else {
        app_container(containers.drop_first(), app_name, service_name)
    }
}

/// The first container with the given id.
pub open spec fn container_by_id(
    containers: Seq<ContainerView>,
    id: Seq<char>,
) -> Option<ContainerView>
    decreases containers.len(),
{
    if containers.len() == 0 {
        None
    } else if containers[0].id == id {
        Some(containers[0])
    } else {
        container_by_id(containers.drop_first(), id)
    }
}

/// The ids of the containers, in the order of the listing.
pub open spec fn container_ids(containers: Seq<ContainerView>) -> Seq<Seq<char>> {
    Seq::new(containers.len(), |i: int| containers[i].id)
}

/// The role that a container's labels give it: `Instance` where the label is
/// missing, the error with the label's value where that names no role.
pub open spec fn container_type_of(container: ContainerView) -> Result<
    ContainerType,
    DockerInfrastructureErrorView,
> {
    match label_value(container.labels, CONTAINER_TYPE_LABEL@) {
        None => Ok(ContainerType::Instance),
        Some(label) => match ContainerType::from_label(label) {
            Some(container_type) => Ok(container_type),
            None => Err(DockerInfrastructureErrorView::UnknownServiceType { unknown_label: label }),
        },
    }
}

/// The service that a container stands for, as its labels tell. A container
/// without service name or without app name stands for none.
pub open spec fn service_of(
    container: ContainerView,
) -> Result<ServiceView, DockerInfrastructureErrorView> {
    match label_value(container.labels, SERVICE_NAME_LABEL@) {
        None => Err(
            DockerInfrastructureErrorView::MissingServiceNameLabel { container_id: container.id },
        ),
        Some(service_name) => match label_value(container.labels, APP_NAME_LABEL@) {
            None => Err(
                DockerInfrastructureErrorView::MissingAppNameLabel { container_id: container.id },
            ),
            Some(app_name) => match container_type_of(container) {
                Err(error) => Err(error),
                Ok(container_type) => Ok(
                    ServiceView::plain(
                        app_name,
                        service_name,
                        container.id,
                        container_type,
                        container.status,
                        container.started_at,
                    ),
                ),
            },
        },
    }
}

/// The services that the containers stand for, filed by app in the order of
/// the listing. A container that stands for no service is passed over.
pub open spec fn grouped_services(containers: Seq<ContainerView>) -> Inventory
    decreases containers.len(),
{
    if containers.len() == 0 {
        no_apps()
    } else {
        let before = grouped_services(containers.drop_last());
        match service_of(containers.last()) {
            Ok(service) => with_service(before, service.app_name, service),
            Err(_) => before,
        }
    }
}

/// The rule by which the reverse proxy routes `/<app>/<service>` to the
/// service and strips that prefix from the path.
pub open spec fn routing_rule(app_name: Seq<char>, service_name: Seq<char>) -> Seq<char> {
    "ReplacePathRegex: ^/"@ + app_name + "/"@ + service_name + "(.*) /$1;PathPrefix:/"@ + app_name
        + "/"@ + service_name + ";"@
}

/// The labels of a container that runs a service of an app.
pub open spec fn service_labels(
    app_name: Seq<char>,
    service_name: Seq<char>,
    container_type: ContainerType,
) -> Seq<(Seq<char>, Seq<char>)> {
    seq![
        (APP_NAME_LABEL@, app_name),
        (SERVICE_NAME_LABEL@, service_name),
        (CONTAINER_TYPE_LABEL@, container_type.label()),
        (ROUTING_LABEL@, routing_rule(app_name, service_name)),
    ]
}

/// What the runtime is asked to create for a service: its image and
/// environment, the labels by which it is found again, the memory limit
/// where one is set, and a restart on every exit, five times at most.
pub open spec fn container_spec_of(
    app_name: Seq<char>,
    config: ServiceConfigView,
    memory_limit: Option<u64>,
) -> ContainerSpecView {
    ContainerSpecView {
        image: config.image.name(),
        env: config.env,
        labels: service_labels(app_name, config.service_name, config.container_type),
        restart_policy: RestartPolicyView { name: "always"@, maximum_retry_count: 5 },
        memory: memory_limit,
    }
}

fn label(name: &str, value: String) -> (label: Label)
    ensures
        label.deep_view() == (name@, value@),
{
    (String::from_str(name), value)
}

impl Service {
    /// Rebuilds the service that a container stands for from the labels of
    /// the container.
    pub fn try_from(c: &Container) -> (res: Result<Service, DockerInfrastructureError>)
        ensures
            match res {
                Ok(service) => service_of(c.deep_view()) == Ok::<
                    ServiceView,
                    DockerInfrastructureErrorView,
                >(service@),
                Err(error) => service_of(c.deep_view()) == Err::<
                    ServiceView,
                    DockerInfrastructureErrorView,
                >(error.deep_view()),
            },
    {
        let service_name = match get_label(&c.labels, SERVICE_NAME_LABEL) {
            Some(name) => name,
            None => {
                return Err(
                    DockerInfrastructureError::MissingServiceNameLabel {
                        container_id: c.id.clone(),
                    },
                );
            },
        };
        let app_name = match get_label(&c.labels, APP_NAME_LABEL) {
            Some(name) => name,
            None => {
                return Err(
                    DockerInfrastructureError::MissingAppNameLabel { container_id: c.id.clone() },
                );
            },
        };
        let container_type = match get_label(&c.labels, CONTAINER_TYPE_LABEL) {
            None => ContainerType::Instance,
            Some(lb) => match ContainerType::parse(lb) {
                Ok(container_type) => container_type,
                Err(error) => {
                    return Err(DockerInfrastructureError::from(error));
                },
            },
        };
        Ok(
            Service::new(
                app_name.clone(),
                service_name.clone(),
                c.id.clone(),
                container_type,
                c.status,
                c.started_at,
            ),
        )
    }
}

impl DockerInfrastructure {
    pub fn new() -> (infrastructure: DockerInfrastructure)
        ensures
            infrastructure == (DockerInfrastructure {  }),
    {
        DockerInfrastructure {  }
    }

    /// The name of the network of an app.
    pub fn network_name(&self, app_name: &String) -> (name: String)
        ensures
            name@ == network_name(app_name@),
    {
        app_name.clone().concat("-net")
    }

    /// Finds the network of an app in a listing of networks.
    pub fn find_network_id(
        &self,
        networks: &Vec<Network>,
        app_name: &String,
    ) -> (id: Option<String>)
        ensures
            id.deep_view() == network_id_by_name(networks.deep_view(), network_name(app_name@)),
    {
        let name = self.network_name(app_name);
        let ghost all = networks.deep_view();
        let mut i: usize = 0;
        assert(all.skip(0) =~= all);
        while i < networks.len()
            invariant
                i <= networks.len(),
                all == networks.deep_view(),
                name@ == network_name(app_name@),
                network_id_by_name(all, name@) == network_id_by_name(all.skip(i as int), name@),
            decreases networks.len() - i,
        {
            let ghost rest = all.skip(i as int);
            assert(rest[0] == networks[i as int].deep_view());
            if networks[i].name == name {
                return Some(networks[i].id.clone());
            }
            assert(rest.drop_first() =~= all.skip(i + 1));
            i += 1;
        }
        None
    }

    /// The ids of all networks in a listing that have the name of the app's
    /// network.
    pub fn find_network_ids(&self, networks: &Vec<Network>, app_name: &String) -> (ids: Vec<String>)
        ensures
            ids.deep_view() == network_ids_by_name(networks.deep_view(), network_name(app_name@)),
    {
        let name = self.network_name(app_name);
        let ghost all = networks.deep_view();
        let mut ids: Vec<String> = Vec::new();
        let mut i: usize = 0;
        assert(all.take(0) =~= Seq::empty());
        assert(ids.deep_view() =~= Seq::empty());
        while i < networks.len()
            invariant
                i <= networks.len(),
                all == networks.deep_view(),
                name@ == network_name(app_name@),
                ids.deep_view() == network_ids_by_name(all.take(i as int), name@),
            decreases networks.len() - i,
        {
            let ghost shown = ids.deep_view();
            proof {
                let next = all.take(i + 1);
                assert(next.drop_last() =~= all.take(i as int));
                assert(next.last() == networks[i as int].deep_view());
            }
            if networks[i].name == name {
                ids.push(networks[i].id.clone());
                assert(ids.deep_view() =~= shown.push(networks[i as int].id@));
            }
            i += 1;
        }
        assert(all.take(networks.len() as int) =~= all);
        ids
    }

    /// Finds the container that runs the given service of the given app.
    pub fn get_app_container<'a>(
        &self,
        containers: &'a Vec<Container>,
        app_name: &String,
        service_name: &String,
    ) -> (found: Option<&'a Container>)
        ensures
            found.deep_view() == app_container(containers.deep_view(), app_name@, service_name@),
    {
        let ghost all = containers.deep_view();
        let mut i: usize = 0;
        assert(all.skip(0) =~= all);
        while i < containers.len()
            invariant
                i <= containers.len(),
                all == containers.deep_view(),
                app_container(all, app_name@, service_name@) == app_container(
                    all.skip(i as int),
                    app_name@,
                    service_name@,
                ),
            decreases containers.len() - i,
        {
            let ghost rest = all.skip(i as int);
            assert(rest[0] == containers[i as int].deep_view());
            let of_app = match get_label(&containers[i].labels, APP_NAME_LABEL) {
                None => false,
                Some(app) => *app == *app_name,
            };
            let of_service = match get_label(&containers[i].labels, SERVICE_NAME_LABEL) {
                None => false,
                Some(service) => *service == *service_name,
            };
            if of_app && of_service {
                return Some(&containers[i]);
            }
            assert(rest.drop_first() =~= all.skip(i + 1));
            i += 1;
        }
        None
    }

    /// Finds the container with the given id.
    pub fn get_app_container_by_id<'a>(
        &self,
        containers: &'a Vec<Container>,
        container_id: &String,
    ) -> (found: Option<&'a Container>)
        ensures
            found.deep_view() == container_by_id(containers.deep_view(), container_id@),
    {
        let ghost all = containers.deep_view();
        let mut i: usize = 0;
        assert(all.skip(0) =~= all);
        while i < containers.len()
            invariant
                i <= containers.len(),
                all == containers.deep_view(),
                container_by_id(all, container_id@) == container_by_id(
                    all.skip(i as int),
                    container_id@,
                ),
            decreases containers.len() - i,
        {
            let ghost rest = all.skip(i as int);
            assert(rest[0] == containers[i as int].deep_view());
            if *container_id == containers[i].id {
                return Some(&containers[i]);
            }
            assert(rest.drop_first() =~= all.skip(i + 1));
            i += 1;
        }
        None
    }

    /// Files the services that the listed containers stand for under their
    /// apps. A container that lacks a label it needs is passed over.
    pub fn get_services(&self, containers: &Vec<Container>) -> (apps: MultiMap<String, Service>)
        ensures
            services_by_app(apps) == grouped_services(containers.deep_view()),
    {
        let ghost all = containers.deep_view();
        let mut apps = inventory_new();
        let mut i: usize = 0;
        assert(all.take(0) =~= Seq::empty());
        while i < containers.len()
            invariant
                i <= containers.len(),
                all == containers.deep_view(),
                services_by_app(apps) == grouped_services(all.take(i as int)),
            decreases containers.len() - i,
        {
            proof {
                let next = all.take(i + 1);
                assert(next.drop_last() =~= all.take(i as int));
                assert(next.last() == containers[i as int].deep_view());
            }
            match Service::try_from(&containers[i]) {
                Ok(service) => {
                    let app_name = service.app_name().clone();
                    inventory_insert(&mut apps, app_name, service);
                },
                Err(_) => {},
            }
            i += 1;
        }
        assert(all.take(containers.len() as int) =~= all);
        apps
    }

    /// What the runtime is asked to create for a service of an app.
    pub fn container_spec(
        &self,
        app_name: &String,
        service_config: &ServiceConfig,
        container_config: &ContainerConfig,
    ) -> (spec: ContainerSpec)
        ensures
            spec.deep_view() == container_spec_of(
                app_name@,
                service_config.deep_view(),
                container_config.spec_memory_limit(),
            ),
    {
        let service_name = service_config.get_service_name();
        let traefik_frontend = String::from_str("ReplacePathRegex: ^/").concat(
            app_name.as_str(),
        ).concat("/").concat(service_name.as_str()).concat("(.*) /$1;PathPrefix:/").concat(
            app_name.as_str(),
        ).concat("/").concat(service_name.as_str()).concat(";");
        let mut labels: Vec<Label> = Vec::new();
        labels.push(label(APP_NAME_LABEL, app_name.clone()));
        labels.push(label(SERVICE_NAME_LABEL, service_name.clone()));
        labels.push(label(CONTAINER_TYPE_LABEL, service_config.get_container_type().to_string()));
        labels.push(label(ROUTING_LABEL, traefik_frontend));
        assert(labels.deep_view() =~= service_labels(
            app_name@,
            service_config.deep_view().service_name,
            service_config.deep_view().container_type,
        ));
        let env = match service_config.get_env() {
            Some(env) => Some(copy_texts(env)),
            None => None,
        };
        ContainerSpec {
            image: service_config.get_docker_image(),
            env,
            labels,
            restart_policy: RestartPolicy {
                name: String::from_str("always"),
                maximum_retry_count: 5,
            },
            memory: container_config.get_memory_limit(),
        }
    }
}

} // verus!
