use crate::infrastructure::docker_infrastructure::{service_of, DockerInfrastructure};
use crate::infrastructure::labels::APP_NAME_LABEL;
use crate::infrastructure::progress::{failed_with, reply_error, Progress, ProgressView};
use crate::infrastructure::runtime::{
    Container, ContainerDetails, ContainerDetailsView, ContainerFilter, ContainerFilterView,
    ContainerView, RuntimeCall, RuntimeCallView, RuntimeReply, RuntimeReplyView,
};
use crate::models::image::parse_image;
use crate::models::service::{ContainerType, Service, ServiceView};
use crate::models::service_config::{Image, ServiceConfig, ServiceConfigView};
use vstd::prelude::*;
use vstd::string::StringExecFns;

verus! {

/// Where the task that reads the configurations of an app stands.
#[derive(Debug)]
pub enum ConfigsState {
    Start,
    /// Waiting for the list of the app's containers.
    Listing,
    /// Waiting for the details of the container of `service`; `remaining`
    /// are the services to ask about after it, `configs` the configurations
    /// read so far.
    Inspecting { service: Service, remaining: Vec<Service>, configs: Vec<ServiceConfig> },
}

pub enum ConfigsStateView {
    Start,
    Listing,
    Inspecting {
        service: ServiceView,
        remaining: Seq<ServiceView>,
        configs: Seq<ServiceConfigView>,
    },
}

impl DeepView for ConfigsState {
    type V = ConfigsStateView;

    open spec fn deep_view(&self) -> ConfigsStateView {
        match self {
            ConfigsState::Start => ConfigsStateView::Start,
            ConfigsState::Listing => ConfigsStateView::Listing,
            ConfigsState::Inspecting { service, remaining, configs } => ConfigsStateView::Inspecting {
                service: service@,
                remaining: remaining.deep_view(),
                configs: configs.deep_view(),
            },
        }
    }
}

/// The services that the containers stand for, without the companions, in
/// the order of the listing. A container that stands for no service is
/// passed over.
pub open spec fn configurable_services(containers: Seq<ContainerView>) -> Seq<ServiceView>
    decreases containers.len(),
{
    if containers.len() == 0 {
        Seq::empty()
    } else {
        let before = configurable_services(containers.drop_last());
        match service_of(containers.last()) {
            Ok(service) => if service.container_type.is_companion() {
                before
            } else {
                before.push(service)
            },
            Err(_) => before,
        }
    }
}

/// The configuration that a running service was started from, as far as the
/// runtime still shows it: the name of the service, the image that its
/// container runs, and the environment of the container.
pub open spec fn config_of(
    service: ServiceView,
    details: ContainerDetailsView,
) -> ServiceConfigView {
    ServiceConfigView {
        service_name: service.service_name,
        image: parse_image(details.image),
        env: details.env,
        container_type: ContainerType::Instance,
    }
}

/// Asks about the first of `services` and keeps the rest for later; ends
/// with the configurations where none is left.
pub open spec fn inspect_next(
    services: Seq<ServiceView>,
    configs: Seq<ServiceConfigView>,
) -> ProgressView<ConfigsStateView, Seq<ServiceConfigView>> {
    if services.len() == 0 {
        ProgressView::Finished(Ok(configs))
    } else {
        ProgressView::Call(
            RuntimeCallView::InspectContainer { id: services[0].id },
            ConfigsStateView::Inspecting {
                service: services[0],
                remaining: services.drop_first(),
                configs,
            },
        )
    }
}

/// One step of reading the configurations of an app: list the containers
/// that carry the app's name, leave out the companions and the containers
/// that stand for no service, and ask the runtime about each of the others
/// in turn.
pub open spec fn configs_step(
    app_name: Seq<char>,
    state: ConfigsStateView,
    reply: Option<RuntimeReplyView>,
) -> ProgressView<ConfigsStateView, Seq<ServiceConfigView>> {
    match state {
        ConfigsStateView::Start => ProgressView::Call(
            RuntimeCallView::ListContainers {
                filter: ContainerFilterView::Label(APP_NAME_LABEL@, app_name),
            },
            ConfigsStateView::Listing,
        ),
        ConfigsStateView::Listing => match reply {
            Some(RuntimeReplyView::Containers(containers)) => inspect_next(
                configurable_services(containers),
                Seq::empty(),
            ),
            _ => failed_with(reply),
        },
        ConfigsStateView::Inspecting { service, remaining, configs } => match reply {
            Some(RuntimeReplyView::Details(details)) => inspect_next(
                remaining,
                configs.push(config_of(service, details)),
            ),
            _ => failed_with(reply),
        },
    }
}

/// No companion is among the services that are asked for a configuration.
pub proof fn lemma_no_companion_is_configurable(containers: Seq<ContainerView>, i: int)
    requires
        0 <= i < configurable_services(containers).len(),
    ensures
        !configurable_services(containers)[i].container_type.is_companion(),
    decreases containers.len(),
{
    if containers.len() > 0 {
        let before = configurable_services(containers.drop_last());
        if i < before.len() {
            lemma_no_companion_is_configurable(containers.drop_last(), i);
        }
    }
}

impl DockerInfrastructure {
    /// The services of the listed containers that a configuration is read
    /// for.
    pub fn configurable_services(&self, containers: &Vec<Container>) -> (services: Vec<Service>)
        ensures
            services.deep_view() == configurable_services(containers.deep_view()),
    {
        let ghost all = containers.deep_view();
        let mut services: Vec<Service> = Vec::new();
        let mut i: usize = 0;
        assert(all.take(0) =~= Seq::empty());
        assert(services.deep_view() =~= Seq::empty());
        while i < containers.len()
            invariant
                i <= containers.len(),
                all == containers.deep_view(),
                services.deep_view() == configurable_services(all.take(i as int)),
            decreases containers.len() - i,
        {
            let ghost shown = services.deep_view();
            proof {
                let next = all.take(i + 1);
                assert(next.drop_last() =~= all.take(i as int));
                assert(next.last() == containers[i as int].deep_view());
            }
            match Service::try_from(&containers[i]) {
                Ok(service) => {
                    if !service.container_type().is_companion_type() {
                        services.push(service);
                        assert(services.deep_view() =~= shown.push(service@));
                    }
                },
                Err(_) => {},
            }
            i += 1;
        }
        assert(all.take(containers.len() as int) =~= all);
        services
    }

    /// The configuration of a running service, from what the runtime tells
    /// of its container.
    pub fn config_of(&self, service: &Service, details: ContainerDetails) -> (config: ServiceConfig)
        ensures
            config.deep_view() == config_of(service@, details.deep_view()),
    {
        ServiceConfig::new(
            service.service_name().clone(),
            Image::parse(&details.image),
            details.env,
        )
    }

    fn inspect_next(
        &self,
        services: Vec<Service>,
        configs: Vec<ServiceConfig>,
    ) -> (progress: Progress<ConfigsState, Vec<ServiceConfig>>)
        ensures
            progress.deep_view() == inspect_next(services.deep_view(), configs.deep_view()),
    {
        let mut services = services;
        let ghost all = services.deep_view();
        if services.len() == 0 {
            Progress::Finished(Ok(configs))
        } else {
            let service = services.remove(0);
            assert(services.deep_view() =~= all.drop_first());
            assert(service@ == all[0]);
            Progress::Call(
                RuntimeCall::InspectContainer { id: service.id().clone() },
                ConfigsState::Inspecting { service, remaining: services, configs },
            )
        }
    }

    /// Takes the task that reads the configurations of an app one step
    /// further. The task starts in `ConfigsState::Start` without a reply.
    pub fn get_configs_of_app(
        &self,
        app_name: &String,
        state: ConfigsState,
        reply: Option<RuntimeReply>,
    ) -> (progress: Progress<ConfigsState, Vec<ServiceConfig>>)
        ensures
            progress.deep_view() == configs_step(app_name@, state.deep_view(), reply.deep_view()),
    {
        match state {
            ConfigsState::Start => Progress::Call(
                RuntimeCall::ListContainers {
                    filter: ContainerFilter::Label(
                        String::from_str(APP_NAME_LABEL),
                        app_name.clone(),
                    ),
                },
                ConfigsState::Listing,
            ),
            ConfigsState::Listing => match reply {
                Some(RuntimeReply::Containers(containers)) => {
                    let none: Vec<ServiceConfig> = Vec::new();
                    assert(none.deep_view() =~= Seq::empty());
                    self.inspect_next(self.configurable_services(&containers), none)
                },
                other => Progress::Finished(Err(reply_error(other))),
            },
            ConfigsState::Inspecting { service, remaining, configs } => match reply {
                Some(RuntimeReply::Details(details)) => {
                    let mut configs = configs;
                    let ghost before = configs.deep_view();
                    let config = self.config_of(&service, details);
                    configs.push(config);
                    assert(configs.deep_view() =~= before.push(config.deep_view()));
                    self.inspect_next(remaining, configs)
                },
                other => Progress::Finished(Err(reply_error(other))),
            },
        }
    }
}

} // verus!
