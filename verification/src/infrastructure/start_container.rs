use crate::infrastructure::docker_infrastructure::{
    app_container, container_by_id, container_spec_of, service_of, DockerInfrastructure,
};
use crate::infrastructure::errors::{DockerInfrastructureError, DockerInfrastructureErrorView};
use crate::infrastructure::progress::{failed_with, reply_error, Progress, ProgressView};
use crate::infrastructure::runtime::{
    ContainerFilter, ContainerFilterView, ContainerView, RuntimeCall, RuntimeCallView, RuntimeReply,
    RuntimeReplyView,
};
use crate::models::service::{Service, ServiceView};
use crate::models::service_config::{ContainerConfig, ServiceConfig, ServiceConfigView};
use vstd::prelude::*;

verus! {

/// Seconds that a container which is to be replaced gets to stop.
pub const REPLACE_GRACE_SECONDS: u64 = 10;

/// Where the task that starts one service stands.
#[derive(Debug)]
pub enum StartState {
    Start,
    /// Waiting for the image to be pulled.
    Pulling,
    /// Waiting for the list of containers, to see whether the service runs
    /// already.
    FindingOld,
    /// Waiting for the details of the container that is to be replaced.
    InspectingOld { id: String },
    /// Waiting for the old container to stop; `image` is what it ran.
    StoppingOld { id: String, image: String },
    /// Waiting for the old container to be deleted.
    DeletingOld { image: String },
    /// Waiting for the new container; `image_to_delete` is what the old one
    /// ran, where there was one.
    Creating { image_to_delete: Option<String> },
    /// Waiting for the new container to start.
    Starting { id: String, image_to_delete: Option<String> },
    /// Waiting for the new container to join the network of the app.
    Connecting { id: String, image_to_delete: Option<String> },
    /// Waiting for the list of containers, to read the new one back.
    Resolving { id: String, image_to_delete: Option<String> },
    /// Waiting for the old image to be deleted, whether that works or not.
    CleaningUp { service: Service },
}

pub enum StartStateView {
    Start,
    Pulling,
    FindingOld,
    InspectingOld { id: Seq<char> },
    StoppingOld { id: Seq<char>, image: Seq<char> },
    DeletingOld { image: Seq<char> },
    Creating { image_to_delete: Option<Seq<char>> },
    Starting { id: Seq<char>, image_to_delete: Option<Seq<char>> },
    Connecting { id: Seq<char>, image_to_delete: Option<Seq<char>> },
    Resolving { id: Seq<char>, image_to_delete: Option<Seq<char>> },
    CleaningUp { service: ServiceView },
}

impl DeepView for StartState {
    type V = StartStateView;

    open spec fn deep_view(&self) -> StartStateView {
        match self {
            StartState::Start => StartStateView::Start,
            StartState::Pulling => StartStateView::Pulling,
            StartState::FindingOld => StartStateView::FindingOld,
            StartState::InspectingOld { id } => StartStateView::InspectingOld { id: id@ },
            StartState::StoppingOld { id, image } => StartStateView::StoppingOld {
                id: id@,
                image: image@,
            },
            StartState::DeletingOld { image } => StartStateView::DeletingOld { image: image@ },
            StartState::Creating { image_to_delete } => StartStateView::Creating {
                image_to_delete: image_to_delete.deep_view(),
            },
            StartState::Starting { id, image_to_delete } => StartStateView::Starting {
                id: id@,
                image_to_delete: image_to_delete.deep_view(),
            },
            StartState::Connecting { id, image_to_delete } => StartStateView::Connecting {
                id: id@,
                image_to_delete: image_to_delete.deep_view(),
            },
            StartState::Resolving { id, image_to_delete } => StartStateView::Resolving {
                id: id@,
                image_to_delete: image_to_delete.deep_view(),
            },
            StartState::CleaningUp { service } => StartStateView::CleaningUp { service: service@ },
        }
    }
}

/// What a service is started with.
pub struct StartInput {
    pub app_name: Seq<char>,
    pub network_id: Seq<char>,
    pub config: ServiceConfigView,
    pub memory_limit: Option<u64>,
}

/// Ask for all containers, to see whether the service runs already.
pub open spec fn find_old() -> ProgressView<StartStateView, ServiceView> {
    ProgressView::Call(
        RuntimeCallView::ListContainers { filter: ContainerFilterView::All },
        StartStateView::FindingOld,
    )
}

/// Ask for the new container.
pub open spec fn create_new(input: StartInput, image_to_delete: Option<Seq<char>>) -> ProgressView<
    StartStateView,
    ServiceView,
> {
    ProgressView::Call(
        RuntimeCallView::CreateContainer {
            spec: container_spec_of(input.app_name, input.config, input.memory_limit),
        },
        StartStateView::Creating { image_to_delete },
    )
}

/// What is made of the new container once it is read back: the service it
/// stands for, with the type that the configuration asked for; and, where an
/// old container was replaced, the request to delete the image it ran.
pub open spec fn resolve_new(
    input: StartInput,
    containers: Seq<ContainerView>,
    id: Seq<char>,
    image_to_delete: Option<Seq<char>>,
) -> ProgressView<StartStateView, ServiceView> {
    match container_by_id(containers, id) {
        None => ProgressView::Finished(
            Err(
                DockerInfrastructureErrorView::UnexpectedError {
                    internal_message: "the new container is not listed"@,
                },
            ),
        ),
        Some(container) => match service_of(container) {
            Err(error) => ProgressView::Finished(Err(error)),
            Ok(found) => {
                let service = ServiceView { container_type: input.config.container_type, ..found };
                match image_to_delete {
                    Some(image) => ProgressView::Call(
                        RuntimeCallView::DeleteImage { image },
                        StartStateView::CleaningUp { service },
                    ),
                    None => ProgressView::Finished(Ok(service)),
                }
            },
        },
    }
}

/// One step of starting a service: pull the image unless it is given by
/// digest; stop and delete the container that runs the service already,
/// where there is one; create the new container, start it and connect it to
/// the network of the app under the name of the service; read it back; and
/// try to delete the image of the replaced container. A failure of that last
/// request changes nothing of the result.
pub open spec fn start_container_step(
    input: StartInput,
    state: StartStateView,
    reply: Option<RuntimeReplyView>,
) -> ProgressView<StartStateView, ServiceView> {
    match state {
        StartStateView::Start => if input.config.image.is_digest() {
            find_old()
        } else {
            ProgressView::Call(
                RuntimeCallView::PullImage { image: input.config.image.name() },
                StartStateView::Pulling,
            )
        },
        StartStateView::Pulling => match reply {
            Some(RuntimeReplyView::Done) => find_old(),
            _ => failed_with(reply),
        },
        StartStateView::FindingOld => match reply {
            Some(RuntimeReplyView::Containers(containers)) => match app_container(
                containers,
                input.app_name,
                input.config.service_name,
            ) {
                Some(old) => ProgressView::Call(
                    RuntimeCallView::InspectContainer { id: old.id },
                    StartStateView::InspectingOld { id: old.id },
                ),
                None => create_new(input, None),
            },
            _ => failed_with(reply),
        },
        StartStateView::InspectingOld { id } => match reply {
            Some(RuntimeReplyView::Details(details)) => ProgressView::Call(
                RuntimeCallView::StopContainer { id, grace_seconds: Some(REPLACE_GRACE_SECONDS) },
                StartStateView::StoppingOld { id, image: details.image },
            ),
            _ => failed_with(reply),
        },
        StartStateView::StoppingOld { id, image } => match reply {
            Some(RuntimeReplyView::Done) => ProgressView::Call(
                RuntimeCallView::DeleteContainer { id },
                StartStateView::DeletingOld { image },
            ),
            _ => failed_with(reply),
        },
        StartStateView::DeletingOld { image } => match reply {
            Some(RuntimeReplyView::Done) => create_new(input, Some(image)),
            _ => failed_with(reply),
        },
        StartStateView::Creating { image_to_delete } => match reply {
            Some(RuntimeReplyView::ContainerCreated { id }) => ProgressView::Call(
                RuntimeCallView::StartContainer { id },
                StartStateView::Starting { id, image_to_delete },
            ),
            _ => failed_with(reply),
        },
        StartStateView::Starting { id, image_to_delete } => match reply {
            Some(RuntimeReplyView::Done) => ProgressView::Call(
                RuntimeCallView::ConnectContainer {
                    network_id: input.network_id,
                    container_id: id,
                    aliases: seq![input.config.service_name],
                },
                StartStateView::Connecting { id, image_to_delete },
            ),
            _ => failed_with(reply),
        },
        StartStateView::Connecting { id, image_to_delete } => match reply {
            Some(RuntimeReplyView::Done) => ProgressView::Call(
                RuntimeCallView::ListContainers { filter: ContainerFilterView::All },
                StartStateView::Resolving { id, image_to_delete },
            ),
            _ => failed_with(reply),
        },
        StartStateView::Resolving { id, image_to_delete } => match reply {
            Some(RuntimeReplyView::Containers(containers)) => resolve_new(
                input,
                containers,
                id,
                image_to_delete,
            ),
            _ => failed_with(reply),
        },
        StartStateView::CleaningUp { service } => ProgressView::Finished(Ok(service)),
    }
}

impl DockerInfrastructure {
    /// The request to pull the image of a service.
    pub fn pull_image(&self, config: &ServiceConfig) -> (call: RuntimeCall)
        ensures
            call.deep_view() == (RuntimeCallView::PullImage {
                image: config.deep_view().image.name(),
            }),
    {
        RuntimeCall::PullImage { image: config.get_docker_image() }
    }

    /// Takes the task that starts one service one step further. The task
    /// starts in `StartState::Start` without a reply and ends with the
    /// service that runs in the new container.
    pub fn start_container(
        &self,
        app_name: &String,
        network_id: &String,
        service_config: &ServiceConfig,
        container_config: &ContainerConfig,
        state: StartState,
        reply: Option<RuntimeReply>,
    ) -> (progress: Progress<StartState, Service>)
        ensures
            progress.deep_view() == start_container_step(
                StartInput {
                    app_name: app_name@,
                    network_id: network_id@,
                    config: service_config.deep_view(),
                    memory_limit: container_config.spec_memory_limit(),
                },
                state.deep_view(),
                reply.deep_view(),
            ),
    {
        let list_all = RuntimeCall::ListContainers { filter: ContainerFilter::All };
        match state {
            StartState::Start => {
                if service_config.refers_to_image_id() {
                    Progress::Call(list_all, StartState::FindingOld)
                } else {
                    Progress::Call(self.pull_image(service_config), StartState::Pulling)
                }
            },
            StartState::Pulling => match reply {
                Some(RuntimeReply::Done) => Progress::Call(list_all, StartState::FindingOld),
                other => Progress::Finished(Err(reply_error(other))),
            },
            StartState::FindingOld => match reply {
                Some(RuntimeReply::Containers(containers)) => match self.get_app_container(
                    &containers,
                    app_name,
                    service_config.get_service_name(),
                ) {
                    Some(old) => Progress::Call(
                        RuntimeCall::InspectContainer { id: old.id.clone() },
                        StartState::InspectingOld { id: old.id.clone() },
                    ),
                    None => Progress::Call(
                        RuntimeCall::CreateContainer {
                            spec: self.container_spec(app_name, service_config, container_config),
                        },
                        StartState::Creating { image_to_delete: None },
                    ),
                },
                other => Progress::Finished(Err(reply_error(other))),
            },
            StartState::InspectingOld { id } => match reply {
                Some(RuntimeReply::Details(details)) => Progress::Call(
                    RuntimeCall::StopContainer {
                        id: id.clone(),
                        grace_seconds: Some(REPLACE_GRACE_SECONDS),
                    },
                    StartState::StoppingOld { id, image: details.image },
                ),
                other => Progress::Finished(Err(reply_error(other))),
            },
            StartState::StoppingOld { id, image } => match reply {
                Some(RuntimeReply::Done) => Progress::Call(
                    RuntimeCall::DeleteContainer { id },
                    StartState::DeletingOld { image },
                ),
                other => Progress::Finished(Err(reply_error(other))),
            },
            StartState::DeletingOld { image } => match reply {
                Some(RuntimeReply::Done) => Progress::Call(
                    RuntimeCall::CreateContainer {
                        spec: self.container_spec(app_name, service_config, container_config),
                    },
                    StartState::Creating { image_to_delete: Some(image) },
                ),
                other => Progress::Finished(Err(reply_error(other))),
            },
            StartState::Creating { image_to_delete } => match reply {
                Some(RuntimeReply::ContainerCreated { id }) => Progress::Call(
                    RuntimeCall::StartContainer { id: id.clone() },
                    StartState::Starting { id, image_to_delete },
                ),
                other => Progress::Finished(Err(reply_error(other))),
            },
            StartState::Starting { id, image_to_delete } => match reply {
                Some(RuntimeReply::Done) => {
                    let mut aliases: Vec<String> = Vec::new();
                    aliases.push(service_config.get_service_name().clone());
                    assert(aliases.deep_view() =~= seq![service_config.deep_view().service_name]);
                    Progress::Call(
                        RuntimeCall::ConnectContainer {
                            network_id: network_id.clone(),
                            container_id: id.clone(),
                            aliases,
                        },
                        StartState::Connecting { id, image_to_delete },
                    )
                },
                other => Progress::Finished(Err(reply_error(other))),
            },
            StartState::Connecting { id, image_to_delete } => match reply {
                Some(RuntimeReply::Done) => Progress::Call(
                    list_all,
                    StartState::Resolving { id, image_to_delete },
                ),
                other => Progress::Finished(Err(reply_error(other))),
            },
            StartState::Resolving { id, image_to_delete } => match reply {
                Some(RuntimeReply::Containers(containers)) => {
                    match self.get_app_container_by_id(&containers, &id) {
                        None => Progress::Finished(
                            Err(
                                DockerInfrastructureError::unexpected(
                                    "the new container is not listed",
                                ),
                            ),
                        ),
                        Some(container) => match Service::try_from(container) {
                            Err(error) => Progress::Finished(Err(error)),
                            Ok(found) => {
                                let mut service = found;
                                service.set_container_type(service_config.get_container_type());
                                match image_to_delete {
                                    Some(image) => Progress::Call(
                                        RuntimeCall::DeleteImage { image },
                                        StartState::CleaningUp { service },
                                    ),
                                    None => Progress::Finished(Ok(service)),
                                }
                            },
                        },
                    }
                },
                other => Progress::Finished(Err(reply_error(other))),
            },
            StartState::CleaningUp { service } => Progress::Finished(Ok(service)),
        }
    }
}

} // verus!
