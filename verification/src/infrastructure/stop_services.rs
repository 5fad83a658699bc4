use crate::infrastructure::docker_infrastructure::{
    container_ids, grouped_services, DockerInfrastructure,
};
use crate::infrastructure::labels::APP_NAME_LABEL;
use crate::infrastructure::network::{
    delete_network_step, DeleteNetworkState, DeleteNetworkStateView,
};
use crate::infrastructure::progress::{failed_with, reply_error, Progress, ProgressView};
use crate::infrastructure::runtime::{
    Container, ContainerFilter, ContainerFilterView, RuntimeCall, RuntimeCallView, RuntimeReply,
    RuntimeReplyView,
};
use crate::inventory::{inventory_get_vec, services_of};
use crate::models::service::{Service, ServiceView};
use vstd::prelude::*;
use vstd::string::StringExecFns;

verus! {

/// Where the task that stops an app stands. `services` is what the app ran
/// when the task began.
#[derive(Debug)]
pub enum StopState {
    Start,
    /// Waiting for the list of all managed containers.
    ListingAll,
    /// Waiting for the list of the app's containers.
    ListingApp { services: Vec<Service> },
    /// Waiting for the container `id` to stop; `remaining` are the ids of
    /// those to stop after it.
    Stopping { services: Vec<Service>, id: String, remaining: Vec<String> },
    /// Waiting for a stopped container to be deleted.
    Deleting { services: Vec<Service>, remaining: Vec<String> },
    /// All containers are gone; the network of the app is being removed.
    RemovingNetwork { services: Vec<Service>, network: DeleteNetworkState },
}

pub enum StopStateView {
    Start,
    ListingAll,
    ListingApp { services: Seq<ServiceView> },
    Stopping { services: Seq<ServiceView>, id: Seq<char>, remaining: Seq<Seq<char>> },
    Deleting { services: Seq<ServiceView>, remaining: Seq<Seq<char>> },
    RemovingNetwork { services: Seq<ServiceView>, network: DeleteNetworkStateView },
}

impl DeepView for StopState {
    type V = StopStateView;

    open spec fn deep_view(&self) -> StopStateView {
        match self {
            StopState::Start => StopStateView::Start,
            StopState::ListingAll => StopStateView::ListingAll,
            StopState::ListingApp { services } => StopStateView::ListingApp {
                services: services.deep_view(),
            },
            StopState::Stopping { services, id, remaining } => StopStateView::Stopping {
                services: services.deep_view(),
                id: id@,
                remaining: remaining.deep_view(),
            },
            StopState::Deleting { services, remaining } => StopStateView::Deleting {
                services: services.deep_view(),
                remaining: remaining.deep_view(),
            },
            StopState::RemovingNetwork { services, network } => StopStateView::RemovingNetwork {
                services: services.deep_view(),
                network: network.deep_view(),
            },
        }
    }
}

/// The removal of the network as a part of stopping the app: its requests
/// are handed on, its failure is the failure of the whole, and with its end
/// the whole ends and hands out the services.
pub open spec fn while_removing_network(
    services: Seq<ServiceView>,
    progress: ProgressView<DeleteNetworkStateView, ()>,
) -> ProgressView<StopStateView, Seq<ServiceView>> {
    match progress {
        ProgressView::Call(call, network) => ProgressView::Call(
            call,
            StopStateView::RemovingNetwork { services, network },
        ),
        ProgressView::Finished(Ok(_)) => ProgressView::Finished(Ok(services)),
        ProgressView::Finished(Err(error)) => ProgressView::Finished(Err(error)),
    }
}

/// Stops the first of `ids`, without a grace period of its own, and keeps
/// the rest for later; where none is left, turns to the network.
pub open spec fn stop_next(
    app_name: Seq<char>,
    services: Seq<ServiceView>,
    ids: Seq<Seq<char>>,
) -> ProgressView<StopStateView, Seq<ServiceView>> {
    if ids.len() == 0 {
        while_removing_network(
            services,
            delete_network_step(app_name, DeleteNetworkStateView::Start, None),
        )
    } else {
        ProgressView::Call(
            RuntimeCallView::StopContainer { id: ids[0], grace_seconds: None },
            StopStateView::Stopping { services, id: ids[0], remaining: ids.drop_first() },
        )
    }
}

/// One step of stopping an app: list the managed containers and take the
/// services of the app from them, none where no container stands for one.
/// Then list the containers that carry the app's name, whether they stand
/// for a service or not, stop and delete each of them, remove the network of
/// the app, and end with the services as they were at the beginning. Of an
/// app that is not there nothing is found, and the task ends with no
/// service.
pub open spec fn stop_services_step(
    app_name: Seq<char>,
    state: StopStateView,
    reply: Option<RuntimeReplyView>,
) -> ProgressView<StopStateView, Seq<ServiceView>> {
    match state {
        StopStateView::Start => ProgressView::Call(
            RuntimeCallView::ListContainers {
                filter: ContainerFilterView::LabelName(APP_NAME_LABEL@),
            },
            StopStateView::ListingAll,
        ),
        StopStateView::ListingAll => match reply {
            Some(RuntimeReplyView::Containers(containers)) => ProgressView::Call(
                RuntimeCallView::ListContainers {
                    filter: ContainerFilterView::Label(APP_NAME_LABEL@, app_name),
                },
                StopStateView::ListingApp {
                    services: services_of(grouped_services(containers), app_name),
                },
            ),
            _ => failed_with(reply),
        },
        StopStateView::ListingApp { services } => match reply {
            Some(RuntimeReplyView::Containers(containers)) => stop_next(
                app_name,
                services,
                container_ids(containers),
            ),
            _ => failed_with(reply),
        },
        StopStateView::Stopping { services, id, remaining } => match reply {
            Some(RuntimeReplyView::Done) => ProgressView::Call(
                RuntimeCallView::DeleteContainer { id },
                StopStateView::Deleting { services, remaining },
            ),
            _ => failed_with(reply),
        },
        StopStateView::Deleting { services, remaining } => match reply {
            Some(RuntimeReplyView::Done) => stop_next(app_name, services, remaining),
            _ => failed_with(reply),
        },
        StopStateView::RemovingNetwork { services, network } => while_removing_network(
            services,
            delete_network_step(app_name, network, reply),
        ),
    }
}

/// A copy of a list of services.
pub fn copy_services(services: &Vec<Service>) -> (copy: Vec<Service>)
    ensures
        copy.deep_view() == services.deep_view(),
{
    let mut copy: Vec<Service> = Vec::new();
    let mut i: usize = 0;
    while i < services.len()
        invariant
            i <= services.len(),
            copy@.len() == i,
            forall|j: int| 0 <= j < i ==> copy@[j]@ == services@[j]@,
        decreases services.len() - i,
    {
        copy.push(services[i].clone());
        i += 1;
    }
    assert(copy.deep_view() =~= services.deep_view());
    copy
}

/// The ids of the listed containers.
pub fn ids_of(containers: &Vec<Container>) -> (ids: Vec<String>)
    ensures
        ids.deep_view() == container_ids(containers.deep_view()),
{
    let mut ids: Vec<String> = Vec::new();
    let mut i: usize = 0;
    while i < containers.len()
        invariant
            i <= containers.len(),
            ids@.len() == i,
            forall|j: int| 0 <= j < i ==> ids@[j]@ == containers@[j].id@,
        decreases containers.len() - i,
    {
        ids.push(containers[i].id.clone());
        i += 1;
    }
    assert(ids.deep_view() =~= container_ids(containers.deep_view()));
    ids
}

impl DockerInfrastructure {
    fn while_removing_network(
        &self,
        services: Vec<Service>,
        progress: Progress<DeleteNetworkState, ()>,
    ) -> (lifted: Progress<StopState, Vec<Service>>)
        ensures
            lifted.deep_view() == while_removing_network(services.deep_view(), progress.deep_view()),
    {
        match progress {
            Progress::Call(call, network) => Progress::Call(
                call,
                StopState::RemovingNetwork { services, network },
            ),
            Progress::Finished(Ok(_)) => Progress::Finished(Ok(services)),
            Progress::Finished(Err(error)) => Progress::Finished(Err(error)),
        }
    }

    fn stop_next(&self, app_name: &String, services: Vec<Service>, ids: Vec<String>) -> (progress:
        Progress<StopState, Vec<Service>>)
        ensures
            progress.deep_view() == stop_next(app_name@, services.deep_view(), ids.deep_view()),
    {
        let mut ids = ids;
        let ghost all = ids.deep_view();
        if ids.len() == 0 {
            let network = self.delete_network(app_name, DeleteNetworkState::Start, None);
            self.while_removing_network(services, network)
        } else {
            let id = ids.remove(0);
            assert(ids.deep_view() =~= all.drop_first());
            assert(id@ == all[0]);
            Progress::Call(
                RuntimeCall::StopContainer { id: id.clone(), grace_seconds: None },
                StopState::Stopping { services, id, remaining: ids },
            )
        }
    }

    /// Takes the task that stops an app one step further. The task starts in
    /// `StopState::Start` without a reply and ends with the services that
    /// the app ran.
    pub fn stop_services(
        &self,
        app_name: &String,
        state: StopState,
        reply: Option<RuntimeReply>,
    ) -> (progress: Progress<StopState, Vec<Service>>)
        ensures
            progress.deep_view() == stop_services_step(
                app_name@,
                state.deep_view(),
                reply.deep_view(),
            ),
    {
        match state {
            StopState::Start => Progress::Call(
                RuntimeCall::ListContainers {
                    filter: ContainerFilter::LabelName(String::from_str(APP_NAME_LABEL)),
                },
                StopState::ListingAll,
            ),
            StopState::ListingAll => match reply {
                Some(RuntimeReply::Containers(containers)) => {
                    let apps = self.get_services(&containers);
                    let services = match inventory_get_vec(&apps, app_name) {
                        None => {
                            let none: Vec<Service> = Vec::new();
                            assert(none.deep_view() =~= Seq::empty());
                            none
                        },
                        Some(services) => copy_services(services),
                    };
                    Progress::Call(
                        RuntimeCall::ListContainers {
                            filter: ContainerFilter::Label(
                                String::from_str(APP_NAME_LABEL),
                                app_name.clone(),
                            ),
                        },
                        StopState::ListingApp { services },
                    )
                },
                other => Progress::Finished(Err(reply_error(other))),
            },
            StopState::ListingApp { services } => match reply {
                Some(RuntimeReply::Containers(containers)) => self.stop_next(
                    app_name,
                    services,
                    ids_of(&containers),
                ),
                other => Progress::Finished(Err(reply_error(other))),
            },
            StopState::Stopping { services, id, remaining } => match reply {
                Some(RuntimeReply::Done) => Progress::Call(
                    RuntimeCall::DeleteContainer { id },
                    StopState::Deleting { services, remaining },
                ),
                other => Progress::Finished(Err(reply_error(other))),
            },
            StopState::Deleting { services, remaining } => match reply {
                Some(RuntimeReply::Done) => self.stop_next(app_name, services, remaining),
                other => Progress::Finished(Err(reply_error(other))),
            },
            StopState::RemovingNetwork { services, network } => {
                let progress = self.delete_network(app_name, network, reply);
                self.while_removing_network(services, progress)
            },
        }
    }
}

} // verus!
