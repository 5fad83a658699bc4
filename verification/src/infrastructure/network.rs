use crate::infrastructure::docker_infrastructure::{
    network_id_by_name, network_ids_by_name, network_name, DockerInfrastructure,
};
use crate::infrastructure::progress::{failed_with, reply_error, Progress, ProgressView};
use crate::infrastructure::runtime::{RuntimeCall, RuntimeCallView, RuntimeReply, RuntimeReplyView};
use vstd::prelude::*;

verus! {

/// Where the task that provides the network of an app stands.
#[derive(Clone, Copy, Debug, PartialEq, Eq, Structural)]
pub enum NetworkState {
    Start,
    /// Waiting for the list of networks.
    Listing,
    /// Waiting for the new network.
    Creating,
}

impl DeepView for NetworkState {
    type V = NetworkState;

    open spec fn deep_view(&self) -> NetworkState {
        *self
    }
}

/// One step of providing the network of an app: list the networks, take the
/// first with the app's network name, and create one only where there is
/// none.
pub open spec fn network_step(
    app_name: Seq<char>,
    state: NetworkState,
    reply: Option<RuntimeReplyView>,
) -> ProgressView<NetworkState, Seq<char>> {
    match state {
        NetworkState::Start => ProgressView::Call(
            RuntimeCallView::ListNetworks,
            NetworkState::Listing,
        ),
        NetworkState::Listing => match reply {
            Some(RuntimeReplyView::Networks(networks)) => match network_id_by_name(
                networks,
                network_name(app_name),
            ) {
                Some(id) => ProgressView::Finished(Ok(id)),
                None => ProgressView::Call(
                    RuntimeCallView::CreateNetwork { name: network_name(app_name) },
                    NetworkState::Creating,
                ),
            },
            _ => failed_with(reply),
        },
        NetworkState::Creating => match reply {
            Some(RuntimeReplyView::NetworkCreated { id }) => ProgressView::Finished(Ok(id)),
            _ => failed_with(reply),
        },
    }
}

/// Where the task that removes the network of an app stands.
#[derive(Debug)]
pub enum DeleteNetworkState {
    Start,
    /// Waiting for the list of networks.
    Listing,
    /// Waiting for one network to be deleted; `remaining` are the ids of
    /// those to delete after it.
    Deleting { remaining: Vec<String> },
}

pub enum DeleteNetworkStateView {
    Start,
    Listing,
    Deleting { remaining: Seq<Seq<char>> },
}

impl DeepView for DeleteNetworkState {
    type V = DeleteNetworkStateView;

    open spec fn deep_view(&self) -> DeleteNetworkStateView {
        match self {
            DeleteNetworkState::Start => DeleteNetworkStateView::Start,
            DeleteNetworkState::Listing => DeleteNetworkStateView::Listing,
            DeleteNetworkState::Deleting { remaining } => DeleteNetworkStateView::Deleting {
                remaining: remaining.deep_view(),
            },
        }
    }
}

/// Deletes the first of `ids` and keeps the rest for later; ends where none
/// is left.
pub open spec fn delete_next_network(
    ids: Seq<Seq<char>>,
) -> ProgressView<DeleteNetworkStateView, ()> {
    if ids.len() == 0 {
        ProgressView::Finished(Ok(()))
    } else {
        ProgressView::Call(
            RuntimeCallView::DeleteNetwork { id: ids[0] },
            DeleteNetworkStateView::Deleting { remaining: ids.drop_first() },
        )
    }
}

/// One step of removing the network of an app: list the networks, then
/// delete every one that has the app's network name, one after the other.
pub open spec fn delete_network_step(
    app_name: Seq<char>,
    state: DeleteNetworkStateView,
    reply: Option<RuntimeReplyView>,
) -> ProgressView<DeleteNetworkStateView, ()> {
    match state {
        DeleteNetworkStateView::Start => ProgressView::Call(
            RuntimeCallView::ListNetworks,
            DeleteNetworkStateView::Listing,
        ),
        DeleteNetworkStateView::Listing => match reply {
            Some(RuntimeReplyView::Networks(networks)) => delete_next_network(
                network_ids_by_name(networks, network_name(app_name)),
            ),
            _ => failed_with(reply),
        },
        DeleteNetworkStateView::Deleting { remaining } => match reply {
            Some(RuntimeReplyView::Done) => delete_next_network(remaining),
            _ => failed_with(reply),
        },
    }
}

fn delete_next(ids: Vec<String>) -> (progress: Progress<DeleteNetworkState, ()>)
    ensures
        progress.deep_view() == delete_next_network(ids.deep_view()),
{
    let mut ids = ids;
    let ghost all = ids.deep_view();
    if ids.len() == 0 {
        Progress::Finished(Ok(()))
    } else {
        let id = ids.remove(0);
        assert(ids.deep_view() =~= all.drop_first());
        assert(id@ == all[0]);
        Progress::Call(RuntimeCall::DeleteNetwork { id }, DeleteNetworkState::Deleting { remaining: ids })
    }
}

impl DockerInfrastructure {
    /// Takes the task that provides the network of an app one step further.
    /// The task starts in `NetworkState::Start` without a reply and ends
    /// with the id of the network.
    pub fn create_or_get_network_id(
        &self,
        app_name: &String,
        state: NetworkState,
        reply: Option<RuntimeReply>,
    ) -> (progress: Progress<NetworkState, String>)
        ensures
            progress.deep_view() == network_step(app_name@, state, reply.deep_view()),
    {
        match state {
            NetworkState::Start => Progress::Call(RuntimeCall::ListNetworks, NetworkState::Listing),
            NetworkState::Listing => match reply {
                Some(RuntimeReply::Networks(networks)) => match self.find_network_id(
                    &networks,
                    app_name,
                ) {
                    Some(id) => Progress::Finished(Ok(id)),
                    None => Progress::Call(
                        RuntimeCall::CreateNetwork { name: self.network_name(app_name) },
                        NetworkState::Creating,
                    ),
                },
                other => Progress::Finished(Err(reply_error(other))),
            },
            NetworkState::Creating => match reply {
                Some(RuntimeReply::NetworkCreated { id }) => Progress::Finished(Ok(id)),
                other => Progress::Finished(Err(reply_error(other))),
            },
        }
    }

    /// Takes the task that removes the network of an app one step further.
    /// The task starts in `DeleteNetworkState::Start` without a reply.
    pub fn delete_network(
        &self,
        app_name: &String,
        state: DeleteNetworkState,
        reply: Option<RuntimeReply>,
    ) -> (progress: Progress<DeleteNetworkState, ()>)
        ensures
            progress.deep_view() == delete_network_step(
                app_name@,
                state.deep_view(),
                reply.deep_view(),
            ),
    {
        match state {
            DeleteNetworkState::Start => Progress::Call(
                RuntimeCall::ListNetworks,
                DeleteNetworkState::Listing,
            ),
            DeleteNetworkState::Listing => match reply {
                Some(RuntimeReply::Networks(networks)) => delete_next(
                    self.find_network_ids(&networks, app_name),
                ),
                other => Progress::Finished(Err(reply_error(other))),
            },
            DeleteNetworkState::Deleting { remaining } => match reply {
                Some(RuntimeReply::Done) => delete_next(remaining),
                other => Progress::Finished(Err(reply_error(other))),
            },
        }
    }
}

} // verus!
