use crate::models::service::ServiceStatus;
use crate::models::time::Timestamp;
use vstd::prelude::*;

verus! {

/// A label of a container: its name and its value.
pub type Label = (String, String);

pub type LabelView = (Seq<char>, Seq<char>);

/// A container as the runtime lists it.
#[derive(Debug)]
pub struct Container {
    pub id: String,
    pub labels: Vec<Label>,
    pub status: ServiceStatus,
    pub started_at: Timestamp,
}

pub struct ContainerView {
    pub id: Seq<char>,
    pub labels: Seq<LabelView>,
    pub status: ServiceStatus,
    pub started_at: Timestamp,
}

impl DeepView for Container {
    type V = ContainerView;

    open spec fn deep_view(&self) -> ContainerView {
        ContainerView {
            id: self.id@,
            labels: self.labels.deep_view(),
            status: self.status,
            started_at: self.started_at,
        }
    }
}

/// What the runtime tells of one container when asked about it alone.
#[derive(Debug)]
pub struct ContainerDetails {
    pub image: String,
    pub env: Option<Vec<String>>,
}

pub struct ContainerDetailsView {
    pub image: Seq<char>,
    pub env: Option<Seq<Seq<char>>>,
}

impl DeepView for ContainerDetails {
    type V = ContainerDetailsView;

    open spec fn deep_view(&self) -> ContainerDetailsView {
        ContainerDetailsView { image: self.image@, env: self.env.deep_view() }
    }
}

/// A virtual network as the runtime lists it.
#[derive(Debug)]
pub struct Network {
    pub id: String,
    pub name: String,
}

pub struct NetworkView {
    pub id: Seq<char>,
    pub name: Seq<char>,
}

impl DeepView for Network {
    type V = NetworkView;

    open spec fn deep_view(&self) -> NetworkView {
        NetworkView { id: self.id@, name: self.name@ }
    }
}

/// Which containers a listing is to show.
#[derive(Debug)]
pub enum ContainerFilter {
    /// Every container.
    All,
    /// Those that carry the label, whatever its value.
    LabelName(String),
    /// Those that carry the label with this value.
    Label(String, String),
}

pub enum ContainerFilterView {
    All,
    LabelName(Seq<char>),
    Label(Seq<char>, Seq<char>),
}

impl DeepView for ContainerFilter {
    type V = ContainerFilterView;

    open spec fn deep_view(&self) -> ContainerFilterView {
        match self {
            ContainerFilter::All => ContainerFilterView::All,
            ContainerFilter::LabelName(name) => ContainerFilterView::LabelName(name@),
            ContainerFilter::Label(name, value) => ContainerFilterView::Label(name@, value@),
        }
    }
}

/// When the runtime is to bring a stopped container back.
#[derive(Debug)]
pub struct RestartPolicy {
    pub name: String,
    pub maximum_retry_count: u64,
}

pub struct RestartPolicyView {
    pub name: Seq<char>,
    pub maximum_retry_count: u64,
}

impl DeepView for RestartPolicy {
    type V = RestartPolicyView;

    open spec fn deep_view(&self) -> RestartPolicyView {
        RestartPolicyView { name: self.name@, maximum_retry_count: self.maximum_retry_count }
    }
}

/// All that the runtime needs to create a container.
#[derive(Debug)]
pub struct ContainerSpec {
    pub image: String,
    pub env: Option<Vec<String>>,
    pub labels: Vec<Label>,
    pub restart_policy: RestartPolicy,
    pub memory: Option<u64>,
}

pub struct ContainerSpecView {
    pub image: Seq<char>,
    pub env: Option<Seq<Seq<char>>>,
    pub labels: Seq<LabelView>,
    pub restart_policy: RestartPolicyView,
    pub memory: Option<u64>,
}

impl DeepView for ContainerSpec {
    type V = ContainerSpecView;

    open spec fn deep_view(&self) -> ContainerSpecView {
        ContainerSpecView {
            image: self.image@,
            env: self.env.deep_view(),
            labels: self.labels.deep_view(),
            restart_policy: self.restart_policy.deep_view(),
            memory: self.memory,
        }
    }
}

/// One request to the container runtime.
#[derive(Debug)]
pub enum RuntimeCall {
    ListNetworks,
    CreateNetwork { name: String },
    DeleteNetwork { id: String },
    ListContainers { filter: ContainerFilter },
    PullImage { image: String },
    InspectContainer { id: String },
    /// Stop the container; `grace_seconds` is how long it may take, the
    /// runtime's own limit where none is given.
    StopContainer { id: String, grace_seconds: Option<u64> },
    DeleteContainer { id: String },
    CreateContainer { spec: ContainerSpec },
    StartContainer { id: String },
    ConnectContainer { network_id: String, container_id: String, aliases: Vec<String> },
    DeleteImage { image: String },
}

pub enum RuntimeCallView {
    ListNetworks,
    CreateNetwork { name: Seq<char> },
    DeleteNetwork { id: Seq<char> },
    ListContainers { filter: ContainerFilterView },
    PullImage { image: Seq<char> },
    InspectContainer { id: Seq<char> },
    StopContainer { id: Seq<char>, grace_seconds: Option<u64> },
    DeleteContainer { id: Seq<char> },
    CreateContainer { spec: ContainerSpecView },
    StartContainer { id: Seq<char> },
    ConnectContainer { network_id: Seq<char>, container_id: Seq<char>, aliases: Seq<Seq<char>> },
    DeleteImage { image: Seq<char> },
}

impl DeepView for RuntimeCall {
    type V = RuntimeCallView;

    open spec fn deep_view(&self) -> RuntimeCallView {
        match self {
            RuntimeCall::ListNetworks => RuntimeCallView::ListNetworks,
            RuntimeCall::CreateNetwork { name } => RuntimeCallView::CreateNetwork { name: name@ },
            RuntimeCall::DeleteNetwork { id } => RuntimeCallView::DeleteNetwork { id: id@ },
            RuntimeCall::ListContainers { filter } => RuntimeCallView::ListContainers {
                filter: filter.deep_view(),
            },
            RuntimeCall::PullImage { image } => RuntimeCallView::PullImage { image: image@ },
            RuntimeCall::InspectContainer { id } => RuntimeCallView::InspectContainer { id: id@ },
            RuntimeCall::StopContainer { id, grace_seconds } => RuntimeCallView::StopContainer {
                id: id@,
                grace_seconds: *grace_seconds,
            },
            RuntimeCall::DeleteContainer { id } => RuntimeCallView::DeleteContainer { id: id@ },
            RuntimeCall::CreateContainer { spec } => RuntimeCallView::CreateContainer {
                spec: spec.deep_view(),
            },
            RuntimeCall::StartContainer { id } => RuntimeCallView::StartContainer { id: id@ },
            RuntimeCall::ConnectContainer {
                network_id,
                container_id,
                aliases,
            } => RuntimeCallView::ConnectContainer {
                network_id: network_id@,
                container_id: container_id@,
                aliases: aliases.deep_view(),
            },
            RuntimeCall::DeleteImage { image } => RuntimeCallView::DeleteImage { image: image@ },
        }
    }
}

/// A request that the runtime turned down. `code` is the HTTP status where
/// the runtime answered with one, `message` what it said then, and
/// `description` the failure in one line, whatever its kind.
#[derive(Debug)]
pub struct RuntimeFault {
    pub code: Option<u16>,
    pub message: String,
    pub description: String,
}

pub struct RuntimeFaultView {
    pub code: Option<u16>,
    pub message: Seq<char>,
    pub description: Seq<char>,
}

impl DeepView for RuntimeFault {
    type V = RuntimeFaultView;

    open spec fn deep_view(&self) -> RuntimeFaultView {
        RuntimeFaultView {
            code: self.code,
            message: self.message@,
            description: self.description@,
        }
    }
}

/// What the runtime answered to one request.
#[derive(Debug)]
pub enum RuntimeReply {
    Networks(Vec<Network>),
    NetworkCreated { id: String },
    Containers(Vec<Container>),
    Details(ContainerDetails),
    ContainerCreated { id: String },
    /// The request was carried out and there is nothing to tell.
    Done,
    Failed(RuntimeFault),
}

pub enum RuntimeReplyView {
    Networks(Seq<NetworkView>),
    NetworkCreated { id: Seq<char> },
    Containers(Seq<ContainerView>),
    Details(ContainerDetailsView),
    ContainerCreated { id: Seq<char> },
    Done,
    Failed(RuntimeFaultView),
}

impl DeepView for RuntimeReply {
    type V = RuntimeReplyView;

    open spec fn deep_view(&self) -> RuntimeReplyView {
        match self {
            RuntimeReply::Networks(networks) => RuntimeReplyView::Networks(networks.deep_view()),
            RuntimeReply::NetworkCreated { id } => RuntimeReplyView::NetworkCreated { id: id@ },
            RuntimeReply::Containers(containers) => RuntimeReplyView::Containers(
                containers.deep_view(),
            ),
            RuntimeReply::Details(details) => RuntimeReplyView::Details(details.deep_view()),
            RuntimeReply::ContainerCreated { id } => RuntimeReplyView::ContainerCreated { id: id@ },
            RuntimeReply::Done => RuntimeReplyView::Done,
            RuntimeReply::Failed(fault) => RuntimeReplyView::Failed(fault.deep_view()),
        }
    }
}

} // verus!
