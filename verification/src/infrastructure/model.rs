use crate::infrastructure::docker_infrastructure::network_name;
use crate::infrastructure::labels::{label_value, APP_NAME_LABEL};
use crate::infrastructure::runtime::{
    ContainerDetailsView, ContainerFilterView, ContainerSpecView, ContainerView, NetworkView,
    RuntimeCallView, RuntimeFaultView, RuntimeReplyView,
};
use crate::models::service::ServiceStatus;
use crate::models::time::Timestamp;
use vstd::prelude::*;

verus! {

/// A container runtime as the orchestrator takes it to be: the containers
/// and the networks that exist, and what the runtime tells of each
/// container. This is the yardstick for what a task of the orchestrator
/// brings about; the runtime itself is not part of the library.
pub struct RuntimeModel {
    pub containers: Seq<ContainerView>,
    pub details: Map<Seq<char>, ContainerDetailsView>,
    pub networks: Seq<NetworkView>,
    /// Which container joined which network under which names, in the order
    /// of the requests.
    pub connections: Seq<Connection>,
    /// The images that the runtime can pull.
    pub pullable: Set<Seq<char>>,
    /// The ids that the runtime hands out, one after the other, and how many
    /// of them it has handed out.
    pub ids: spec_fn(nat) -> Seq<char>,
    pub handed_out: nat,
    /// The time that new containers start at.
    pub clock: Timestamp,
}

pub struct Connection {
    pub network_id: Seq<char>,
    pub container_id: Seq<char>,
    pub aliases: Seq<Seq<char>>,
}

/// The container is one that a listing with the filter shows.
pub open spec fn shown_by(filter: ContainerFilterView, container: ContainerView) -> bool {
    match filter {
        ContainerFilterView::All => true,
        ContainerFilterView::LabelName(name) => label_value(container.labels, name) is Some,
        ContainerFilterView::Label(name, value) => label_value(container.labels, name) == Some(
            value,
        ),
    }
}

/// The answer of the runtime to a request about something that is not
/// there.
pub open spec fn not_found() -> RuntimeReplyView {
    RuntimeReplyView::Failed(
        RuntimeFaultView { code: Some(404u16), message: "not found"@, description: "not found"@ },
    )
}

/// Some network of the listing has the id.
pub open spec fn lists_network(networks: Seq<NetworkView>, id: Seq<char>) -> bool {
    exists|i: int| 0 <= i < networks.len() && (#[trigger] networks[i]).id == id
}

/// Some network of the listing has the id and the name.
pub open spec fn lists_network_named(networks: Seq<NetworkView>, id: Seq<char>, name: Seq<char>) -> bool {
    exists|i: int|
        0 <= i < networks.len() && (#[trigger] networks[i]).id == id && networks[i].name == name
}

/// The containers that do not carry the label with the value are the same in
/// both runtimes.
pub open spec fn other_containers_kept(
    before: RuntimeModel,
    after: RuntimeModel,
    name: Seq<char>,
    value: Seq<char>,
) -> bool {
    forall|c: ContainerView|
        label_value(c.labels, name) != Some(value) ==> (#[trigger] after.containers.contains(c)
            <==> before.containers.contains(c))
}

/// The networks of another name are the same in both runtimes.
pub open spec fn other_networks_kept(before: RuntimeModel, after: RuntimeModel, name: Seq<char>) -> bool {
    forall|n: NetworkView|
        n.name != name ==> (#[trigger] after.networks.contains(n) <==> before.networks.contains(n))
}

/// The network of the app exists exactly when a container carries the name
/// of the app.
pub open spec fn network_goes_with_containers(model: RuntimeModel, app_name: Seq<char>) -> bool {
    model.has_network_named(network_name(app_name)) <==> model.has_labelled(
        APP_NAME_LABEL@,
        app_name,
    )
}

impl RuntimeModel {
    /// No two containers share an id, and no two networks; the runtime
    /// knows the details of every container; and the ids that it has yet to
    /// hand out are new and all different.
    pub open spec fn wf(self) -> bool {
        &&& forall|i: int, j: int|
            0 <= i < j < self.containers.len() ==> (#[trigger] self.containers[i]).id != (
            #[trigger] self.containers[j]).id
        &&& forall|i: int, j: int|
            0 <= i < j < self.networks.len() ==> (#[trigger] self.networks[i]).id != (
            #[trigger] self.networks[j]).id
        &&& forall|i: int|
            0 <= i < self.containers.len() ==> self.details.contains_key(
                (#[trigger] self.containers[i]).id,
            )
        &&& forall|k: nat| k >= self.handed_out ==> !self.has_container(#[trigger] (self.ids)(k))
        &&& forall|k: nat| k >= self.handed_out ==> !self.has_network(#[trigger] (self.ids)(k))
        &&& forall|j: nat, k: nat|
            j >= self.handed_out && k > j ==> #[trigger] (self.ids)(j) != #[trigger] (self.ids)(k)
    }

    /// The id that the runtime hands out next.
    pub open spec fn next_id(self) -> Seq<char> {
        (self.ids)(self.handed_out)
    }

    /// The runtime with one more container, made to the given description.
    pub open spec fn with_container(self, spec: ContainerSpecView) -> RuntimeModel {
        RuntimeModel {
            containers: self.containers.push(
                ContainerView {
                    id: self.next_id(),
                    labels: spec.labels,
                    status: ServiceStatus::Running,
                    started_at: self.clock,
                },
            ),
            details: self.details.insert(
                self.next_id(),
                ContainerDetailsView { image: spec.image, env: spec.env },
            ),
            handed_out: self.handed_out + 1,
            ..self
        }
    }

    /// The runtime with one more network of the given name.
    pub open spec fn with_network(self, name: Seq<char>) -> RuntimeModel {
        RuntimeModel {
            networks: self.networks.push(NetworkView { id: self.next_id(), name }),
            handed_out: self.handed_out + 1,
            ..self
        }
    }

    pub open spec fn has_container(self, id: Seq<char>) -> bool {
        exists|i: int| 0 <= i < self.containers.len() && (#[trigger] self.containers[i]).id == id
    }

    pub open spec fn has_network(self, id: Seq<char>) -> bool {
        lists_network(self.networks, id)
    }

    /// Some network has the name.
    pub open spec fn has_network_named(self, name: Seq<char>) -> bool {
        exists|i: int| 0 <= i < self.networks.len() && (#[trigger] self.networks[i]).name == name
    }

    /// Some container carries the label with the value.
    pub open spec fn has_labelled(self, name: Seq<char>, value: Seq<char>) -> bool {
        exists|i: int|
            0 <= i < self.containers.len() && label_value(
                (#[trigger] self.containers[i]).labels,
                name,
            ) == Some(value)
    }

    /// The containers that a listing with the filter shows, in their order.
    pub open spec fn list(self, filter: ContainerFilterView) -> Seq<ContainerView> {
        self.containers.filter(|c: ContainerView| shown_by(filter, c))
    }

    pub open spec fn without_container(self, id: Seq<char>) -> RuntimeModel {
        RuntimeModel {
            containers: self.containers.filter(|c: ContainerView| c.id != id),
            details: self.details.remove(id),
            ..self
        }
    }

    pub open spec fn without_network(self, id: Seq<char>) -> RuntimeModel {
        RuntimeModel { networks: self.networks.filter(|n: NetworkView| n.id != id), ..self }
    }

    /// What a request does to the runtime, and what the runtime answers. To
    /// list or to inspect changes nothing; to stop or to start changes
    /// nothing that the orchestrator looks at; to delete takes the container
    /// or the network away; to create adds one under the next id. A request
    /// about a container or a network that is not there fails, and so does
    /// pulling an image that cannot be pulled. Deleting an image always
    /// works here, which no task relies on.
    pub open spec fn respond(self, call: RuntimeCallView) -> (RuntimeModel, RuntimeReplyView) {
        match call {
            RuntimeCallView::ListNetworks => (self, RuntimeReplyView::Networks(self.networks)),
            RuntimeCallView::DeleteNetwork { id } => if self.has_network(id) {
                (self.without_network(id), RuntimeReplyView::Done)
            } else {
                (self, not_found())
            },
            RuntimeCallView::ListContainers { filter } => (
                self,
                RuntimeReplyView::Containers(self.list(filter)),
            ),
            RuntimeCallView::StopContainer { id, grace_seconds } => if self.has_container(id) {
                (self, RuntimeReplyView::Done)
            } else {
                (self, not_found())
            },
            RuntimeCallView::DeleteContainer { id } => if self.has_container(id) {
                (self.without_container(id), RuntimeReplyView::Done)
            } else {
                (self, not_found())
            },
            RuntimeCallView::CreateNetwork { name } => (
                self.with_network(name),
                RuntimeReplyView::NetworkCreated { id: self.next_id() },
            ),
            RuntimeCallView::PullImage { image } => if self.pullable.contains(image) {
                (self, RuntimeReplyView::Done)
            } else {
                (self, not_found())
            },
            RuntimeCallView::InspectContainer { id } => if self.has_container(id)
                && self.details.contains_key(id) {
                (self, RuntimeReplyView::Details(self.details[id]))
            } else {
                (self, not_found())
            },
            RuntimeCallView::CreateContainer { spec } => (
                self.with_container(spec),
                RuntimeReplyView::ContainerCreated { id: self.next_id() },
            ),
            RuntimeCallView::StartContainer { id } => if self.has_container(id) {
                (self, RuntimeReplyView::Done)
            } else {
                (self, not_found())
            },
            RuntimeCallView::ConnectContainer {
                network_id,
                container_id,
                aliases,
            } => if self.has_network(network_id) && self.has_container(container_id) {
                (
                    RuntimeModel {
                        connections: self.connections.push(
                            Connection { network_id, container_id, aliases },
                        ),
                        ..self
                    },
                    RuntimeReplyView::Done,
                )
            } else {
                (self, not_found())
            },
            RuntimeCallView::DeleteImage { image } => (self, RuntimeReplyView::Done),
        }
    }
}

/// A filter keeps apart what was apart: where no two items of a sequence
/// share an id, no two of those that the filter keeps do.
pub proof fn lemma_filter_keeps_ids_apart<T>(
    items: Seq<T>,
    keep: spec_fn(T) -> bool,
    id: spec_fn(T) -> Seq<char>,
)
    requires
        forall|i: int, j: int|
            0 <= i < j < items.len() ==> id(#[trigger] items[i]) != id(#[trigger] items[j]),
    ensures
        forall|i: int, j: int|
            0 <= i < j < items.filter(keep).len() ==> id(#[trigger] items.filter(keep)[i]) != id(
                #[trigger] items.filter(keep)[j],
            ),
    decreases items.len(),
{
    reveal(Seq::filter);
    if items.len() > 0 {
        let front = items.drop_last();
        assert forall|i: int, j: int| 0 <= i < j < front.len() implies id(#[trigger] front[i])
            != id(#[trigger] front[j]) by {
            assert(front[i] == items[i] && front[j] == items[j]);
        }
        lemma_filter_keeps_ids_apart(front, keep, id);
        let kept = front.filter(keep);
        if keep(items.last()) {
            assert(items.filter(keep) == kept.push(items.last()));
            assert forall|i: int| 0 <= i < kept.len() implies id(#[trigger] kept[i]) != id(
                items.last(),
            ) by {
                front.lemma_filter_contains_rev(keep, kept[i]);
                let k = choose|k: int| 0 <= k < front.len() && front[k] == kept[i];
                assert(items[k] == kept[i]);
                assert(items[items.len() - 1] == items.last());
            }
        } else {
            assert(items.filter(keep) == kept);
        }
    }
}

/// Taking a container or a network away leaves the ids apart.
pub proof fn lemma_removal_keeps_wf(model: RuntimeModel, id: Seq<char>)
    requires
        model.wf(),
    ensures
        model.without_container(id).wf(),
        model.without_network(id).wf(),
{
    let keep = |c: ContainerView| c.id != id;
    let keep_network = |n: NetworkView| n.id != id;
    lemma_filter_keeps_ids_apart(model.containers, keep, |c: ContainerView| c.id);
    lemma_filter_keeps_ids_apart(model.networks, keep_network, |n: NetworkView| n.id);
    let fewer = model.without_container(id);
    assert forall|i: int| 0 <= i < fewer.containers.len() implies fewer.details.contains_key(
        (#[trigger] fewer.containers[i]).id,
    ) by {
        model.containers.lemma_filter_pred(keep, i);
        model.containers.lemma_filter_contains_rev(keep, fewer.containers[i]);
    }
    assert forall|k: nat| k >= fewer.handed_out implies !fewer.has_container(
        #[trigger] (fewer.ids)(k),
    ) by {
        if fewer.has_container((fewer.ids)(k)) {
            let i = choose|i: int|
                0 <= i < fewer.containers.len() && (#[trigger] fewer.containers[i]).id == (
                fewer.ids)(k);
            model.containers.lemma_filter_contains_rev(keep, fewer.containers[i]);
            assert(model.has_container((model.ids)(k)));
        }
    }
    let less = model.without_network(id);
    assert forall|k: nat| k >= less.handed_out implies !less.has_network(
        #[trigger] (less.ids)(k),
    ) by {
        if less.has_network((less.ids)(k)) {
            let i = choose|i: int|
                0 <= i < less.networks.len() && (#[trigger] less.networks[i]).id == (less.ids)(k);
            model.networks.lemma_filter_contains_rev(keep_network, less.networks[i]);
            assert(model.has_network((model.ids)(k)));
        }
    }
}

/// What is left when a container is taken away: every container but those
/// with the id.
pub proof fn lemma_without_container(model: RuntimeModel, id: Seq<char>, c: ContainerView)
    ensures
        model.without_container(id).containers.contains(c) <==> model.containers.contains(c)
            && c.id != id,
{
    let keep = |c: ContainerView| c.id != id;
    let fewer = model.without_container(id).containers;
    if fewer.contains(c) {
        model.containers.lemma_filter_contains_rev(keep, c);
    }
    if model.containers.contains(c) && c.id != id {
        let k = choose|k: int| 0 <= k < model.containers.len() && model.containers[k] == c;
        model.containers.lemma_filter_contains(keep, k);
    }
}

/// What is left when a network is taken away: every network but those with
/// the id.
pub proof fn lemma_without_network(model: RuntimeModel, id: Seq<char>, n: NetworkView)
    ensures
        model.without_network(id).networks.contains(n) <==> model.networks.contains(n) && n.id
            != id,
{
    let keep = |n: NetworkView| n.id != id;
    let fewer = model.without_network(id).networks;
    if fewer.contains(n) {
        model.networks.lemma_filter_contains_rev(keep, n);
    }
    if model.networks.contains(n) && n.id != id {
        let k = choose|k: int| 0 <= k < model.networks.len() && model.networks[k] == n;
        model.networks.lemma_filter_contains(keep, k);
    }
}

/// Two apps have two network names.
pub proof fn lemma_network_names_differ(app_name: Seq<char>, other: Seq<char>)
    requires
        app_name != other,
    ensures
        network_name(app_name) != network_name(other),
{
    if network_name(app_name) == network_name(other) {
        assert(network_name(app_name).len() == app_name.len() + "-net"@.len());
        assert(network_name(other).len() == other.len() + "-net"@.len());
        assert(app_name.len() == other.len());
        assert forall|i: int| 0 <= i < app_name.len() implies app_name[i] == other[i] by {
            assert(network_name(app_name)[i] == app_name[i]);
            assert(network_name(other)[i] == other[i]);
        }
        assert(app_name =~= other);
    }
}

/// A wanted item of one sequence is found in another that holds the same
/// wanted items.
proof fn lemma_wanted_is_found<T>(from: Seq<T>, to: Seq<T>, wanted: spec_fn(T) -> bool, i: int) -> (k:
    int)
    requires
        0 <= i < from.len(),
        wanted(from[i]),
        forall|x: T| wanted(x) && from.contains(x) ==> #[trigger] to.contains(x),
    ensures
        0 <= k < to.len(),
        to[k] == from[i],
{
    assert(from.contains(from[i]));
    assert(to.contains(from[i]));
    choose|k: int| 0 <= k < to.len() && to[k] == from[i]
}

/// What a change to one app leaves of the others: where the containers and
/// the networks of every other app are kept, the network of another app
/// still goes with its containers.
pub proof fn lemma_other_apps_are_untouched(
    before: RuntimeModel,
    after: RuntimeModel,
    app_name: Seq<char>,
    other: Seq<char>,
)
    requires
        app_name != other,
        other_containers_kept(before, after, APP_NAME_LABEL@, app_name),
        other_networks_kept(before, after, network_name(app_name)),
        network_goes_with_containers(before, other),
    ensures
        network_goes_with_containers(after, other),
{
    lemma_network_names_differ(app_name, other);
    let name = network_name(other);
    let named = |n: NetworkView| n.name == name;
    let labelled = |c: ContainerView| label_value(c.labels, APP_NAME_LABEL@) == Some(other);
    if after.has_network_named(name) {
        let i = choose|i: int|
            0 <= i < after.networks.len() && (#[trigger] after.networks[i]).name == name;
        let k = lemma_wanted_is_found(after.networks, before.networks, named, i);
        assert(before.networks[k].name == name);
    }
    if before.has_network_named(name) {
        let i = choose|i: int|
            0 <= i < before.networks.len() && (#[trigger] before.networks[i]).name == name;
        let k = lemma_wanted_is_found(before.networks, after.networks, named, i);
        assert(after.networks[k].name == name);
    }
    if after.has_labelled(APP_NAME_LABEL@, other) {
        let i = choose|i: int|
            0 <= i < after.containers.len() && labelled(#[trigger] after.containers[i]);
        let k = lemma_wanted_is_found(after.containers, before.containers, labelled, i);
        assert(labelled(before.containers[k]));
    }
    if before.has_labelled(APP_NAME_LABEL@, other) {
        let i = choose|i: int|
            0 <= i < before.containers.len() && labelled(#[trigger] before.containers[i]);
        let k = lemma_wanted_is_found(before.containers, after.containers, labelled, i);
        assert(labelled(after.containers[k]));
    }
}

} // verus!
