use crate::infrastructure::docker_infrastructure::{
    app_container, container_by_id, container_spec_of, container_type_of, runs_service,
    service_labels, service_of,
};
use crate::infrastructure::errors::DockerInfrastructureErrorView;
use crate::infrastructure::labels::{
    label_value, APP_NAME_LABEL, CONTAINER_TYPE_LABEL, ROUTING_LABEL, SERVICE_NAME_LABEL,
};
use crate::infrastructure::model::{
    lemma_removal_keeps_wf, not_found, shown_by, Connection, RuntimeModel,
};
use crate::infrastructure::progress::ProgressView;
use crate::infrastructure::runtime::{
    ContainerFilterView, ContainerView, RuntimeCallView, RuntimeReplyView,
};
use crate::infrastructure::start_container::{
    create_new, find_old, resolve_new, start_container_step, StartInput, StartStateView,
    REPLACE_GRACE_SECONDS,
};
use crate::models::service::{ContainerType, ServiceStatus, ServiceView};
use vstd::prelude::*;

verus! {

/// How a run of the task that starts a service ends: the runtime as the run
/// left it, and the result of the task where the run came to its end.
pub type StartRun = (RuntimeModel, Option<Result<ServiceView, DockerInfrastructureErrorView>>);

/// The task that starts a service, run against the model of the runtime,
/// for `steps` requests at most.
pub open spec fn run_start(
    input: StartInput,
    model: RuntimeModel,
    progress: ProgressView<StartStateView, ServiceView>,
    steps: nat,
) -> StartRun
    decreases steps,
{
    match progress {
        ProgressView::Finished(result) => (model, Some(result)),
        ProgressView::Call(call, state) => if steps == 0 {
            (model, None)
        } else {
            let (next, reply) = model.respond(call);
            run_start(input, next, start_container_step(input, state, Some(reply)), (steps - 1) as nat)
        },
    }
}

/// The most requests that the start of one service takes.
pub open spec fn start_steps() -> nat {
    10
}

/// `i` is the place of the one container that runs the service.
pub open spec fn is_only_runner(
    containers: Seq<ContainerView>,
    app_name: Seq<char>,
    service_name: Seq<char>,
    i: int,
) -> bool {
    &&& 0 <= i < containers.len()
    &&& runs_service(containers[i], app_name, service_name)
    &&& forall|j: int|
        0 <= j < containers.len() && runs_service(#[trigger] containers[j], app_name, service_name)
            ==> j == i
}

/// Exactly one container runs the service.
pub open spec fn runs_once(
    model: RuntimeModel,
    app_name: Seq<char>,
    service_name: Seq<char>,
) -> bool {
    exists|i: int| is_only_runner(model.containers, app_name, service_name, i)
}

/// At most one container runs the service.
pub open spec fn runs_at_most_once(
    model: RuntimeModel,
    app_name: Seq<char>,
    service_name: Seq<char>,
) -> bool {
    forall|i: int, j: int|
        0 <= i < model.containers.len() && 0 <= j < model.containers.len() && runs_service(
            #[trigger] model.containers[i],
            app_name,
            service_name,
        ) && runs_service(#[trigger] model.containers[j], app_name, service_name) ==> i == j
}

/// No container runs the service.
pub open spec fn runs_nowhere(
    containers: Seq<ContainerView>,
    app_name: Seq<char>,
    service_name: Seq<char>,
) -> bool {
    forall|i: int|
        0 <= i < containers.len() ==> !runs_service(#[trigger] containers[i], app_name, service_name)
}

/// The containers that do not run the service are the same in both
/// runtimes.
pub open spec fn others_kept(
    before: RuntimeModel,
    after: RuntimeModel,
    app_name: Seq<char>,
    service_name: Seq<char>,
) -> bool {
    forall|c: ContainerView|
        !runs_service(c, app_name, service_name) ==> (#[trigger] after.containers.contains(c)
            <==> before.containers.contains(c))
}

/// The image of the service can be had: it is given by digest, or the
/// runtime can pull it.
pub open spec fn image_at_hand(model: RuntimeModel, input: StartInput) -> bool {
    input.config.image.is_digest() || model.pullable.contains(input.config.image.name())
}

/// The four labels have four different names.
pub proof fn lemma_label_names_differ()
    ensures
        APP_NAME_LABEL@ != SERVICE_NAME_LABEL@,
        APP_NAME_LABEL@ != CONTAINER_TYPE_LABEL@,
        SERVICE_NAME_LABEL@ != CONTAINER_TYPE_LABEL@,
        ROUTING_LABEL@ != APP_NAME_LABEL@,
        ROUTING_LABEL@ != SERVICE_NAME_LABEL@,
        ROUTING_LABEL@ != CONTAINER_TYPE_LABEL@,
{
    reveal_strlit("preview.servant.app-name");
    reveal_strlit("preview.servant.service-name");
    reveal_strlit("preview.servant.container-type");
    reveal_strlit("traefik.frontend.rule");
    assert(APP_NAME_LABEL@.len() == 24);
    assert(SERVICE_NAME_LABEL@.len() == 28);
    assert(CONTAINER_TYPE_LABEL@.len() == 30);
    assert(ROUTING_LABEL@.len() == 21);
}

/// A container with the labels of a service is read back as that service.
pub proof fn lemma_labelled_container_is_the_service(
    container: ContainerView,
    app_name: Seq<char>,
    service_name: Seq<char>,
    container_type: ContainerType,
)
    requires
        container.labels == service_labels(app_name, service_name, container_type),
    ensures
        runs_service(container, app_name, service_name),
        service_of(container) == Ok::<ServiceView, DockerInfrastructureErrorView>(
            ServiceView::plain(
                app_name,
                service_name,
                container.id,
                container_type,
                container.status,
                container.started_at,
            ),
        ),
{
    lemma_label_names_differ();
    ContainerType::label_round_trip(container_type);
    let labels = container.labels;
    let second = labels.drop_first();
    let third = second.drop_first();
    assert(labels[0] == (APP_NAME_LABEL@, app_name));
    assert(second[0] == (SERVICE_NAME_LABEL@, service_name));
    assert(third[0] == (CONTAINER_TYPE_LABEL@, container_type.label()));
    assert(label_value(labels, APP_NAME_LABEL@) == Some(app_name));
    assert(label_value(second, SERVICE_NAME_LABEL@) == Some(service_name));
    assert(label_value(labels, SERVICE_NAME_LABEL@) == Some(service_name));
    assert(label_value(third, CONTAINER_TYPE_LABEL@) == Some(container_type.label()));
    assert(label_value(second, CONTAINER_TYPE_LABEL@) == Some(container_type.label()));
    assert(label_value(labels, CONTAINER_TYPE_LABEL@) == Some(container_type.label()));
    assert(container_type_of(container) == Ok::<ContainerType, DockerInfrastructureErrorView>(
        container_type,
    ));
}

/// A listing without filter shows every container.
pub proof fn lemma_list_all(containers: Seq<ContainerView>, keep: spec_fn(ContainerView) -> bool)
    requires
        forall|c: ContainerView| #[trigger] keep(c),
    ensures
        containers.filter(keep) == containers,
    decreases containers.len(),
{
    reveal(Seq::filter);
    if containers.len() > 0 {
        lemma_list_all(containers.drop_last(), keep);
        assert(containers.drop_last().push(containers.last()) =~= containers);
    } else {
        assert(containers.filter(keep) =~= containers);
    }
}

/// What the search for the container of a service finds.
pub proof fn lemma_app_container(
    containers: Seq<ContainerView>,
    app_name: Seq<char>,
    service_name: Seq<char>,
)
    ensures
        app_container(containers, app_name, service_name) is None ==> runs_nowhere(
            containers,
            app_name,
            service_name,
        ),
        app_container(containers, app_name, service_name) matches Some(found) ==> runs_service(
            found,
            app_name,
            service_name,
        ) && containers.contains(found),
    decreases containers.len(),
{
    if containers.len() > 0 && !runs_service(containers[0], app_name, service_name) {
        let rest = containers.drop_first();
        lemma_app_container(rest, app_name, service_name);
        if app_container(rest, app_name, service_name) is None {
            assert forall|i: int| 0 <= i < containers.len() implies !runs_service(
                #[trigger] containers[i],
                app_name,
                service_name,
            ) by {
                if i > 0 {
                    assert(rest[i - 1] == containers[i]);
                }
            }
        } else {
            let found = app_container(rest, app_name, service_name)->0;
            let i = choose|i: int| 0 <= i < rest.len() && rest[i] == found;
            assert(containers[i + 1] == found);
        }
    } else if containers.len() > 0 {
        assert(containers[0] == containers[0]);
    }
}

/// A container that was added last, under an id that no other has, is the
/// one that a search by that id finds.
pub proof fn lemma_container_by_new_id(containers: Seq<ContainerView>, added: ContainerView)
    requires
        forall|i: int| 0 <= i < containers.len() ==> (#[trigger] containers[i]).id != added.id,
    ensures
        container_by_id(containers.push(added), added.id) == Some(added),
    decreases containers.len(),
{
    let all = containers.push(added);
    if containers.len() > 0 {
        assert(all[0] == containers[0]);
        assert(all.drop_first() =~= containers.drop_first().push(added));
        assert forall|i: int| 0 <= i < containers.drop_first().len() implies (
        #[trigger] containers.drop_first()[i]).id != added.id by {
            assert(containers.drop_first()[i] == containers[i + 1]);
        }
        lemma_container_by_new_id(containers.drop_first(), added);
    } else {
        assert(all[0] == added);
    }
}

/// The runtime after a service was started in it: with the new container
/// and the connection of that container to the network of the app.
pub open spec fn with_started(model: RuntimeModel, input: StartInput) -> RuntimeModel {
    let created = model.with_container(
        container_spec_of(input.app_name, input.config, input.memory_limit),
    );
    RuntimeModel {
        connections: created.connections.push(
            Connection {
                network_id: input.network_id,
                container_id: model.next_id(),
                aliases: seq![input.config.service_name],
            },
        ),
        ..created
    }
}

/// The connection of a started service: its container has joined the network
/// of the app under the name of the service.
pub open spec fn connection_of(input: StartInput, service: ServiceView) -> Connection {
    Connection {
        network_id: input.network_id,
        container_id: service.id,
        aliases: seq![input.config.service_name],
    }
}

/// The service that runs in the container that the runtime creates next.
pub open spec fn started_service(model: RuntimeModel, input: StartInput) -> ServiceView {
    ServiceView::plain(
        input.app_name,
        input.config.service_name,
        model.next_id(),
        input.config.container_type,
        ServiceStatus::Running,
        model.clock,
    )
}

/// From the request to create the container on, the task comes to its end:
/// the container is created, started, connected and read back.
proof fn lemma_create_and_connect(
    input: StartInput,
    model: RuntimeModel,
    image_to_delete: Option<Seq<char>>,
)
    requires
        model.wf(),
        model.has_network(input.network_id),
    ensures
        run_start(input, model, create_new(input, image_to_delete), 5) == (
            with_started(model, input),
            Some(Ok::<ServiceView, DockerInfrastructureErrorView>(started_service(model, input))),
        ),
        with_started(model, input).wf(),
{
    let spec = container_spec_of(input.app_name, input.config, input.memory_limit);
    let id = model.next_id();
    let created = model.with_container(spec);
    let connected = with_started(model, input);
    let added = created.containers.last();
    let service = started_service(model, input);
    assert(!model.has_container(id));
    assert(!model.has_network(id));
    assert(created.containers[created.containers.len() - 1] == added);
    assert(created.has_container(id));
    assert(connected.containers[connected.containers.len() - 1] == added);
    assert(connected.has_container(id));
    assert(created.has_network(input.network_id));

    // The new runtime is well-formed.
    assert forall|k: nat| k >= connected.handed_out implies !connected.has_container(
        #[trigger] (connected.ids)(k),
    ) by {
        if connected.has_container((connected.ids)(k)) {
            let i = choose|i: int|
                0 <= i < connected.containers.len() && (#[trigger] connected.containers[i]).id == (
                connected.ids)(k);
            if i < model.containers.len() {
                assert(model.containers[i] == connected.containers[i]);
                assert(model.has_container((model.ids)(k)));
            } else {
                assert((model.ids)(model.handed_out) != (model.ids)(k));
            }
        }
    }
    assert forall|i: int, j: int| 0 <= i < j < connected.containers.len() implies (
    #[trigger] connected.containers[i]).id != (#[trigger] connected.containers[j]).id by {
        assert(model.containers[i] == connected.containers[i]);
        if j < model.containers.len() {
            assert(model.containers[j] == connected.containers[j]);
        }
    }
    assert forall|i: int| 0 <= i < connected.containers.len() implies connected.details.contains_key(
        (#[trigger] connected.containers[i]).id,
    ) by {
        if i < model.containers.len() {
            assert(model.containers[i] == connected.containers[i]);
        }
    }
    assert(connected.wf());

    // The run, request by request.
    let list_all = |c: ContainerView| shown_by(ContainerFilterView::All, c);
    lemma_list_all(connected.containers, list_all);
    assert(connected.list(ContainerFilterView::All) == connected.containers);
    assert forall|i: int| 0 <= i < model.containers.len() implies (
    #[trigger] model.containers[i]).id != added.id by {}
    lemma_container_by_new_id(model.containers, added);
    lemma_labelled_container_is_the_service(
        added,
        input.app_name,
        input.config.service_name,
        input.config.container_type,
    );
    let resolved = resolve_new(input, connected.containers, id, image_to_delete);
    let end = (connected, Some(Ok::<ServiceView, DockerInfrastructureErrorView>(service)));
    assert(run_start(input, connected, resolved, 1) == end) by {
        match image_to_delete {
            Some(image) => {
                assert(resolved == ProgressView::<StartStateView, ServiceView>::Call(
                    RuntimeCallView::DeleteImage { image },
                    StartStateView::CleaningUp { service },
                ));
                let done = start_container_step(
                    input,
                    StartStateView::CleaningUp { service },
                    Some(RuntimeReplyView::Done),
                );
                assert(run_start(input, connected, done, 0) == end);
            },
            None => {},
        }
    }
    let resolving = start_container_step(
        input,
        StartStateView::Connecting { id, image_to_delete },
        Some(RuntimeReplyView::Done),
    );
    assert(run_start(input, connected, resolving, 2) == run_start(input, connected, resolved, 1));
    let connecting = start_container_step(
        input,
        StartStateView::Starting { id, image_to_delete },
        Some(RuntimeReplyView::Done),
    );
    assert(run_start(input, created, connecting, 3) == run_start(input, connected, resolving, 2));
    let starting = start_container_step(
        input,
        StartStateView::Creating { image_to_delete },
        Some(RuntimeReplyView::ContainerCreated { id }),
    );
    assert(run_start(input, created, starting, 4) == run_start(input, created, connecting, 3));
    assert(run_start(input, model, create_new(input, image_to_delete), 5) == run_start(
        input,
        created,
        starting,
        4,
    ));
}

/// The runtime without the container that runs the service, where there is
/// one.
pub open spec fn without_old(model: RuntimeModel, input: StartInput) -> RuntimeModel {
    match app_container(model.containers, input.app_name, input.config.service_name) {
        Some(old) => model.without_container(old.id),
        None => model,
    }
}

/// Once the old container of a service is gone, no container runs the
/// service.
proof fn lemma_without_old(model: RuntimeModel, input: StartInput)
    requires
        model.wf(),
        runs_at_most_once(model, input.app_name, input.config.service_name),
    ensures
        without_old(model, input).wf(),
        runs_nowhere(without_old(model, input).containers, input.app_name, input.config.service_name),
        without_old(model, input).networks == model.networks,
        others_kept(model, without_old(model, input), input.app_name, input.config.service_name),
        app_container(model.containers, input.app_name, input.config.service_name) matches Some(
            old,
        ) ==> model.has_container(old.id) && model.details.contains_key(old.id),
{
    let app_name = input.app_name;
    let service_name = input.config.service_name;
    lemma_app_container(model.containers, app_name, service_name);
    match app_container(model.containers, app_name, service_name) {
        Some(old) => {
            let fewer = model.without_container(old.id);
            let keep = |c: ContainerView| c.id != old.id;
            lemma_removal_keeps_wf(model, old.id);
            let at = choose|at: int| 0 <= at < model.containers.len() && model.containers[at] == old;
            assert(model.containers[at].id == old.id);
            assert forall|i: int| 0 <= i < fewer.containers.len() implies !runs_service(
                #[trigger] fewer.containers[i],
                app_name,
                service_name,
            ) by {
                model.containers.lemma_filter_pred(keep, i);
                model.containers.lemma_filter_contains_rev(keep, fewer.containers[i]);
                let k = choose|k: int|
                    0 <= k < model.containers.len() && model.containers[k] == fewer.containers[i];
                if runs_service(model.containers[k], app_name, service_name) {
                    assert(k == at);
                }
            }
            assert forall|c: ContainerView| !runs_service(c, app_name, service_name) implies (
            #[trigger] fewer.containers.contains(c) <==> model.containers.contains(c)) by {
                if fewer.containers.contains(c) {
                    model.containers.lemma_filter_contains_rev(keep, c);
                }
                if model.containers.contains(c) {
                    let k = choose|k: int| 0 <= k < model.containers.len() && model.containers[k] == c;
                    if c.id == old.id {
                        assert(k != at);
                        if k < at {
                            assert(model.containers[k].id != model.containers[at].id);
                        } else {
                            assert(model.containers[at].id != model.containers[k].id);
                        }
                    }
                    model.containers.lemma_filter_contains(keep, k);
                }
            }
        },
        None => {},
    }
}

/// Starting a service of which at most one container runs comes to its end
/// and leaves exactly one container that runs the service: the new one, with
/// the labels of the service, connected to the given network under the name
/// of the service. The container that ran the service before is gone; all
/// other containers and all networks are as they were.
pub proof fn lemma_start_leaves_one_container(input: StartInput, model: RuntimeModel)
    requires
        model.wf(),
        model.has_network(input.network_id),
        image_at_hand(model, input),
        runs_at_most_once(model, input.app_name, input.config.service_name),
    ensures
        ({
            let end = run_start(
                input,
                model,
                start_container_step(input, StartStateView::Start, None),
                start_steps(),
            );
            let before = without_old(model, input);
            &&& end.0 == with_started(before, input)
            &&& end.1 == Some(
                Ok::<ServiceView, DockerInfrastructureErrorView>(started_service(before, input)),
            )
            &&& end.0.wf()
            &&& end.0.networks == model.networks
            &&& is_only_runner(
                end.0.containers,
                input.app_name,
                input.config.service_name,
                end.0.containers.len() - 1,
            )
            &&& end.0.containers.last().id == started_service(before, input).id
            &&& end.0.containers.last().labels == service_labels(
                input.app_name,
                input.config.service_name,
                input.config.container_type,
            )
            &&& others_kept(model, end.0, input.app_name, input.config.service_name)
            &&& end.0.connections == model.connections.push(
                connection_of(input, started_service(before, input)),
            )
        }),
{
    let app_name = input.app_name;
    let service_name = input.config.service_name;
    let before = without_old(model, input);
    let after = with_started(before, input);
    let service = started_service(before, input);
    let end = (after, Some(Ok::<ServiceView, DockerInfrastructureErrorView>(service)));
    lemma_without_old(model, input);
    assert(before.has_network(input.network_id));

    // What the run leaves behind.
    let added = after.containers.last();
    assert(after.containers[after.containers.len() - 1] == added);
    lemma_labelled_container_is_the_service(
        added,
        app_name,
        service_name,
        input.config.container_type,
    );
    assert forall|j: int|
        0 <= j < after.containers.len() && runs_service(
            #[trigger] after.containers[j],
            app_name,
            service_name,
        ) implies j == after.containers.len() - 1 by {
        if j < before.containers.len() {
            assert(after.containers[j] == before.containers[j]);
        }
    }
    assert forall|c: ContainerView| !runs_service(c, app_name, service_name) implies (
    #[trigger] after.containers.contains(c) <==> model.containers.contains(c)) by {
        assert(before.containers.contains(c) <==> model.containers.contains(c));
        if after.containers.contains(c) {
            let k = choose|k: int| 0 <= k < after.containers.len() && after.containers[k] == c;
            assert(k < before.containers.len());
            assert(before.containers[k] == c);
        }
        if before.containers.contains(c) {
            let k = choose|k: int| 0 <= k < before.containers.len() && before.containers[k] == c;
            assert(after.containers[k] == c);
        }
    }

    // The run, request by request.
    let list_all = |c: ContainerView| shown_by(ContainerFilterView::All, c);
    lemma_list_all(model.containers, list_all);
    assert(model.list(ContainerFilterView::All) == model.containers);
    let found = start_container_step(
        input,
        StartStateView::FindingOld,
        Some(RuntimeReplyView::Containers(model.containers)),
    );
    assert(run_start(input, model, found, 8) == end) by {
        match app_container(model.containers, app_name, service_name) {
            Some(old) => {
                let image = model.details[old.id].image;
                lemma_create_and_connect(input, before, Some(image));
                let creating = start_container_step(
                    input,
                    StartStateView::DeletingOld { image },
                    Some(RuntimeReplyView::Done),
                );
                assert(creating == create_new(input, Some(image)));
                let deleting = start_container_step(
                    input,
                    StartStateView::StoppingOld { id: old.id, image },
                    Some(RuntimeReplyView::Done),
                );
                assert(run_start(input, model, deleting, 6) == run_start(
                    input,
                    before,
                    creating,
                    5,
                ));
                let stopping = start_container_step(
                    input,
                    StartStateView::InspectingOld { id: old.id },
                    Some(RuntimeReplyView::Details(model.details[old.id])),
                );
                assert(stopping == ProgressView::<StartStateView, ServiceView>::Call(
                    RuntimeCallView::StopContainer {
                        id: old.id,
                        grace_seconds: Some(REPLACE_GRACE_SECONDS),
                    },
                    StartStateView::StoppingOld { id: old.id, image },
                ));
                assert(run_start(input, model, stopping, 7) == run_start(
                    input,
                    model,
                    deleting,
                    6,
                ));
                assert(run_start(input, model, found, 8) == run_start(input, model, stopping, 7));
            },
            None => {
                lemma_create_and_connect(input, model, None);
                assert(found == create_new(input, None));
                assert(run_start(input, model, found, 5) == end);
                lemma_more_steps_change_nothing(input, model, found, 5, 8);
            },
        }
    }
    assert(run_start(input, model, find_old(), 9) == run_start(input, model, found, 8));
    let start = start_container_step(input, StartStateView::Start, None);
    if input.config.image.is_digest() {
        assert(start == find_old());
        lemma_more_steps_change_nothing(input, model, find_old(), 9, 10);
    } else {
        let pulled = start_container_step(
            input,
            StartStateView::Pulling,
            Some(RuntimeReplyView::Done),
        );
        assert(pulled == find_old());
        assert(run_start(input, model, start, 10) == run_start(input, model, pulled, 9));
    }
}

/// Where the image of a service is neither given by digest nor to be pulled,
/// the start ends with the first request, reports that the image was not
/// found, and changes nothing. So a start that ended well had its image at
/// hand.
pub proof fn lemma_start_without_image_fails(input: StartInput, model: RuntimeModel)
    requires
        !image_at_hand(model, input),
    ensures
        ({
            let end = run_start(
                input,
                model,
                start_container_step(input, StartStateView::Start, None),
                start_steps(),
            );
            &&& end.0 == model
            &&& end.1 matches Some(Err(DockerInfrastructureErrorView::ImageNotFound { .. }))
        }),
{
    let failed = start_container_step(
        input,
        StartStateView::Pulling,
        Some(not_found()),
    );
    assert(run_start(input, model, failed, 9).0 == model);
}

/// A run that has come to its end does so with fewer requests than it is
/// allowed: to allow more changes nothing.
pub proof fn lemma_more_steps_change_nothing(
    input: StartInput,
    model: RuntimeModel,
    progress: ProgressView<StartStateView, ServiceView>,
    steps: nat,
    more: nat,
)
    requires
        run_start(input, model, progress, steps).1 is Some,
        more >= steps,
    ensures
        run_start(input, model, progress, more) == run_start(input, model, progress, steps),
    decreases steps,
{
    match progress {
        ProgressView::Finished(_) => {},
        ProgressView::Call(call, state) => {
            if steps > 0 {
                let (next, reply) = model.respond(call);
                lemma_more_steps_change_nothing(
                    input,
                    next,
                    start_container_step(input, state, Some(reply)),
                    (steps - 1) as nat,
                    (more - 1) as nat,
                );
            }
        },
    }
}

} // verus!
