use crate::infrastructure::docker_infrastructure::{network_id_by_name, network_name, runs_service};
use crate::infrastructure::errors::DockerInfrastructureErrorView;
use crate::infrastructure::labels::{label_value, APP_NAME_LABEL};
use crate::infrastructure::model::{
    lemma_other_apps_are_untouched, network_goes_with_containers, other_containers_kept,
    other_networks_kept, Connection, RuntimeModel,
};
use crate::infrastructure::network::{network_step, NetworkState};
use crate::infrastructure::progress::ProgressView;
use crate::infrastructure::runtime::{ContainerView, NetworkView, RuntimeReplyView};
use crate::infrastructure::start_container::{start_container_step, StartInput, StartStateView};
use crate::infrastructure::start_laws::{
    image_at_hand, is_only_runner, lemma_start_leaves_one_container, others_kept, run_start,
    runs_at_most_once, runs_once, start_steps,
};
use crate::infrastructure::start_services::StartedView;
use crate::models::service_config::ServiceConfigView;
use vstd::prelude::*;

verus! {

pub type NetworkRun = (RuntimeModel, Option<Result<Seq<char>, DockerInfrastructureErrorView>>);

/// The task that provides the network of an app, run against the model of
/// the runtime, for `steps` requests at most.
pub open spec fn run_network(
    app_name: Seq<char>,
    model: RuntimeModel,
    progress: ProgressView<NetworkState, Seq<char>>,
    steps: nat,
) -> NetworkRun
    decreases steps,
{
    match progress {
        ProgressView::Finished(result) => (model, Some(result)),
        ProgressView::Call(call, state) => if steps == 0 {
            (model, None)
        } else {
            let (next, reply) = model.respond(call);
            run_network(app_name, next, network_step(app_name, state, Some(reply)), (steps - 1) as nat)
        },
    }
}

/// The network with the id has the name.
pub open spec fn is_network(model: RuntimeModel, id: Seq<char>, name: Seq<char>) -> bool {
    exists|i: int|
        0 <= i < model.networks.len() && (#[trigger] model.networks[i]).id == id
            && model.networks[i].name == name
}

/// What the search for a network by its name finds.
pub proof fn lemma_network_id_by_name(networks: Seq<NetworkView>, name: Seq<char>)
    ensures
        network_id_by_name(networks, name) is None ==> forall|i: int|
            0 <= i < networks.len() ==> (#[trigger] networks[i]).name != name,
        network_id_by_name(networks, name) matches Some(id) ==> exists|i: int|
            0 <= i < networks.len() && (#[trigger] networks[i]).id == id && networks[i].name == name,
    decreases networks.len(),
{
    if networks.len() > 0 && networks[0].name != name {
        let rest = networks.drop_first();
        lemma_network_id_by_name(rest, name);
        match network_id_by_name(rest, name) {
            None => {
                assert forall|i: int| 0 <= i < networks.len() implies (#[trigger] networks[i]).name
                    != name by {
                    if i > 0 {
                        assert(rest[i - 1] == networks[i]);
                    }
                }
            },
            Some(id) => {
                let i = choose|i: int|
                    0 <= i < rest.len() && (#[trigger] rest[i]).id == id && rest[i].name == name;
                assert(networks[i + 1] == rest[i]);
            },
        }
    } else if networks.len() > 0 {
        assert(networks[0].name == name);
    }
}

/// `i` is the place of the one network of the name.
pub open spec fn is_only_network_named(networks: Seq<NetworkView>, name: Seq<char>, i: int) -> bool {
    &&& 0 <= i < networks.len()
    &&& networks[i].name == name
    &&& forall|j: int| 0 <= j < networks.len() && (#[trigger] networks[j]).name == name ==> j == i
}

/// Exactly one network has the name.
pub open spec fn is_named_once(model: RuntimeModel, name: Seq<char>) -> bool {
    exists|i: int| is_only_network_named(model.networks, name, i)
}

/// At most one network has the name.
pub open spec fn is_named_at_most_once(model: RuntimeModel, name: Seq<char>) -> bool {
    forall|i: int, j: int|
        0 <= i < model.networks.len() && 0 <= j < model.networks.len() && (
        #[trigger] model.networks[i]).name == name && (#[trigger] model.networks[j]).name == name
            ==> i == j
}

/// A network that was added last, under a name that no other has, is the one
/// that a search by that name finds.
pub proof fn lemma_network_id_of_new(networks: Seq<NetworkView>, added: NetworkView)
    requires
        forall|i: int| 0 <= i < networks.len() ==> (#[trigger] networks[i]).name != added.name,
    ensures
        network_id_by_name(networks.push(added), added.name) == Some(added.id),
    decreases networks.len(),
{
    let all = networks.push(added);
    if networks.len() > 0 {
        assert(all[0] == networks[0]);
        assert(all.drop_first() =~= networks.drop_first().push(added));
        assert forall|i: int| 0 <= i < networks.drop_first().len() implies (
        #[trigger] networks.drop_first()[i]).name != added.name by {
            assert(networks.drop_first()[i] == networks[i + 1]);
        }
        lemma_network_id_of_new(networks.drop_first(), added);
    } else {
        assert(all[0] == added);
    }
}

/// The network of an app is provided with two requests at most: where a
/// network of the app's network name exists, it is taken and the runtime
/// stays as it is; where none exists, one is created, and nothing else
/// changes. Asked again, the task ends with the same network and creates no
/// second one: where at most one network had the name, exactly one has it
/// afterwards.
pub proof fn lemma_network_is_provided(app_name: Seq<char>, model: RuntimeModel)
    requires
        model.wf(),
    ensures
        ({
            let end = run_network(
                app_name,
                model,
                network_step(app_name, NetworkState::Start, None),
                2,
            );
            &&& end.1 matches Some(Ok(id))
            &&& is_network(end.0, id, network_name(app_name))
            &&& end.0.wf()
            &&& end.0.containers == model.containers
            &&& end.0.pullable == model.pullable
            &&& end.0 == if model.has_network_named(network_name(app_name)) {
                model
            } else {
                model.with_network(network_name(app_name))
            }
            &&& run_network(
                app_name,
                end.0,
                network_step(app_name, NetworkState::Start, None),
                2,
            ) == end
            &&& is_named_at_most_once(model, network_name(app_name)) ==> is_named_once(
                end.0,
                network_name(app_name),
            )
        }),
{
    let name = network_name(app_name);
    lemma_network_id_by_name(model.networks, name);
    let listed = network_step(
        app_name,
        NetworkState::Listing,
        Some(RuntimeReplyView::Networks(model.networks)),
    );
    match network_id_by_name(model.networks, name) {
        Some(id) => {
            assert(run_network(app_name, model, listed, 1) == (
                model,
                Some(Ok::<Seq<char>, DockerInfrastructureErrorView>(id)),
            ));
            if is_named_at_most_once(model, name) {
                let i = choose|i: int|
                    0 <= i < model.networks.len() && (#[trigger] model.networks[i]).id == id
                        && model.networks[i].name == name;
                assert(is_only_network_named(model.networks, name, i));
            }
        },
        None => {
            let created = model.with_network(name);
            let id = model.next_id();
            assert(!model.has_network_named(name));
            assert(!model.has_network(id));
            assert(!model.has_container(id));
            assert(created.networks[created.networks.len() - 1] == NetworkView { id, name });
            assert(is_network(created, id, name));
            assert forall|i: int, j: int| 0 <= i < j < created.networks.len() implies (
            #[trigger] created.networks[i]).id != (#[trigger] created.networks[j]).id by {
                assert(model.networks[i] == created.networks[i]);
                if j < model.networks.len() {
                    assert(model.networks[j] == created.networks[j]);
                }
            }
            assert forall|k: nat| k >= created.handed_out implies !created.has_network(
                #[trigger] (created.ids)(k),
            ) by {
                if created.has_network((created.ids)(k)) {
                    let i = choose|i: int|
                        0 <= i < created.networks.len() && (#[trigger] created.networks[i]).id == (
                        created.ids)(k);
                    if i < model.networks.len() {
                        assert(model.networks[i] == created.networks[i]);
                        assert(model.has_network((model.ids)(k)));
                    } else {
                        assert((model.ids)(model.handed_out) != (model.ids)(k));
                    }
                }
            }
            assert forall|k: nat| k >= created.handed_out implies !created.has_container(
                #[trigger] (created.ids)(k),
            ) by {
                assert(!model.has_container((model.ids)(k)));
            }
            assert(created.wf());
            let done = network_step(
                app_name,
                NetworkState::Creating,
                Some(RuntimeReplyView::NetworkCreated { id }),
            );
            assert(run_network(app_name, created, done, 0) == (
                created,
                Some(Ok::<Seq<char>, DockerInfrastructureErrorView>(id)),
            ));
            assert(run_network(app_name, model, listed, 1) == run_network(
                app_name,
                created,
                done,
                0,
            ));
            lemma_network_id_of_new(model.networks, NetworkView { id, name });
            let again = network_step(
                app_name,
                NetworkState::Listing,
                Some(RuntimeReplyView::Networks(created.networks)),
            );
            assert(run_network(app_name, created, again, 1) == (
                created,
                Some(Ok::<Seq<char>, DockerInfrastructureErrorView>(id)),
            ));
            assert forall|j: int|
                0 <= j < created.networks.len() && (#[trigger] created.networks[j]).name
                    == name implies j == created.networks.len() - 1 by {
                if j < model.networks.len() {
                    assert(model.networks[j] == created.networks[j]);
                }
            }
            assert(is_only_network_named(created.networks, name, created.networks.len() - 1));
        },
    }
}

/// What the services of an app are started with, one for each
/// configuration.
pub open spec fn input_of(
    app_name: Seq<char>,
    network_id: Seq<char>,
    memory_limit: Option<u64>,
    config: ServiceConfigView,
) -> StartInput {
    StartInput { app_name, network_id, config, memory_limit }
}

/// The outcome of a run that came to its end.
pub open spec fn outcome_of(result: Option<StartedView>) -> StartedView {
    match result {
        Some(outcome) => outcome,
        None => Err(
            DockerInfrastructureErrorView::UnexpectedError {
                internal_message: "the task did not come to its end"@,
            },
        ),
    }
}

/// The services of an app, started one after the other in the order of
/// their configurations, against the model of the runtime.
pub open spec fn run_start_all(
    app_name: Seq<char>,
    network_id: Seq<char>,
    memory_limit: Option<u64>,
    configs: Seq<ServiceConfigView>,
    model: RuntimeModel,
) -> (RuntimeModel, Seq<StartedView>)
    decreases configs.len(),
{
    if configs.len() == 0 {
        (model, Seq::empty())
    } else {
        let (before, outcomes) = run_start_all(
            app_name,
            network_id,
            memory_limit,
            configs.drop_last(),
            model,
        );
        let input = input_of(app_name, network_id, memory_limit, configs.last());
        let end = run_start(
            input,
            before,
            start_container_step(input, StartStateView::Start, None),
            start_steps(),
        );
        (end.0, outcomes.push(outcome_of(end.1)))
    }
}

/// The outcome is a service of the app, as the configuration asked for it.
pub open spec fn is_started_as(
    outcome: StartedView,
    app_name: Seq<char>,
    config: ServiceConfigView,
) -> bool {
    &&& outcome matches Ok(service)
    &&& service.app_name == app_name
    &&& service.service_name == config.service_name
    &&& service.container_type == config.container_type
}

/// The container of the started service has joined the network under the
/// name of the service.
pub open spec fn is_connected(
    model: RuntimeModel,
    network_id: Seq<char>,
    outcome: StartedView,
    config: ServiceConfigView,
) -> bool {
    outcome matches Ok(service) && model.connections.contains(
        Connection {
            network_id,
            container_id: service.id,
            aliases: seq![config.service_name],
        },
    )
}

/// No two configurations name the same service.
pub open spec fn names_differ(configs: Seq<ServiceConfigView>) -> bool {
    forall|i: int, j: int|
        0 <= i < j < configs.len() ==> (#[trigger] configs[i]).service_name != (
        #[trigger] configs[j]).service_name
}

/// No configuration names the service.
pub open spec fn is_not_named(configs: Seq<ServiceConfigView>, service_name: Seq<char>) -> bool {
    forall|i: int| 0 <= i < configs.len() ==> (#[trigger] configs[i]).service_name != service_name
}

/// Starting one service leaves the containers of every other service as
/// they were: what ran at most once still does.
pub proof fn lemma_others_run_at_most_once(
    before: RuntimeModel,
    after: RuntimeModel,
    app_name: Seq<char>,
    started: Seq<char>,
    other: Seq<char>,
)
    requires
        after.wf(),
        others_kept(before, after, app_name, started),
        other != started,
        runs_at_most_once(before, app_name, other),
    ensures
        runs_at_most_once(after, app_name, other),
{
    assert forall|i: int, j: int|
        0 <= i < after.containers.len() && 0 <= j < after.containers.len() && runs_service(
            #[trigger] after.containers[i],
            app_name,
            other,
        ) && runs_service(#[trigger] after.containers[j], app_name, other) implies i == j by {
        let a = after.containers[i];
        let b = after.containers[j];
        assert(after.containers.contains(a));
        assert(after.containers.contains(b));
        assert(before.containers.contains(a));
        assert(before.containers.contains(b));
        let x = choose|x: int| 0 <= x < before.containers.len() && before.containers[x] == a;
        let y = choose|y: int| 0 <= y < before.containers.len() && before.containers[y] == b;
        assert(x == y);
        if i < j {
            assert(after.containers[i].id != after.containers[j].id);
        }
        if j < i {
            assert(after.containers[j].id != after.containers[i].id);
        }
    }
}

/// Starting one service leaves the containers of every other service as
/// they were: what ran exactly once still does.
pub proof fn lemma_others_run_once(
    before: RuntimeModel,
    after: RuntimeModel,
    app_name: Seq<char>,
    started: Seq<char>,
    other: Seq<char>,
)
    requires
        after.wf(),
        others_kept(before, after, app_name, started),
        other != started,
        runs_once(before, app_name, other),
    ensures
        runs_once(after, app_name, other),
{
    let x = choose|x: int| is_only_runner(before.containers, app_name, other, x);
    let c = before.containers[x];
    assert(before.containers.contains(c));
    assert(after.containers.contains(c));
    let i = choose|i: int| 0 <= i < after.containers.len() && after.containers[i] == c;
    assert forall|j: int|
        0 <= j < after.containers.len() && runs_service(
            #[trigger] after.containers[j],
            app_name,
            other,
        ) implies j == i by {
        let b = after.containers[j];
        assert(after.containers.contains(b));
        assert(before.containers.contains(b));
        let y = choose|y: int| 0 <= y < before.containers.len() && before.containers[y] == b;
        assert(y == x);
        if i < j {
            assert(after.containers[i].id != after.containers[j].id);
        }
        if j < i {
            assert(after.containers[j].id != after.containers[i].id);
        }
    }
    assert(is_only_runner(after.containers, app_name, other, i));
}

/// After the services of an app were started one after the other, each
/// under a name of its own and each with at most one container before, every
/// start has come to a good end and every one of the services runs in
/// exactly one container. Services that no configuration names keep what
/// they had.
pub proof fn lemma_start_all_leaves_one_container_each(
    app_name: Seq<char>,
    network_id: Seq<char>,
    memory_limit: Option<u64>,
    configs: Seq<ServiceConfigView>,
    model: RuntimeModel,
)
    requires
        model.wf(),
        model.has_network(network_id),
        names_differ(configs),
        forall|i: int|
            0 <= i < configs.len() ==> image_at_hand(
                model,
                input_of(app_name, network_id, memory_limit, #[trigger] configs[i]),
            ),
        forall|i: int|
            0 <= i < configs.len() ==> runs_at_most_once(
                model,
                app_name,
                (#[trigger] configs[i]).service_name,
            ),
    ensures
        ({
            let end = run_start_all(app_name, network_id, memory_limit, configs, model);
            &&& end.0.wf()
            &&& end.0.networks == model.networks
            &&& end.0.pullable == model.pullable
            &&& end.1.len() == configs.len()
            &&& forall|i: int|
                0 <= i < configs.len() ==> is_started_as(#[trigger] end.1[i], app_name, configs[i])
            &&& forall|i: int|
                0 <= i < configs.len() ==> runs_once(
                    end.0,
                    app_name,
                    (#[trigger] configs[i]).service_name,
                )
            &&& forall|other: Seq<char>|
                is_not_named(configs, other) && runs_at_most_once(model, app_name, other)
                    ==> #[trigger] runs_at_most_once(end.0, app_name, other)
            &&& other_containers_kept(model, end.0, APP_NAME_LABEL@, app_name)
            &&& forall|i: int|
                0 <= i < configs.len() ==> is_connected(
                    end.0,
                    network_id,
                    #[trigger] end.1[i],
                    configs[i],
                )
            &&& forall|c: Connection|
                model.connections.contains(c) ==> #[trigger] end.0.connections.contains(c)
        }),
    decreases configs.len(),
{
    if configs.len() > 0 {
        let front = configs.drop_last();
        let last = configs.last();
        assert(configs[configs.len() - 1] == last);
        assert forall|i: int| 0 <= i < front.len() implies front[i] == configs[i] by {}
        assert(names_differ(front)) by {
            assert forall|i: int, j: int| 0 <= i < j < front.len() implies (
            #[trigger] front[i]).service_name != (#[trigger] front[j]).service_name by {
                assert(configs[i].service_name != configs[j].service_name);
            }
        }
        assert forall|i: int| 0 <= i < front.len() implies image_at_hand(
            model,
            input_of(app_name, network_id, memory_limit, #[trigger] front[i]),
        ) by {
            assert(front[i] == configs[i]);
        }
        assert forall|i: int| 0 <= i < front.len() implies runs_at_most_once(
            model,
            app_name,
            (#[trigger] front[i]).service_name,
        ) by {
            assert(front[i] == configs[i]);
        }
        lemma_start_all_leaves_one_container_each(
            app_name,
            network_id,
            memory_limit,
            front,
            model,
        );
        let middle = run_start_all(app_name, network_id, memory_limit, front, model);
        let input = input_of(app_name, network_id, memory_limit, last);
        assert(is_not_named(front, last.service_name)) by {
            assert forall|i: int| 0 <= i < front.len() implies (#[trigger] front[i]).service_name
                != last.service_name by {
                assert(configs[i].service_name != configs[configs.len() - 1].service_name);
            }
        }
        assert(runs_at_most_once(middle.0, app_name, last.service_name));
        assert(image_at_hand(middle.0, input));
        lemma_start_leaves_one_container(input, middle.0);
        let run = run_start(
            input,
            middle.0,
            start_container_step(input, StartStateView::Start, None),
            start_steps(),
        );
        let end = run_start_all(app_name, network_id, memory_limit, configs, model);
        assert(end.0 == run.0);
        assert(end.1 == middle.1.push(outcome_of(run.1)));
        assert forall|i: int| 0 <= i < configs.len() implies is_started_as(
            #[trigger] end.1[i],
            app_name,
            configs[i],
        ) by {
            if i < front.len() {
                assert(end.1[i] == middle.1[i]);
                assert(front[i] == configs[i]);
            }
        }
        assert forall|i: int| 0 <= i < configs.len() implies runs_once(
            end.0,
            app_name,
            (#[trigger] configs[i]).service_name,
        ) by {
            if i < front.len() {
                assert(front[i] == configs[i]);
                assert(runs_once(middle.0, app_name, front[i].service_name));
                lemma_others_run_once(
                    middle.0,
                    end.0,
                    app_name,
                    last.service_name,
                    configs[i].service_name,
                );
            } else {
                assert(is_only_runner(
                    end.0.containers,
                    app_name,
                    last.service_name,
                    end.0.containers.len() - 1,
                ));
            }
        }
        assert forall|other: Seq<char>|
            is_not_named(configs, other) && runs_at_most_once(
                model,
                app_name,
                other,
            ) implies #[trigger] runs_at_most_once(end.0, app_name, other) by {
            assert(is_not_named(front, other)) by {
                assert forall|i: int| 0 <= i < front.len() implies (
                #[trigger] front[i]).service_name != other by {
                    assert(configs[i].service_name != other);
                }
            }
            assert(runs_at_most_once(middle.0, app_name, other));
            assert(configs[configs.len() - 1].service_name != other);
            lemma_others_run_at_most_once(middle.0, end.0, app_name, last.service_name, other);
        }
        assert forall|c: ContainerView|
            label_value(c.labels, APP_NAME_LABEL@) != Some(app_name) implies (
        #[trigger] end.0.containers.contains(c) <==> model.containers.contains(c)) by {
            assert(!runs_service(c, app_name, last.service_name));
            assert(end.0.containers.contains(c) <==> middle.0.containers.contains(c));
            assert(middle.0.containers.contains(c) <==> model.containers.contains(c));
        }
        let joined = end.0.connections;
        assert(joined[joined.len() - 1] == joined.last());
        assert forall|c: Connection| middle.0.connections.contains(c) implies #[trigger] joined.contains(
            c,
        ) by {
            let k = choose|k: int|
                0 <= k < middle.0.connections.len() && middle.0.connections[k] == c;
            assert(joined[k] == c);
        }
        assert forall|i: int| 0 <= i < configs.len() implies is_connected(
            end.0,
            network_id,
            #[trigger] end.1[i],
            configs[i],
        ) by {
            if i < front.len() {
                assert(end.1[i] == middle.1[i]);
                assert(front[i] == configs[i]);
                assert(is_connected(middle.0, network_id, middle.1[i], front[i]));
            }
        }
    }
}

/// The start of the services of an app against the model of the runtime:
/// first the network of the app, then the services, one after the other.
pub open spec fn run_start_services(
    app_name: Seq<char>,
    memory_limit: Option<u64>,
    configs: Seq<ServiceConfigView>,
    model: RuntimeModel,
) -> (RuntimeModel, Option<Seq<StartedView>>) {
    let network = run_network(
        app_name,
        model,
        network_step(app_name, NetworkState::Start, None),
        2,
    );
    match network.1 {
        Some(Ok(network_id)) => {
            let all = run_start_all(app_name, network_id, memory_limit, configs, network.0);
            (all.0, Some(all.1))
        },
        _ => (network.0, None),
    }
}

/// The image of the configuration is given by digest, or the runtime can
/// pull it.
pub open spec fn can_be_had(model: RuntimeModel, config: ServiceConfigView) -> bool {
    config.image.is_digest() || model.pullable.contains(config.image.name())
}

/// After the services of an app were started, each under a name of its own,
/// with an image that can be had and with at most one container before:
/// every start has come to a good end, every one of the services runs in
/// exactly one container, the network of the app exists, every started
/// container has joined it under the name of its service, and, where a
/// service was asked for at all, a container carries the name of the app.
/// Where at most one network had the name of the app's network before,
/// exactly one has it now. What belongs to other apps is as it was.
pub proof fn lemma_start_services(
    app_name: Seq<char>,
    memory_limit: Option<u64>,
    configs: Seq<ServiceConfigView>,
    model: RuntimeModel,
)
    requires
        model.wf(),
        names_differ(configs),
        forall|i: int| 0 <= i < configs.len() ==> can_be_had(model, #[trigger] configs[i]),
        forall|i: int|
            0 <= i < configs.len() ==> runs_at_most_once(
                model,
                app_name,
                (#[trigger] configs[i]).service_name,
            ),
    ensures
        ({
            let end = run_start_services(app_name, memory_limit, configs, model);
            &&& end.0.wf()
            &&& end.1 matches Some(outcomes)
            &&& outcomes.len() == configs.len()
            &&& forall|i: int|
                0 <= i < configs.len() ==> is_started_as(
                    #[trigger] outcomes[i],
                    app_name,
                    configs[i],
                )
            &&& forall|i: int|
                0 <= i < configs.len() ==> runs_once(
                    end.0,
                    app_name,
                    (#[trigger] configs[i]).service_name,
                )
            &&& end.0.has_network_named(network_name(app_name))
            &&& configs.len() > 0 ==> end.0.has_labelled(APP_NAME_LABEL@, app_name)
            &&& other_containers_kept(model, end.0, APP_NAME_LABEL@, app_name)
            &&& other_networks_kept(model, end.0, network_name(app_name))
            &&& is_named_at_most_once(model, network_name(app_name)) ==> is_named_once(
                end.0,
                network_name(app_name),
            )
            &&& exists|network_id: Seq<char>|
                #![trigger is_network(end.0, network_id, network_name(app_name))]
                is_network(end.0, network_id, network_name(app_name)) && forall|i: int|
                    0 <= i < configs.len() ==> is_connected(
                        end.0,
                        network_id,
                        #[trigger] outcomes[i],
                        configs[i],
                    )
        }),
{
    lemma_network_is_provided(app_name, model);
    let network = run_network(
        app_name,
        model,
        network_step(app_name, NetworkState::Start, None),
        2,
    );
    let network_id = network.1->0->Ok_0;
    let name = network_name(app_name);
    let at = choose|at: int|
        0 <= at < network.0.networks.len() && (#[trigger] network.0.networks[at]).id == network_id
            && network.0.networks[at].name == name;
    assert(network.0.has_network(network_id));
    assert forall|i: int| 0 <= i < configs.len() implies image_at_hand(
        network.0,
        input_of(app_name, network_id, memory_limit, #[trigger] configs[i]),
    ) by {
        assert(can_be_had(model, configs[i]));
    }
    assert forall|i: int| 0 <= i < configs.len() implies runs_at_most_once(
        network.0,
        app_name,
        (#[trigger] configs[i]).service_name,
    ) by {
        assert(runs_at_most_once(model, app_name, configs[i].service_name));
    }
    lemma_start_all_leaves_one_container_each(
        app_name,
        network_id,
        memory_limit,
        configs,
        network.0,
    );
    let end = run_start_services(app_name, memory_limit, configs, model);
    assert(end.0.networks[at].name == name);
    assert(is_network(end.0, network_id, name));
    assert forall|n: NetworkView| n.name != name implies (#[trigger] end.0.networks.contains(n)
        <==> model.networks.contains(n)) by {
        if !model.has_network_named(name) {
            let added = model.with_network(name).networks;
            if added.contains(n) {
                let k = choose|k: int| 0 <= k < added.len() && added[k] == n;
                assert(k < model.networks.len());
                assert(model.networks[k] == n);
            }
            if model.networks.contains(n) {
                let k = choose|k: int| 0 <= k < model.networks.len() && model.networks[k] == n;
                assert(added[k] == n);
            }
        }
    }
    if configs.len() > 0 {
        assert(runs_once(end.0, app_name, configs[0].service_name));
        let i = choose|i: int|
            is_only_runner(end.0.containers, app_name, configs[0].service_name, i);
        assert(label_value(end.0.containers[i].labels, APP_NAME_LABEL@) == Some(app_name));
    }
}

/// Starting at least one service of an app keeps networks and containers
/// together: after it, the network of any app exists exactly when a container
/// carries the name of that app, where that was so before. Of the started
/// app both exist.
pub proof fn lemma_start_keeps_networks_with_containers(
    app_name: Seq<char>,
    memory_limit: Option<u64>,
    configs: Seq<ServiceConfigView>,
    model: RuntimeModel,
    other: Seq<char>,
)
    requires
        model.wf(),
        configs.len() > 0,
        names_differ(configs),
        forall|i: int| 0 <= i < configs.len() ==> can_be_had(model, #[trigger] configs[i]),
        forall|i: int|
            0 <= i < configs.len() ==> runs_at_most_once(
                model,
                app_name,
                (#[trigger] configs[i]).service_name,
            ),
        other != app_name ==> network_goes_with_containers(model, other),
    ensures
        network_goes_with_containers(
            run_start_services(app_name, memory_limit, configs, model).0,
            other,
        ),
{
    lemma_start_services(app_name, memory_limit, configs, model);
    if other != app_name {
        lemma_other_apps_are_untouched(
            model,
            run_start_services(app_name, memory_limit, configs, model).0,
            app_name,
            other,
        );
    }
}

} // verus!
