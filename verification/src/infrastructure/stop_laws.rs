use crate::infrastructure::docker_infrastructure::{
    container_ids, grouped_services, network_ids_by_name, network_name, service_of,
};
use crate::infrastructure::errors::DockerInfrastructureErrorView;
use crate::infrastructure::labels::{label_value, APP_NAME_LABEL};
use crate::infrastructure::model::{
    lemma_filter_keeps_ids_apart, lemma_other_apps_are_untouched, lemma_removal_keeps_wf,
    lemma_without_container, lemma_without_network, lists_network, lists_network_named,
    network_goes_with_containers, other_containers_kept, other_networks_kept, shown_by,
    RuntimeModel,
};
use crate::infrastructure::network::delete_next_network;
use crate::infrastructure::progress::ProgressView;
use crate::infrastructure::runtime::{
    ContainerFilterView, ContainerView, NetworkView, RuntimeCallView, RuntimeReplyView,
};
use crate::infrastructure::stop_services::{
    stop_next, stop_services_step, while_removing_network, StopStateView,
};
use crate::inventory::services_of;
use crate::models::service::ServiceView;
use vstd::prelude::*;

verus! {

/// How a run of the task that stops an app ends: the runtime as the run
/// left it, and the result of the task where the run came to its end.
pub type StopRun = (RuntimeModel, Option<Result<Seq<ServiceView>, DockerInfrastructureErrorView>>);

/// The task that stops an app, run against the model of the runtime: each
/// request is answered by the model and the answer handed to the next step,
/// for `steps` requests at most.
pub open spec fn run_stop(
    app_name: Seq<char>,
    model: RuntimeModel,
    progress: ProgressView<StopStateView, Seq<ServiceView>>,
    steps: nat,
) -> StopRun
    decreases steps,
{
    match progress {
        ProgressView::Finished(result) => (model, Some(result)),
        ProgressView::Call(call, state) => if steps == 0 {
            (model, None)
        } else {
            let (next, reply) = model.respond(call);
            run_stop(
                app_name,
                next,
                stop_services_step(app_name, state, Some(reply)),
                (steps - 1) as nat,
            )
        },
    }
}

/// The services that the app runs.
pub open spec fn services_in(model: RuntimeModel, app_name: Seq<char>) -> Seq<ServiceView> {
    services_of(
        grouped_services(model.list(ContainerFilterView::LabelName(APP_NAME_LABEL@))),
        app_name,
    )
}

/// The ids in the sequence are all different.
pub open spec fn all_different(ids: Seq<Seq<char>>) -> bool {
    forall|i: int, j: int| 0 <= i < j < ids.len() ==> ids[i] != ids[j]
}

/// The ids that a search by name finds: all different, each of a network of
/// that name, and none of such a network missing.
proof fn lemma_network_ids(networks: Seq<NetworkView>, name: Seq<char>)
    requires
        forall|i: int, j: int|
            0 <= i < j < networks.len() ==> (#[trigger] networks[i]).id != (
            #[trigger] networks[j]).id,
    ensures
        all_different(network_ids_by_name(networks, name)),
        forall|i: int|
            0 <= i < network_ids_by_name(networks, name).len() ==> lists_network(
                networks,
                #[trigger] network_ids_by_name(networks, name)[i],
            ),
        forall|k: int|
            0 <= k < networks.len() && (#[trigger] networks[k]).name == name
                ==> network_ids_by_name(networks, name).contains(networks[k].id),
        forall|i: int|
            0 <= i < network_ids_by_name(networks, name).len() ==> lists_network_named(
                networks,
                #[trigger] network_ids_by_name(networks, name)[i],
                name,
            ),
    decreases networks.len(),
{
    if networks.len() > 0 {
        let front = networks.drop_last();
        let last = networks.last();
        lemma_network_ids(front, name);
        let before = network_ids_by_name(front, name);
        let ids = network_ids_by_name(networks, name);
        assert forall|i: int| 0 <= i < ids.len() implies lists_network_named(
            networks,
            #[trigger] ids[i],
            name,
        ) by {
            if i < before.len() {
                assert(ids[i] == before[i]);
                assert(lists_network_named(front, before[i], name));
                let k = choose|k: int|
                    0 <= k < front.len() && (#[trigger] front[k]).id == before[i] && front[k].name
                        == name;
                assert(networks[k] == front[k]);
            } else {
                assert(networks[networks.len() - 1] == last);
            }
        }
        assert forall|i: int| 0 <= i < before.len() implies (#[trigger] before[i]) != last.id
            && lists_network(networks, before[i]) by {
            assert(lists_network(front, before[i]));
            let k = choose|k: int| 0 <= k < front.len() && (#[trigger] front[k]).id == before[i];
            assert(networks[k] == front[k]);
            assert(networks[networks.len() - 1] == last);
        }
        assert forall|i: int| 0 <= i < ids.len() implies lists_network(
            networks,
            #[trigger] ids[i],
        ) by {
            if i < before.len() {
                assert(ids[i] == before[i]);
            } else {
                assert(networks[networks.len() - 1].id == ids[i]);
            }
        }
        assert forall|k: int| 0 <= k < networks.len() && (#[trigger] networks[k]).name
            == name implies ids.contains(networks[k].id) by {
            if k < front.len() {
                assert(front[k] == networks[k]);
                let i = choose|i: int| 0 <= i < before.len() && before[i] == front[k].id;
                assert(ids[i] == networks[k].id);
            } else {
                assert(ids[ids.len() - 1] == networks[k].id);
            }
        }
    }
}

/// From the deletion of the first network on, the task comes to its end and
/// leaves no network of the app behind; of the other networks none is
/// touched.
proof fn lemma_delete_networks(
    app_name: Seq<char>,
    services: Seq<ServiceView>,
    model: RuntimeModel,
    ids: Seq<Seq<char>>,
) -> (steps: nat)
    requires
        model.wf(),
        all_different(ids),
        forall|i: int| 0 <= i < ids.len() ==> model.has_network(#[trigger] ids[i]),
        forall|k: int|
            0 <= k < model.networks.len() && (#[trigger] model.networks[k]).name == network_name(
                app_name,
            ) ==> ids.contains(model.networks[k].id),
    ensures
        ({
            let end = run_stop(
                app_name,
                model,
                while_removing_network(services, delete_next_network(ids)),
                steps,
            );
            &&& end.1 == Some(
                Ok::<Seq<ServiceView>, DockerInfrastructureErrorView>(services),
            )
            &&& !end.0.has_network_named(network_name(app_name))
            &&& end.0.containers == model.containers
            &&& end.0.wf()
            &&& forall|n: NetworkView| #[trigger]
                end.0.networks.contains(n) <==> model.networks.contains(n) && !ids.contains(n.id)
            &&& ids.len() == 0 ==> end.0 == model
        }),
    decreases ids.len(),
{
    if ids.len() == 0 {
        assert forall|k: int| 0 <= k < model.networks.len() implies (
        #[trigger] model.networks[k]).name != network_name(app_name) by {
            if model.networks[k].name == network_name(app_name) {
                assert(ids.contains(model.networks[k].id));
            }
        }
        0
    } else {
        let id = ids[0];
        let rest = ids.drop_first();
        let next = model.without_network(id);
        let keep = |n: NetworkView| n.id != id;
        assert(model.has_network(ids[0]));
        lemma_removal_keeps_wf(model, id);
        assert forall|i: int| 0 <= i < rest.len() implies next.has_network(#[trigger] rest[i]) by {
            assert(rest[i] == ids[i + 1]);
            assert(model.has_network(ids[i + 1]));
            let k = choose|k: int|
                0 <= k < model.networks.len() && (#[trigger] model.networks[k]).id == ids[i + 1];
            model.networks.lemma_filter_contains(keep, k);
            let at = choose|at: int|
                0 <= at < next.networks.len() && next.networks[at] == model.networks[k];
            assert(next.networks[at].id == rest[i]);
        }
        assert forall|k: int|
            0 <= k < next.networks.len() && (#[trigger] next.networks[k]).name == network_name(
                app_name,
            ) implies rest.contains(next.networks[k].id) by {
            model.networks.lemma_filter_pred(keep, k);
            model.networks.lemma_filter_contains_rev(keep, next.networks[k]);
            let at = choose|at: int|
                0 <= at < model.networks.len() && model.networks[at] == next.networks[k];
            assert(ids.contains(model.networks[at].id));
            let i = choose|i: int| 0 <= i < ids.len() && ids[i] == next.networks[k].id;
            assert(rest[i - 1] == ids[i]);
        }
        let steps = lemma_delete_networks(app_name, services, next, rest);
        assert(model.respond(RuntimeCallView::DeleteNetwork { id }) == (
            next,
            RuntimeReplyView::Done,
        ));
        let end = run_stop(
            app_name,
            next,
            while_removing_network(services, delete_next_network(rest)),
            steps,
        );
        assert forall|n: NetworkView| #[trigger]
            end.0.networks.contains(n) <==> model.networks.contains(n) && !ids.contains(n.id) by {
            lemma_without_network(model, id, n);
            if rest.contains(n.id) {
                let i = choose|i: int| 0 <= i < rest.len() && rest[i] == n.id;
                assert(ids[i + 1] == n.id);
            }
            if ids.contains(n.id) && n.id != id {
                let i = choose|i: int| 0 <= i < ids.len() && ids[i] == n.id;
                assert(rest[i - 1] == n.id);
            }
            assert(ids[0] == id);
        }
        steps + 1
    }
}

/// From the stop of the first container on, the task comes to its end: every
/// container of the list is stopped and deleted, and then the network of the
/// app.
proof fn lemma_stop_containers(
    app_name: Seq<char>,
    services: Seq<ServiceView>,
    model: RuntimeModel,
    ids: Seq<Seq<char>>,
) -> (steps: nat)
    requires
        model.wf(),
        all_different(ids),
        forall|i: int| 0 <= i < ids.len() ==> model.has_container(#[trigger] ids[i]),
        forall|k: int|
            0 <= k < model.containers.len() && label_value(
                (#[trigger] model.containers[k]).labels,
                APP_NAME_LABEL@,
            ) == Some(app_name) ==> ids.contains(model.containers[k].id),
    ensures
        ({
            let end = run_stop(app_name, model, stop_next(app_name, services, ids), steps);
            &&& end.1 == Some(
                Ok::<Seq<ServiceView>, DockerInfrastructureErrorView>(services),
            )
            &&& !end.0.has_labelled(APP_NAME_LABEL@, app_name)
            &&& !end.0.has_network_named(network_name(app_name))
            &&& end.0.wf()
            &&& forall|c: ContainerView| #[trigger]
                end.0.containers.contains(c) <==> model.containers.contains(c) && !ids.contains(
                    c.id,
                )
            &&& other_networks_kept(model, end.0, network_name(app_name))
            &&& ids.len() == 0 && !model.has_network_named(network_name(app_name)) ==> end.0
                == model
        }),
    decreases ids.len(),
{
    if ids.len() == 0 {
        assert forall|k: int| 0 <= k < model.containers.len() implies label_value(
            (#[trigger] model.containers[k]).labels,
            APP_NAME_LABEL@,
        ) != Some(app_name) by {
            if label_value(model.containers[k].labels, APP_NAME_LABEL@) == Some(app_name) {
                assert(ids.contains(model.containers[k].id));
            }
        }
        let network_ids = network_ids_by_name(model.networks, network_name(app_name));
        lemma_network_ids(model.networks, network_name(app_name));
        assert forall|i: int| 0 <= i < network_ids.len() implies model.has_network(
            #[trigger] network_ids[i],
        ) by {}
        if network_ids.len() > 0 {
            assert(lists_network_named(model.networks, network_ids[0], network_name(app_name)));
        }
        let steps = lemma_delete_networks(app_name, services, model, network_ids);
        assert(model.respond(RuntimeCallView::ListNetworks) == (
            model,
            RuntimeReplyView::Networks(model.networks),
        ));
        let end = run_stop(
            app_name,
            model,
            while_removing_network(services, delete_next_network(network_ids)),
            steps,
        );
        assert forall|n: NetworkView| n.name != network_name(app_name) implies (
        #[trigger] end.0.networks.contains(n) <==> model.networks.contains(n)) by {
            if model.networks.contains(n) && network_ids.contains(n.id) {
                let i = choose|i: int| 0 <= i < network_ids.len() && network_ids[i] == n.id;
                assert(lists_network_named(model.networks, network_ids[i], network_name(app_name)));
                let k = choose|k: int|
                    0 <= k < model.networks.len() && (#[trigger] model.networks[k]).id == n.id
                        && model.networks[k].name == network_name(app_name);
                let at = choose|at: int| 0 <= at < model.networks.len() && model.networks[at] == n;
                if k < at {
                    assert(model.networks[k].id != model.networks[at].id);
                }
                if at < k {
                    assert(model.networks[at].id != model.networks[k].id);
                }
            }
        }
        steps + 1
    } else {
        let id = ids[0];
        let rest = ids.drop_first();
        let next = model.without_container(id);
        let keep = |c: ContainerView| c.id != id;
        assert(model.has_container(ids[0]));
        lemma_removal_keeps_wf(model, id);
        assert forall|i: int| 0 <= i < rest.len() implies next.has_container(
            #[trigger] rest[i],
        ) by {
            assert(rest[i] == ids[i + 1]);
            assert(model.has_container(ids[i + 1]));
            let k = choose|k: int|
                0 <= k < model.containers.len() && (#[trigger] model.containers[k]).id == ids[i
                    + 1];
            model.containers.lemma_filter_contains(keep, k);
            let at = choose|at: int|
                0 <= at < next.containers.len() && next.containers[at] == model.containers[k];
            assert(next.containers[at].id == rest[i]);
        }
        assert forall|k: int|
            0 <= k < next.containers.len() && label_value(
                (#[trigger] next.containers[k]).labels,
                APP_NAME_LABEL@,
            ) == Some(app_name) implies rest.contains(next.containers[k].id) by {
            model.containers.lemma_filter_pred(keep, k);
            model.containers.lemma_filter_contains_rev(keep, next.containers[k]);
            let at = choose|at: int|
                0 <= at < model.containers.len() && model.containers[at] == next.containers[k];
            assert(ids.contains(model.containers[at].id));
            let i = choose|i: int| 0 <= i < ids.len() && ids[i] == next.containers[k].id;
            assert(rest[i - 1] == ids[i]);
        }
        let steps = lemma_stop_containers(app_name, services, next, rest);
        assert(model.respond(RuntimeCallView::StopContainer { id, grace_seconds: None }) == (
            model,
            RuntimeReplyView::Done,
        ));
        assert(model.respond(RuntimeCallView::DeleteContainer { id }) == (
            next,
            RuntimeReplyView::Done,
        ));
        let after_stop = stop_services_step(
            app_name,
            StopStateView::Stopping { services, id, remaining: rest },
            Some(RuntimeReplyView::Done),
        );
        assert(run_stop(app_name, model, after_stop, steps + 1) == run_stop(
            app_name,
            next,
            stop_next(app_name, services, rest),
            steps,
        ));
        let end = run_stop(app_name, next, stop_next(app_name, services, rest), steps);
        assert forall|c: ContainerView| #[trigger]
            end.0.containers.contains(c) <==> model.containers.contains(c) && !ids.contains(
                c.id,
            ) by {
            lemma_without_container(model, id, c);
            if rest.contains(c.id) {
                let i = choose|i: int| 0 <= i < rest.len() && rest[i] == c.id;
                assert(ids[i + 1] == c.id);
            }
            if ids.contains(c.id) && c.id != id {
                let i = choose|i: int| 0 <= i < ids.len() && ids[i] == c.id;
                assert(rest[i - 1] == c.id);
            }
            assert(ids[0] == id);
        }
        assert(next.networks == model.networks);
        steps + 2
    }
}

/// An app that a listing files services under has a container that carries
/// its name.
pub proof fn lemma_grouped_app_is_labelled(containers: Seq<ContainerView>, app_name: Seq<char>)
    requires
        grouped_services(containers).contains_key(app_name),
    ensures
        exists|i: int|
            0 <= i < containers.len() && label_value(
                (#[trigger] containers[i]).labels,
                APP_NAME_LABEL@,
            ) == Some(app_name),
    decreases containers.len(),
{
    if containers.len() > 0 {
        let front = containers.drop_last();
        if grouped_services(front).contains_key(app_name) {
            lemma_grouped_app_is_labelled(front, app_name);
            let i = choose|i: int|
                0 <= i < front.len() && label_value((#[trigger] front[i]).labels, APP_NAME_LABEL@)
                    == Some(app_name);
            assert(containers[i] == front[i]);
        } else {
            assert(service_of(containers.last()) is Ok);
            assert(containers[containers.len() - 1] == containers.last());
        }
    }
}

/// Stopping an app comes to its end, hands out the services that the app
/// ran, and leaves neither a container that carries the name of the app nor
/// a network of the app behind, whether the containers stood for services or
/// not. What belongs to other apps stays; and where nothing of the app was
/// there, nothing changes.
pub proof fn lemma_stop_leaves_nothing_of_the_app(
    app_name: Seq<char>,
    model: RuntimeModel,
) -> (steps: nat)
    requires
        model.wf(),
    ensures
        ({
            let end = run_stop(
                app_name,
                model,
                stop_services_step(app_name, StopStateView::Start, None),
                steps,
            );
            &&& end.1 == Some(
                Ok::<Seq<ServiceView>, DockerInfrastructureErrorView>(
                    services_in(model, app_name),
                ),
            )
            &&& !end.0.has_labelled(APP_NAME_LABEL@, app_name)
            &&& !end.0.has_network_named(network_name(app_name))
            &&& end.0.wf()
            &&& other_containers_kept(model, end.0, APP_NAME_LABEL@, app_name)
            &&& other_networks_kept(model, end.0, network_name(app_name))
            &&& !model.has_labelled(APP_NAME_LABEL@, app_name) && !model.has_network_named(
                network_name(app_name),
            ) ==> end.0 == model
        }),
{
    let services = services_in(model, app_name);
    let of_app = ContainerFilterView::Label(APP_NAME_LABEL@, app_name);
    let keep = |c: ContainerView| shown_by(of_app, c);
    let listed = model.list(of_app);
    let ids = container_ids(listed);
    lemma_filter_keeps_ids_apart(model.containers, keep, |c: ContainerView| c.id);
    assert forall|i: int| 0 <= i < ids.len() implies model.has_container(#[trigger] ids[i]) by {
        model.containers.lemma_filter_contains_rev(keep, listed[i]);
        let k = choose|k: int| 0 <= k < model.containers.len() && model.containers[k] == listed[i];
        assert(model.containers[k].id == ids[i]);
    }
    assert forall|k: int|
        0 <= k < model.containers.len() && label_value(
            (#[trigger] model.containers[k]).labels,
            APP_NAME_LABEL@,
        ) == Some(app_name) implies ids.contains(model.containers[k].id) by {
        model.containers.lemma_filter_contains(keep, k);
        let at = choose|at: int| 0 <= at < listed.len() && listed[at] == model.containers[k];
        assert(ids[at] == model.containers[k].id);
    }
    assert(all_different(ids)) by {
        assert forall|i: int, j: int| 0 <= i < j < ids.len() implies ids[i] != ids[j] by {
            assert(listed[i].id != listed[j].id);
        }
    }
    if ids.len() > 0 {
        model.containers.lemma_filter_pred(keep, 0);
        model.containers.lemma_filter_contains_rev(keep, listed[0]);
        let k = choose|k: int| 0 <= k < model.containers.len() && model.containers[k] == listed[0];
        assert(label_value(model.containers[k].labels, APP_NAME_LABEL@) == Some(app_name));
    }
    let steps = lemma_stop_containers(app_name, services, model, ids);
    let end = run_stop(app_name, model, stop_next(app_name, services, ids), steps);
    assert forall|c: ContainerView|
        label_value(c.labels, APP_NAME_LABEL@) != Some(app_name) implies (
    #[trigger] end.0.containers.contains(c) <==> model.containers.contains(c)) by {
        if ids.contains(c.id) {
            let i = choose|i: int| 0 <= i < ids.len() && ids[i] == c.id;
            model.containers.lemma_filter_pred(keep, i);
            assert(listed[i].id == c.id);
            if model.containers.contains(c) {
                model.containers.lemma_filter_contains_rev(keep, listed[i]);
                let k = choose|k: int|
                    0 <= k < model.containers.len() && model.containers[k] == listed[i];
                let at = choose|at: int| 0 <= at < model.containers.len() && model.containers[at] == c;
                if k < at {
                    assert(model.containers[k].id != model.containers[at].id);
                }
                if at < k {
                    assert(model.containers[at].id != model.containers[k].id);
                }
            }
        }
    }
    let all = RuntimeCallView::ListContainers {
        filter: ContainerFilterView::LabelName(APP_NAME_LABEL@),
    };
    let listing_all = stop_services_step(app_name, StopStateView::Start, None);
    assert(listing_all == ProgressView::<StopStateView, Seq<ServiceView>>::Call(
        all,
        StopStateView::ListingAll,
    ));
    let listing_app = stop_services_step(
        app_name,
        StopStateView::ListingAll,
        Some(model.respond(all).1),
    );
    assert(listing_app == ProgressView::<StopStateView, Seq<ServiceView>>::Call(
        RuntimeCallView::ListContainers { filter: of_app },
        StopStateView::ListingApp { services },
    ));
    assert(run_stop(app_name, model, listing_app, steps + 1) == run_stop(
        app_name,
        model,
        stop_next(app_name, services, ids),
        steps,
    ));
    assert(run_stop(app_name, model, listing_all, steps + 2) == run_stop(
        app_name,
        model,
        listing_app,
        steps + 1,
    ));
    steps + 2
}

/// An app of which no container carries the name runs no service.
pub proof fn lemma_absent_app_runs_nothing(app_name: Seq<char>, model: RuntimeModel)
    requires
        !model.has_labelled(APP_NAME_LABEL@, app_name),
    ensures
        services_in(model, app_name) == Seq::<ServiceView>::empty(),
{
    let filter = ContainerFilterView::LabelName(APP_NAME_LABEL@);
    let keep = |c: ContainerView| shown_by(filter, c);
    let listed = model.list(filter);
    if grouped_services(listed).contains_key(app_name) {
        lemma_grouped_app_is_labelled(listed, app_name);
        let i = choose|i: int|
            0 <= i < listed.len() && label_value((#[trigger] listed[i]).labels, APP_NAME_LABEL@)
                == Some(app_name);
        model.containers.lemma_filter_contains_rev(keep, listed[i]);
        let k = choose|k: int| 0 <= k < model.containers.len() && model.containers[k] == listed[i];
        assert(label_value(model.containers[k].labels, APP_NAME_LABEL@) == Some(app_name));
    }
}

/// Stopping an app is idempotent: once a stop has come to its end, a second
/// stop comes to its end too, changes nothing and hands out no service.
pub proof fn lemma_second_stop_finds_nothing(
    app_name: Seq<char>,
    model: RuntimeModel,
) -> (steps: (nat, nat))
    requires
        model.wf(),
    ensures
        ({
            let first = run_stop(
                app_name,
                model,
                stop_services_step(app_name, StopStateView::Start, None),
                steps.0,
            );
            &&& first.1 is Some
            &&& run_stop(
                app_name,
                first.0,
                stop_services_step(app_name, StopStateView::Start, None),
                steps.1,
            ) == (
                first.0,
                Some(Ok::<Seq<ServiceView>, DockerInfrastructureErrorView>(Seq::empty())),
            )
        }),
{
    let once = lemma_stop_leaves_nothing_of_the_app(app_name, model);
    let first = run_stop(
        app_name,
        model,
        stop_services_step(app_name, StopStateView::Start, None),
        once,
    );
    let again = lemma_stop_leaves_nothing_of_the_app(app_name, first.0);
    lemma_absent_app_runs_nothing(app_name, first.0);
    (once, again)
}

/// Stopping an app keeps networks and containers together: after it, the
/// network of any app exists exactly when a container carries the name of
/// that app, where that was so before. Of the stopped app neither is left.
pub proof fn lemma_stop_keeps_networks_with_containers(
    app_name: Seq<char>,
    model: RuntimeModel,
    other: Seq<char>,
) -> (steps: nat)
    requires
        model.wf(),
        other != app_name ==> network_goes_with_containers(model, other),
    ensures
        ({
            let end = run_stop(
                app_name,
                model,
                stop_services_step(app_name, StopStateView::Start, None),
                steps,
            );
            &&& end.1 is Some
            &&& network_goes_with_containers(end.0, other)
        }),
{
    let steps = lemma_stop_leaves_nothing_of_the_app(app_name, model);
    let end = run_stop(
        app_name,
        model,
        stop_services_step(app_name, StopStateView::Start, None),
        steps,
    );
    if other != app_name {
        lemma_other_apps_are_untouched(model, end.0, app_name, other);
    }
    steps
}

} // verus!
