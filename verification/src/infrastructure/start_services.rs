use crate::infrastructure::docker_infrastructure::DockerInfrastructure;
use crate::infrastructure::errors::{DockerInfrastructureError, DockerInfrastructureErrorView};
use crate::models::service::{Service, ServiceView};
use vstd::prelude::*;

verus! {

/// How the start of one service ended.
pub type Started = Result<Service, DockerInfrastructureError>;

pub type StartedView = Result<ServiceView, DockerInfrastructureErrorView>;

/// The view of an outcome.
pub open spec fn started_view(started: Started) -> StartedView {
    match started {
        Ok(service) => Ok(service@),
        Err(error) => Err(error.deep_view()),
    }
}

/// The views of the outcomes, in order.
pub open spec fn started_views(started: Seq<Started>) -> Seq<StartedView> {
    Seq::new(started.len(), |i: int| started_view(started[i]))
}

/// `i` is the place of the first failure among the outcomes.
pub open spec fn is_first_failure(started: Seq<StartedView>, i: int) -> bool {
    &&& 0 <= i < started.len()
    &&& started[i] is Err
    &&& forall|j: int| 0 <= j < i ==> (#[trigger] started[j]) is Ok
}

/// Every service started.
pub open spec fn all_started(started: Seq<StartedView>) -> bool {
    forall|i: int| 0 <= i < started.len() ==> (#[trigger] started[i]) is Ok
}

impl DockerInfrastructure {
    /// Gathers the outcomes of starting the services of an app, in the order
    /// in which they came in. Where every service started, the result holds
    /// them all in that order. Else the result is the first failure; what
    /// started is left running.
    pub fn collect_started_services(&self, started: Vec<Started>) -> (res: Result<
        Vec<Service>,
        DockerInfrastructureError,
    >)
        ensures
            res is Ok == all_started(started_views(started@)),
            res matches Ok(services) ==> {
                &&& services.len() == started.len()
                &&& forall|i: int|
                    0 <= i < started.len() ==> started_views(started@)[i] == Ok::<
                        ServiceView,
                        DockerInfrastructureErrorView,
                    >(#[trigger] services[i]@)
            },
            res matches Err(error) ==> exists|i: int| #[trigger]
                is_first_failure(started_views(started@), i) && started_views(started@)[i] == Err::<
                    ServiceView,
                    DockerInfrastructureErrorView,
                >(error.deep_view()),
    {
        let ghost all = started_views(started@);
        let ghost total = started.len();
        let mut pending = started;
        let mut services: Vec<Service> = Vec::new();
        // The outcomes are taken from the back of the list, so the list is
        // turned round first.
        let mut stack: Vec<Started> = Vec::new();
        while pending.len() > 0
            invariant
                pending.len() + stack.len() == total,
                all.len() == total,
                forall|j: int| 0 <= j < pending.len() ==> started_view(#[trigger] pending[j]) == all[j],
                forall|j: int|
                    0 <= j < stack.len() ==> started_view(#[trigger] stack[j]) == all[total - 1 - j],
            decreases pending.len(),
        {
            let outcome = pending.pop().unwrap();
            stack.push(outcome);
        }
        while stack.len() > 0
            invariant
                started.len() == total,
                stack.len() + services.len() == total,
                all.len() == total,
                all == started_views(started@),
                forall|j: int|
                    0 <= j < stack.len() ==> started_view(#[trigger] stack[j]) == all[total - 1 - j],
                forall|j: int|
                    0 <= j < services.len() ==> all[j] == Ok::<
                        ServiceView,
                        DockerInfrastructureErrorView,
                    >(#[trigger] services[j]@),
                forall|j: int| 0 <= j < services.len() ==> (#[trigger] all[j]) is Ok,
            decreases stack.len(),
        {
            let ghost at = services.len() as int;
            match stack.pop().unwrap() {
                Ok(service) => {
                    services.push(service);
                },
                Err(error) => {
                    assert(all[at] is Err);
                    assert(is_first_failure(all, at));
                    return Err(error);
                },
            }
        }
        Ok(services)
    }
}

} // verus!
