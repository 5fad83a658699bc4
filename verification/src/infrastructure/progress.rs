use crate::infrastructure::errors::{DockerInfrastructureError, DockerInfrastructureErrorView};
use crate::infrastructure::runtime::{RuntimeCall, RuntimeCallView, RuntimeReply, RuntimeReplyView};
use vstd::prelude::*;

verus! {

/// Where a task of the orchestrator stands after one step: it asks the
/// runtime for something and waits in a new state, or it has come to its
/// end.
#[derive(Debug)]
pub enum Progress<S, T> {
    Call(RuntimeCall, S),
    Finished(Result<T, DockerInfrastructureError>),
}

pub enum ProgressView<S, T> {
    Call(RuntimeCallView, S),
    Finished(Result<T, DockerInfrastructureErrorView>),
}

impl<S: DeepView, T: DeepView> DeepView for Progress<S, T> {
    type V = ProgressView<S::V, T::V>;

    open spec fn deep_view(&self) -> ProgressView<S::V, T::V> {
        match self {
            Progress::Call(call, state) => ProgressView::Call(call.deep_view(), state.deep_view()),
            Progress::Finished(Ok(value)) => ProgressView::Finished(Ok(value.deep_view())),
            Progress::Finished(Err(error)) => ProgressView::Finished(Err(error.deep_view())),
        }
    }
}

/// The error that ends a task when the runtime's reply is not the one the
/// task waits for: the runtime's fault where it reported one, and else the
/// complaint that the reply does not fit.
pub open spec fn reply_error_of(reply: Option<RuntimeReplyView>) -> DockerInfrastructureErrorView {
    match reply {
        Some(RuntimeReplyView::Failed(fault)) => DockerInfrastructureErrorView::of_fault(fault),
        _ => DockerInfrastructureErrorView::UnexpectedError {
            internal_message: "unexpected reply of the container runtime"@,
        },
    }
}

/// The task ends with the error that the reply stands for.
pub open spec fn failed_with<S, T>(reply: Option<RuntimeReplyView>) -> ProgressView<S, T> {
    ProgressView::Finished(Err(reply_error_of(reply)))
}

pub fn reply_error(reply: Option<RuntimeReply>) -> (error: DockerInfrastructureError)
    ensures
        error.deep_view() == reply_error_of(reply.deep_view()),
{
    match reply {
        Some(RuntimeReply::Failed(fault)) => DockerInfrastructureError::from(fault),
        _ => DockerInfrastructureError::unexpected("unexpected reply of the container runtime"),
    }
}

} // verus!
