use crate::infrastructure::runtime::{RuntimeFault, RuntimeFaultView};
use crate::models::service::ServiceError;
use vstd::prelude::*;
use vstd::std_specs::convert::FromSpecImpl;
use vstd::string::StringExecFns;

verus! {

/// Why a call to the container runtime, or the reading of what it answered,
/// came to nothing.
#[derive(Debug)]
pub enum DockerInfrastructureError {
    ImageNotFound { internal_message: String },
    MissingServiceNameLabel { container_id: String },
    MissingAppNameLabel { container_id: String },
    UnexpectedError { internal_message: String },
    UnknownServiceType { unknown_label: String },
}

pub enum DockerInfrastructureErrorView {
    ImageNotFound { internal_message: Seq<char> },
    MissingServiceNameLabel { container_id: Seq<char> },
    MissingAppNameLabel { container_id: Seq<char> },
    UnexpectedError { internal_message: Seq<char> },
    UnknownServiceType { unknown_label: Seq<char> },
}

impl DeepView for DockerInfrastructureError {
    type V = DockerInfrastructureErrorView;

    open spec fn deep_view(&self) -> DockerInfrastructureErrorView {
        match self {
            DockerInfrastructureError::ImageNotFound {
                internal_message,
            } => DockerInfrastructureErrorView::ImageNotFound {
                internal_message: internal_message@,
            },
            DockerInfrastructureError::MissingServiceNameLabel {
                container_id,
            } => DockerInfrastructureErrorView::MissingServiceNameLabel {
                container_id: container_id@,
            },
            DockerInfrastructureError::MissingAppNameLabel {
                container_id,
            } => DockerInfrastructureErrorView::MissingAppNameLabel { container_id: container_id@ },
            DockerInfrastructureError::UnexpectedError {
                internal_message,
            } => DockerInfrastructureErrorView::UnexpectedError {
                internal_message: internal_message@,
            },
            DockerInfrastructureError::UnknownServiceType {
                unknown_label,
            } => DockerInfrastructureErrorView::UnknownServiceType { unknown_label: unknown_label@ },
        }
    }
}

impl DockerInfrastructureErrorView {
    /// The error that a fault of the runtime becomes: status 404 says that an
    /// image was not found and keeps the runtime's message; every other
    /// fault is unexpected and keeps its description.
    pub open spec fn of_fault(fault: RuntimeFaultView) -> DockerInfrastructureErrorView {
        if fault.code == Some(404u16) {
            DockerInfrastructureErrorView::ImageNotFound { internal_message: fault.message }
        } else {
            DockerInfrastructureErrorView::UnexpectedError { internal_message: fault.description }
        }
    }

    /// The sentence that describes the error.
    pub open spec fn message(self) -> Seq<char> {
        match self {
            DockerInfrastructureErrorView::ImageNotFound { internal_message } => "Could not find image: "@
                + internal_message,
            DockerInfrastructureErrorView::MissingServiceNameLabel { container_id } => "The container "@
                + container_id + " does not provide a label for service name."@,
            DockerInfrastructureErrorView::MissingAppNameLabel { container_id } => "The container "@
                + container_id + " does not provide a label for app name."@,
            DockerInfrastructureErrorView::UnexpectedError {
                internal_message,
            } => "Unexpected docker interaction error: "@ + internal_message,
            DockerInfrastructureErrorView::UnknownServiceType {
                unknown_label,
            } => "Unknown service type label: "@ + unknown_label,
        }
    }
}

impl DockerInfrastructureError {
    /// The sentence that describes the error.
    pub fn to_string(&self) -> (text: String)
        ensures
            text@ == self.deep_view().message(),
    {
        match self {
            DockerInfrastructureError::ImageNotFound { internal_message } => String::from_str(
                "Could not find image: ",
            ).concat(internal_message.as_str()),
            DockerInfrastructureError::MissingServiceNameLabel { container_id } => String::from_str(
                "The container ",
            ).concat(container_id.as_str()).concat(" does not provide a label for service name."),
            DockerInfrastructureError::MissingAppNameLabel { container_id } => String::from_str(
                "The container ",
            ).concat(container_id.as_str()).concat(" does not provide a label for app name."),
            DockerInfrastructureError::UnexpectedError { internal_message } => String::from_str(
                "Unexpected docker interaction error: ",
            ).concat(internal_message.as_str()),
            DockerInfrastructureError::UnknownServiceType { unknown_label } => String::from_str(
                "Unknown service type label: ",
            ).concat(unknown_label.as_str()),
        }
    }

    /// An unexpected error with the given text.
    pub fn unexpected(text: &str) -> (error: DockerInfrastructureError)
        ensures
            error.deep_view() == (DockerInfrastructureErrorView::UnexpectedError {
                internal_message: text@,
            }),
    {
        DockerInfrastructureError::UnexpectedError { internal_message: String::from_str(text) }
    }
}

impl From<RuntimeFault> for DockerInfrastructureError {
    fn from(err: RuntimeFault) -> (error: DockerInfrastructureError)
        ensures
            error.deep_view() == DockerInfrastructureErrorView::of_fault(err.deep_view()),
    {
        match err.code {
            Some(404u16) => DockerInfrastructureError::ImageNotFound {
                internal_message: err.message,
            },
            _ => DockerInfrastructureError::UnexpectedError { internal_message: err.description },
        }
    }
}

impl FromSpecImpl<RuntimeFault> for DockerInfrastructureError {
    open spec fn obeys_from_spec() -> bool {
        true
    }

    open spec fn from_spec(err: RuntimeFault) -> DockerInfrastructureError {
        if err.code == Some(404u16) {
            DockerInfrastructureError::ImageNotFound { internal_message: err.message }
        } else {
            DockerInfrastructureError::UnexpectedError { internal_message: err.description }
        }
    }
}

impl From<ServiceError> for DockerInfrastructureError {
    fn from(err: ServiceError) -> (error: DockerInfrastructureError) {
        match err {
            ServiceError::InvalidServiceType { label } => {
                DockerInfrastructureError::UnknownServiceType { unknown_label: label }
            },
        }
    }
}

impl FromSpecImpl<ServiceError> for DockerInfrastructureError {
    open spec fn obeys_from_spec() -> bool {
        true
    }

    open spec fn from_spec(err: ServiceError) -> DockerInfrastructureError {
        match err {
            ServiceError::InvalidServiceType { label } => {
                DockerInfrastructureError::UnknownServiceType { unknown_label: label }
            },
        }
    }
}

} // verus!
