use crate::models::text::{copy_opt_text, same_text};
use crate::models::time::Timestamp;
use crate::models::web_host_meta::{WebHostMeta, WebHostMetaView};
use vstd::prelude::*;
use vstd::std_specs::cmp::PartialEqSpecImpl;
use vstd::string::StringExecFns;

verus! {

/// The name of an app: a text that is not empty. What else makes a name
/// valid is settled where names come in.
pub type AppName = String;

/// The role of a container within its app.
#[derive(Clone, Copy, Debug, PartialEq, Eq, Hash, Structural)]
pub enum ContainerType {
    Instance,
    ApplicationCompanion,
    ServiceCompanion,
    Linked,
}

/// What the runtime reports of a container's execution.
#[derive(Clone, Copy, Debug, PartialEq, Eq, Hash, Structural)]
pub enum ServiceStatus {
    Running,
    Paused,
}

#[derive(Debug)]
pub enum ServiceError {
    /// The container-type label holds none of the known values.
    InvalidServiceType { label: String },
}

impl ContainerType {
    /// The value of the container-type label that stands for this type.
    pub open spec fn label(self) -> Seq<char> {
        match self {
            ContainerType::Instance => "instance"@,
            ContainerType::ApplicationCompanion => "application-companion"@,
            ContainerType::ServiceCompanion => "service-companion"@,
            ContainerType::Linked => "linked"@,
        }
    }

    /// The type that a label value names, if it names one.
    pub open spec fn from_label(label: Seq<char>) -> Option<ContainerType> {
        if label == "instance"@ {
            Some(ContainerType::Instance)
        } else if label == "application-companion"@ {
            Some(ContainerType::ApplicationCompanion)
        } else if label == "service-companion"@ {
            Some(ContainerType::ServiceCompanion)
        } else if label == "linked"@ {
            Some(ContainerType::Linked)
        } else {
            None
        }
    }

    pub open spec fn is_companion(self) -> bool {
        self == ContainerType::ApplicationCompanion || self == ContainerType::ServiceCompanion
    }

    pub fn to_string(&self) -> (label: String)
        ensures
            label@ == self.label(),
    {
        match self {
            ContainerType::Instance => String::from_str("instance"),
            ContainerType::ApplicationCompanion => String::from_str("application-companion"),
            ContainerType::ServiceCompanion => String::from_str("service-companion"),
            ContainerType::Linked => String::from_str("linked"),
        }
    }

    /// Reads a container-type label. A value that names no type is handed
    /// back in the error.
    pub fn parse(label: &String) -> (res: Result<ContainerType, ServiceError>)
        ensures
            match res {
                Ok(t) => Self::from_label(label@) == Some(t),
                Err(ServiceError::InvalidServiceType { label: l }) => {
                    &&& Self::from_label(label@) is None
                    &&& l@ == label@
                },
            },
    {
        if same_text(label, "instance") {
            Ok(ContainerType::Instance)
        } else if same_text(label, "application-companion") {
            Ok(ContainerType::ApplicationCompanion)
        } else if same_text(label, "service-companion") {
            Ok(ContainerType::ServiceCompanion)
        } else if same_text(label, "linked") {
            Ok(ContainerType::Linked)
        } else {
            Err(ServiceError::InvalidServiceType { label: label.clone() })
        }
    }

    pub fn is_companion_type(&self) -> (b: bool)
        ensures
            b == self.is_companion(),
    {
        match self {
            ContainerType::ApplicationCompanion | ContainerType::ServiceCompanion => true,
            _ => false,
        }
    }

    /// Every type is read back from its own label.
    pub proof fn label_round_trip(t: ContainerType)
        ensures
            Self::from_label(t.label()) == Some(t),
    {
        reveal_strlit("instance");
        reveal_strlit("application-companion");
        reveal_strlit("service-companion");
        reveal_strlit("linked");
        assert("instance"@.len() == 8);
        assert("application-companion"@.len() == 21);
        assert("service-companion"@.len() == 17);
        assert("linked"@.len() == 6);
    }
}

/// One running container of an app, as rebuilt from the labels it carries.
#[derive(Debug)]
pub struct Service {
    app_name: String,
    service_name: String,
    id: String,
    container_type: ContainerType,
    status: ServiceStatus,
    started_at: Timestamp,
    base_url: Option<String>,
    web_host_meta: Option<WebHostMeta>,
}

pub struct ServiceView {
    pub app_name: Seq<char>,
    pub service_name: Seq<char>,
    pub id: Seq<char>,
    pub container_type: ContainerType,
    pub status: ServiceStatus,
    pub started_at: Timestamp,
    pub base_url: Option<Seq<char>>,
    pub web_host_meta: Option<WebHostMetaView>,
}

impl View for Service {
    type V = ServiceView;

    closed spec fn view(&self) -> ServiceView {
        ServiceView {
            app_name: self.app_name@,
            service_name: self.service_name@,
            id: self.id@,
            container_type: self.container_type,
            status: self.status,
            started_at: self.started_at,
            base_url: self.base_url.deep_view(),
            web_host_meta: self.web_host_meta.deep_view(),
        }
    }
}

impl DeepView for Service {
    type V = ServiceView;

    open spec fn deep_view(&self) -> ServiceView {
        self@
    }
}

impl ServiceView {
    /// A service as the runtime's inventory first shows it: without base URL
    /// and without discovery document.
    pub open spec fn plain(
        app_name: Seq<char>,
        service_name: Seq<char>,
        id: Seq<char>,
        container_type: ContainerType,
        status: ServiceStatus,
        started_at: Timestamp,
    ) -> ServiceView {
        ServiceView {
            app_name,
            service_name,
            id,
            container_type,
            status,
            started_at,
            base_url: None,
            web_host_meta: None,
        }
    }
}

impl Service {
    pub fn new(
        app_name: String,
        service_name: String,
        id: String,
        container_type: ContainerType,
        status: ServiceStatus,
        started_at: Timestamp,
    ) -> (service: Service)
        ensures
            service@ == ServiceView::plain(
                app_name@,
                service_name@,
                id@,
                container_type,
                status,
                started_at,
            ),
    {
        Service {
            app_name,
            service_name,
            id,
            container_type,
            status,
            started_at,
            base_url: None,
            web_host_meta: None,
        }
    }

    pub fn app_name(&self) -> (name: &String)
        ensures
            name@ == self@.app_name,
    {
        &self.app_name
    }

    pub fn service_name(&self) -> (name: &String)
        ensures
            name@ == self@.service_name,
    {
        &self.service_name
    }

    pub fn id(&self) -> (id: &String)
        ensures
            id@ == self@.id,
    {
        &self.id
    }

    pub fn container_type(&self) -> (t: ContainerType)
        ensures
            t == self@.container_type,
    {
        self.container_type
    }

    pub fn status(&self) -> (s: ServiceStatus)
        ensures
            s == self@.status,
    {
        self.status
    }

    pub fn started_at(&self) -> (t: Timestamp)
        ensures
            t == self@.started_at,
    {
        self.started_at
    }

    pub fn base_url(&self) -> (url: Option<&String>)
        ensures
            url.deep_view() == self@.base_url,
    {
        self.base_url.as_ref()
    }

    pub fn web_host_meta(&self) -> (meta: Option<&WebHostMeta>)
        ensures
            meta.deep_view() == self@.web_host_meta,
    {
        self.web_host_meta.as_ref()
    }

    pub fn set_container_type(&mut self, container_type: ContainerType)
        ensures
            final(self)@ == (ServiceView { container_type, ..old(self)@ }),
    {
        self.container_type = container_type;
    }

    pub fn set_base_url(&mut self, base_url: String)
        ensures
            final(self)@ == (ServiceView { base_url: Some(base_url@), ..old(self)@ }),
    {
        self.base_url = Some(base_url);
    }

    pub fn set_web_host_meta(&mut self, meta: WebHostMeta)
        ensures
            final(self)@ == (ServiceView { web_host_meta: Some(meta@), ..old(self)@ }),
    {
        self.web_host_meta = Some(meta);
    }
}

impl Clone for Service {
    fn clone(&self) -> (copy: Service)
        ensures
            copy@ == self@,
    {
        Service {
            app_name: self.app_name.clone(),
            service_name: self.service_name.clone(),
            id: self.id.clone(),
            container_type: self.container_type,
            status: self.status,
            started_at: self.started_at,
            base_url: copy_opt_text(&self.base_url),
            web_host_meta: match &self.web_host_meta {
                Some(meta) => Some(meta.clone()),
                None => None,
            },
        }
    }
}

/// Two services are the same service when the runtime gave them the same id.
impl PartialEq for Service {
    fn eq(&self, other: &Service) -> (b: bool) {
        self.id == other.id
    }
}

impl PartialEqSpecImpl for Service {
    open spec fn obeys_eq_spec() -> bool {
        true
    }

    open spec fn eq_spec(&self, other: &Service) -> bool {
        self@.id == other@.id
    }
}

} // verus!
