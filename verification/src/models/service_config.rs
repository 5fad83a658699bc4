use crate::models::service::ContainerType;
use crate::models::text::{copy_opt_text, copy_texts};
use vstd::prelude::*;
use vstd::string::StringExecFns;

verus! {

/// What a service is to run: an image by name, or an image by the digest of
/// its content.
#[derive(Debug)]
pub enum Image {
    Named { repo: String, registry: Option<String>, user: Option<String>, tag: Option<String> },
    Digest { hash: String },
}

pub enum ImageView {
    Named {
        repo: Seq<char>,
        registry: Option<Seq<char>>,
        user: Option<Seq<char>>,
        tag: Option<Seq<char>>,
    },
    Digest { hash: Seq<char> },
}

impl DeepView for Image {
    type V = ImageView;

    open spec fn deep_view(&self) -> ImageView {
        match self {
            Image::Named { repo, registry, user, tag } => ImageView::Named {
                repo: repo@,
                registry: registry.deep_view(),
                user: user.deep_view(),
                tag: tag.deep_view(),
            },
            Image::Digest { hash } => ImageView::Digest { hash: hash@ },
        }
    }
}

/// `part` followed by `separator`, nothing where there is no part.
pub open spec fn with_separator(part: Option<Seq<char>>, separator: Seq<char>) -> Seq<char> {
    match part {
        Some(text) => text + separator,
        None => Seq::empty(),
    }
}

/// `separator` followed by `part`, nothing where there is no part.
pub open spec fn after_separator(separator: Seq<char>, part: Option<Seq<char>>) -> Seq<char> {
    match part {
        Some(text) => separator + text,
        None => Seq::empty(),
    }
}

impl ImageView {
    /// The image as the container runtime names it:
    /// `registry/user/repo:tag` without the parts that are missing, or the
    /// digest as it stands.
    pub open spec fn name(self) -> Seq<char> {
        match self {
            ImageView::Named { repo, registry, user, tag } => with_separator(registry, "/"@)
                + with_separator(user, "/"@) + repo + after_separator(":"@, tag),
            ImageView::Digest { hash } => hash,
        }
    }

    pub open spec fn is_digest(self) -> bool {
        self is Digest
    }
}

impl Image {
    pub fn name(&self) -> (name: String)
        ensures
            name@ == self.deep_view().name(),
    {
        match self {
            Image::Named { repo, registry, user, tag } => {
                let mut name = String::new();
                match registry {
                    Some(text) => {
                        name.append(text.as_str());
                        name.append("/");
                    },
                    None => {},
                }
                match user {
                    Some(text) => {
                        name.append(text.as_str());
                        name.append("/");
                    },
                    None => {},
                }
                name.append(repo.as_str());
                match tag {
                    Some(text) => {
                        name.append(":");
                        name.append(text.as_str());
                    },
                    None => {},
                }
                assert(name@ =~= self.deep_view().name());
                name
            },
            Image::Digest { hash } => hash.clone(),
        }
    }

}

impl Clone for Image {
    fn clone(&self) -> (copy: Image)
        ensures
            copy.deep_view() == self.deep_view(),
    {
        match self {
            Image::Named { repo, registry, user, tag } => Image::Named {
                repo: repo.clone(),
                registry: copy_opt_text(registry),
                user: copy_opt_text(user),
                tag: copy_opt_text(tag),
            },
            Image::Digest { hash } => Image::Digest { hash: hash.clone() },
        }
    }
}

/// The desired state of one service.
#[derive(Debug)]
pub struct ServiceConfig {
    service_name: String,
    image: Image,
    env: Option<Vec<String>>,
    container_type: ContainerType,
}

pub struct ServiceConfigView {
    pub service_name: Seq<char>,
    pub image: ImageView,
    pub env: Option<Seq<Seq<char>>>,
    pub container_type: ContainerType,
}

impl DeepView for ServiceConfig {
    type V = ServiceConfigView;

    closed spec fn deep_view(&self) -> ServiceConfigView {
        ServiceConfigView {
            service_name: self.service_name@,
            image: self.image.deep_view(),
            env: self.env.deep_view(),
            container_type: self.container_type,
        }
    }
}

impl ServiceConfig {
    /// A configuration of type `Instance`.
    pub fn new(
        service_name: String,
        image: Image,
        env: Option<Vec<String>>,
    ) -> (config: ServiceConfig)
        ensures
            config.deep_view() == (ServiceConfigView {
                service_name: service_name@,
                image: image.deep_view(),
                env: env.deep_view(),
                container_type: ContainerType::Instance,
            }),
    {
        ServiceConfig { service_name, image, env, container_type: ContainerType::Instance }
    }

    pub fn get_service_name(&self) -> (name: &String)
        ensures
            name@ == self.deep_view().service_name,
    {
        &self.service_name
    }

    pub fn get_image(&self) -> (image: &Image)
        ensures
            image.deep_view() == self.deep_view().image,
    {
        &self.image
    }

    pub fn get_env(&self) -> (env: &Option<Vec<String>>)
        ensures
            env.deep_view() == self.deep_view().env,
    {
        &self.env
    }

    pub fn get_container_type(&self) -> (t: ContainerType)
        ensures
            t == self.deep_view().container_type,
    {
        self.container_type
    }

    pub fn set_container_type(&mut self, container_type: ContainerType)
        ensures
            final(self).deep_view() == (ServiceConfigView {
                container_type,
                ..old(self).deep_view()
            }),
    {
        self.container_type = container_type;
    }

    /// The image as the container runtime names it.
    pub fn get_docker_image(&self) -> (name: String)
        ensures
            name@ == self.deep_view().image.name(),
    {
        self.image.name()
    }

    /// Whether the image is given by the digest of its content.
    pub fn refers_to_image_id(&self) -> (b: bool)
        ensures
            b == self.deep_view().image.is_digest(),
    {
        match self.image {
            Image::Digest { .. } => true,
            Image::Named { .. } => false,
        }
    }

}

impl Clone for ServiceConfig {
    fn clone(&self) -> (copy: ServiceConfig)
        ensures
            copy.deep_view() == self.deep_view(),
    {
        ServiceConfig {
            service_name: self.service_name.clone(),
            image: self.image.clone(),
            env: match &self.env {
                Some(env) => Some(copy_texts(env)),
                None => None,
            },
            container_type: self.container_type,
        }
    }
}

/// Settings that hold for every container of one call.
#[derive(Clone, Copy, Debug)]
pub struct ContainerConfig {
    memory_limit: Option<u64>,
}

impl ContainerConfig {
    pub closed spec fn spec_memory_limit(&self) -> Option<u64> {
        self.memory_limit
    }

    pub fn new(memory_limit: Option<u64>) -> (config: ContainerConfig)
        ensures
            config.spec_memory_limit() == memory_limit,
    {
        ContainerConfig { memory_limit }
    }

    pub fn get_memory_limit(&self) -> (limit: Option<u64>)
        ensures
            limit == self.spec_memory_limit(),
    {
        self.memory_limit
    }
}

} // verus!
