pub mod configs;
pub mod docker_infrastructure;
pub mod errors;
pub mod labels;
pub mod model;
pub mod network;
pub mod progress;
pub mod runtime;
pub mod start_container;
pub mod start_laws;
pub mod start_services;
pub mod start_services_laws;
pub mod stop_laws;
pub mod stop_services;
