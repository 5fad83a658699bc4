pub mod image;
pub mod request_info;
pub mod service;
pub mod service_config;
pub mod text;
pub mod time;
pub mod web_host_meta;
