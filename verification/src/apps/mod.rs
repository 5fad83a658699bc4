pub mod cycle;
pub mod decoration;
pub mod eviction;
pub mod host_meta_cache;
pub mod probe;
pub mod store;
pub mod targets;
