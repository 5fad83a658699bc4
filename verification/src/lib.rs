//! The core of a manager of short-lived apps: groups of containers that are
//! started for a while to show a change and are thrown away again.
//!
//! Two things are decided here. `infrastructure` holds the orchestrator: what
//! to ask of the container runtime, step by step, to start and stop the
//! services of an app, and how to read services back from the labels of
//! their containers. `apps` holds the cache of the discovery documents that
//! the running services publish: when to ask a service for its document,
//! what to make of the answer, when to forget it, and how to show it in a
//! listing.
//!
//! Nothing here talks to a container runtime or to a service. The requests
//! are values that the caller carries out; the answers come back as values.

pub mod apps;
pub mod clock;
pub mod infrastructure;
pub mod inventory;
pub mod models;
