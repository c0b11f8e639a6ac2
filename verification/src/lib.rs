//! Core model of a declarative container and virtual-machine orchestrator.
//!
//! Managed objects (cargoes, virtual machines, jobs, resources) are described
//! by immutable spec revisions held in a versioned store.  A reconciler
//! bridges the wanted lifecycle state of each object and the state observed
//! from the container runtime, while a state pipeline applies and reverts
//! whole deployment documents and an event bus fans lifecycle actions out to
//! subscribers.

pub mod cargo_spec;
pub mod client_paths;
pub mod container;
pub mod err;
pub mod events;
pub mod generic;
pub(crate) mod host;
pub mod laws;
pub mod models;
pub mod nginx;
pub mod process;
pub mod specs;
pub mod state;
pub mod status;
pub mod store;
pub mod text;
pub mod vm;
pub mod vm_spec;
