//! A supervisor/worker cluster: the wire protocol, the registries the
//! nodes keep, and the decisions their sessions and cores take.
pub mod protocol;
pub mod wire;
pub mod crypto;
pub mod registry;
pub mod supervisor_core;
pub mod supervisor_session;
pub mod worker_core;
pub mod worker_session;
pub mod registry_core;
