//! Control-plane core for named, isolated runtime environments ("bottles").
//!
//! The library owns the authoritative set of environment records, keeps
//! their names unique, tracks which environments have a live execution
//! agent, and sequences lifecycle transitions (create, delete, start,
//! stop, restart) so that the registry, the run tracker and the durable
//! snapshot never diverge.  Transport, process spawning and file I/O are
//! collaborators that live outside this crate.

pub mod bottle;
pub mod store;
pub mod registry;
pub mod orchestrator;
pub mod coordinator;
