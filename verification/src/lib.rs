//! A short-code redirect service: opaque codes map to destination URLs,
//! every successful redirect is recorded as a click-log entry, and an
//! admin surface protected by short-lived bearer tokens creates, inspects
//! and mutates the mappings.
//!
//! The crate verifies the data-access core: the serialized storage
//! operations and the authentication/redirect pipeline built on them.
//! The persistent store is modelled as in-memory tables with sequence
//! views; the process edges (HTTP, the clock, the on-disk store) hand the
//! library plain values and take plain values back.

pub mod actor;
pub mod codegen;
pub mod guard;
pub mod laws;
pub mod resolver;
pub mod session;
pub mod store;
