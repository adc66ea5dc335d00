//! Probing the network and reporting what was found.
pub mod actor;
pub mod effects;
pub mod history;
pub mod latencies;
pub mod launch;
pub mod laws;
pub mod qad;
pub mod report;
pub mod request;
