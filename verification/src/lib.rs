//! Decisions that keep an endpoint connected.
//!
//! [`net_report`] decides which probes to run to learn about the network, and
//! when to publish a report. [`remote_state`] decides, for one remote endpoint,
//! when to holepunch, which path to select, and which paths to open and to
//! close. [`test_transport`] is a simulated network to test custom transports
//! with.
//!
//! Nothing here waits, sends or reads a clock, but for the simulated network's
//! channels. What happened and what time it is come in as arguments, and what
//! is to be done comes out as a list of actions.
pub mod addr;
pub mod flat;
pub mod net_report;
pub mod remote_state;
pub mod test_transport;
pub mod time;
