//! Supervision of a fleet of long-running Magento queue-consumer worker
//! processes: resolving and validating the daemon's configuration, planning
//! which worker instances to launch, tracking the liveness of each launched
//! instance, and driving the graceful-termination protocol
//! (signal, grace period, force kill, reap) for every instance.
//!
//! The crate holds the decision logic only. The surrounding binary performs
//! the operating-system work (spawning, signalling, waiting, sleeping) and
//! feeds the observed outcomes back in as plain values.

pub mod config;
pub mod input;
pub mod worker;
