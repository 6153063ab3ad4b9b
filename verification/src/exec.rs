//! The engine: the lifecycle of each supervised process, the replicas of a
//! program as a group, and the manager that turns operator commands and
//! process events into what has to be done next.

pub mod backoff;
pub mod commands;
pub mod execcommand;
pub mod laws;
pub mod process;
pub mod process_group;
pub mod process_manager;
