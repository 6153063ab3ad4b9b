//! A single-host process supervisor: the configuration model, the lifecycle
//! state machine of each supervised process, and the engine that fans operator
//! commands out to the replicas of a program.

pub mod commandline;
pub mod config;
pub mod decimal;
pub mod errors;
pub mod exec;
pub mod text;
