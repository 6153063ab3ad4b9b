//! The declarative configuration: program descriptions, the daemon's own
//! settings, and the reader that fills both from an INI document.

pub mod adapter;
pub mod config;
pub mod logger;
pub mod parser;
pub mod program;
pub mod program_section;
pub mod runtimecontext;
pub mod section;
pub mod taskmasterd;
