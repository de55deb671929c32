//! The service manager: configuration, supervision state and restart policy.
pub mod config;
pub mod logger;
pub mod state;
pub mod supervisor;
pub mod policy;
pub mod spawn;
