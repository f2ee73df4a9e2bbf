//! Control plane core for container-backed instances: the instance registry,
//! its lifecycle state machine, identifier generation and the reconciliation
//! of recorded status against what the container runtime reports.

pub mod auth;
pub mod config;
pub mod ids;
pub mod instance;
pub mod storage;
pub mod global_event;
pub mod host;
pub mod info;
pub mod provider;
