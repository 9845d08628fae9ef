//! Host telemetry service core: the response envelope, startup configuration,
//! Basic authentication, process ranking and snapshot composition, and the
//! decisions of the mode orchestrator.

pub mod api;
pub mod models;
pub mod ranking;
pub mod snapshot;
pub mod auth;
pub mod config;
pub mod orchestrator;
