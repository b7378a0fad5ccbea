//! Runtime vulnerability monitoring for Linux servers: inventory parsing,
//! scan target derivation, runtime risk scoring and notification planning.
pub mod actions;
pub mod config;
pub mod dashboard;
pub mod docker;
pub mod error;
pub mod grype;
pub mod history;
pub mod inventory;
pub mod models;
pub mod notify;
pub mod packages;
pub mod ports;
pub mod report;
pub mod risk;
pub mod runtime;
pub mod scan;
pub mod systemd;
pub mod text;
