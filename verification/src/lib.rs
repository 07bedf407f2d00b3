//! Deployment planning, naming, parsing and scheduling rules for the slasha server.
pub mod alerting;
pub mod alerts;
pub mod connections;
pub mod cron;
pub mod docker;
pub mod env_map;
pub mod models;
pub mod text;
pub mod topo;
