//! Containers, images and volumes of deployed applications.
pub mod env_resolver;
pub mod naming;
pub mod rollback;
pub mod error;
pub mod registry;
pub mod app_move;
pub mod app;
pub mod deployment;
pub mod labels;
pub mod cron;
