//! The GitHub App integration.
pub mod webhook;
pub mod client;
pub mod auth;
