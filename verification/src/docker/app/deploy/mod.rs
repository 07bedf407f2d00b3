//! Deploying a commit of an application: build inputs, commands, the
//! process containers and the order of the deployment's steps.
pub mod commands;
pub mod context;
pub mod create;
pub mod runner;
pub mod release;
