//! Deployments of applications on a node: replicas, images, volumes and the
//! files read from the application's repository.
pub mod scale;
pub mod app_move;
pub mod process;
pub mod parser;
pub mod image;
pub mod deploy;
pub mod volume;
pub mod env;
pub mod requests;
