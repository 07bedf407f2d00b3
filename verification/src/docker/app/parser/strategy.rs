//! How an application's image is built.
pub use crate::docker::deployment::dockerfile_parser::BuildStrategy;
