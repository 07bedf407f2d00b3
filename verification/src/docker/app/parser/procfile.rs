//! The `Procfile` of an application.
pub use crate::docker::deployment::procfile_parser::{parse_procfile_content, Procfile};
