//! The `Dockerfile` declarations a deployment reads.
pub use crate::docker::deployment::dockerfile_parser::{
    parse_expose, parse_volume_exec_form, parse_volume_shell_form, parse_volumes,
};
