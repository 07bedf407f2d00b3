//! The deployment executor's rules: image build inputs, process containers,
//! readiness, scaling and database replication.
pub mod scale;
pub mod readiness;
pub mod dockerfile_parser;
pub mod procfile_parser;
pub mod js_workspace;
pub mod litestream;
pub mod executor;
pub mod image_build;
