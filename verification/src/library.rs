//! What the tools share.

pub mod docker_host;
pub mod path;
