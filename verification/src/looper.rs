//! The loop that builds, deploys and tests one version after the other.

pub mod configuration;
pub mod iterate;
pub mod set_up_cache;
pub mod tear_down_cache;
