//! Bringing the containers that run on a host to the services that are wanted.

pub mod apply;
pub mod collect;
pub mod engine;
pub mod laws;
pub mod model;
pub mod reconcile;
