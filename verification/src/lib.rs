//! Reconciles the services a host should run with the containers it runs,
//! and decides what the surrounding tools do with the results of the
//! commands they start.

pub mod command;
pub mod deploy;
pub mod library;
pub mod log;
pub mod looper;
pub mod ordered;
pub mod subcommand;
pub mod table;
pub mod text;
