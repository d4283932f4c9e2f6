//! What the tool does on request.

pub mod deploy;
