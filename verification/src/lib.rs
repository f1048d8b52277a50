//! Configuration resolution for a command-line mining client.

pub mod cli;
pub mod endpoint;
pub mod network;
pub mod percent;
pub mod text;
