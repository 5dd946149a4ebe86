//! Starting the server.

pub mod config;
pub mod endpoint;
pub mod laws;
pub mod replay;
pub mod startup;
pub mod state;
