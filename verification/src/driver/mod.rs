//! The compute driver that runs sandboxes as virtual machines.

pub mod config;
pub mod create;
pub mod environment;
pub mod guest;
pub mod host;
pub mod laws;
pub mod machine;
pub mod replay;
pub mod sandbox;
pub mod settings;
pub mod status;
pub mod vm_driver;
pub mod watching;
