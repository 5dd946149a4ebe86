//! Decision core of the OpenShell VM stack.

pub mod dialogue;
pub mod driver;
pub mod fault;
pub mod gpu;
pub mod guarded;
pub mod order;
pub mod paths;
pub mod server;
pub mod sysfs;
pub mod text;
pub mod text_map;
pub mod views;
pub mod vm;
