//! Launching a virtual machine.

pub mod booting;
pub mod config;
pub mod exit;
pub mod failures;
pub mod gvproxy;
pub mod host;
pub mod laws;
pub mod libkrun;
pub mod network;
pub mod replay;
pub mod requests;
