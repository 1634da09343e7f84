//! A synthetic filesystem exposing live system telemetry.
//!
//! The library holds the verified core: the inode-addressed entry tree,
//! the filesystem operations on it, the change-trigger engine, the event
//! queue and the state of every data-source module. Probing the host,
//! threads, the kernel bridge and process spawning live around it.
pub mod error;
pub mod text;
pub mod triggers;
pub mod fstree;
pub mod config;
pub mod events;
pub mod json;
pub mod modules;
pub mod filesystem;
