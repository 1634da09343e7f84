//! The data-source modules.
pub mod module;
pub mod battery;
pub mod memory;
pub mod trash;
pub mod brightness;
pub mod cpu;
pub mod any;
