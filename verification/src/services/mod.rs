//! Kernel services built on the process layer.

pub mod file_system_service;
pub mod memory_service;
pub mod process_service;
