//! Process management: control blocks, scheduling and context switching.

pub mod context;
pub mod pcb;
pub mod scheduler;
