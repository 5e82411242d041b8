//! Crash-diagnostics recorder: keeps a bounded call-stack snapshot per thread
//! of a monitored process and, on a fatal-failure signal, renders a
//! deterministic report correlating each thread with its active call path.

pub mod capture;
pub mod frame;
pub mod natives;
pub mod registry;
pub mod render;
pub mod report;
