//! Verified session management for serial ports.
//!
//! The crate keeps a registry of open port sessions, each owning one port
//! handle and at most one background reader, and proves the registry
//! invariants: one session per identifier, a cancellation sender present
//! exactly while a reader is active, and all-or-nothing teardown.

pub mod config;
pub mod error;
pub mod ports;
pub mod read_loop;
pub mod registry;
pub mod signal;
