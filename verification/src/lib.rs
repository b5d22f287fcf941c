//! Orchestration engine for capturing live video sources.
//!
//! The engine decides, each poll cycle, which sources to dispatch a capture
//! job for, guarded by per-source advisory lock markers. The library holds
//! the verified logic: the mutual-exclusion store, the dispatch plan, the
//! session-id and path derivation, and the registry parsing contract.
//! Process plumbing (filesystem markers, the subprocess, the sleeps) lives
//! outside the library and drives it with plain values.

pub mod dispatch;
pub mod job;
pub mod locks;
pub mod registry;
pub mod session;
pub mod timestamp;
