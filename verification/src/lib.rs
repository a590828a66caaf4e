//! A boot-sequence orchestrator: an ordered task runner with a status
//! registry, a progress log renderer, and a fetch-and-extract pipeline for a
//! packaged root filesystem, coordinated through busy-wait read/write guards.

pub mod guard;
pub mod rootfs;
pub mod tasks;
pub mod tui;
