//! Cooperative resource enforcement for a runtime that hosts many workers.
//!
//! A single rogue worker can starve every other worker on the same machine. The
//! guardian tracks per-worker budgets (CPU, memory, network, file handles) and
//! tells when a phased limit is reached:
//!
//!   - 70 %: warning phase (a line for the log)
//!   - 85 %: degraded phase (new allocations are to be throttled)
//!   - 100 %: hard stop (the worker is to be terminated, others are unaffected)
//!
//! It also watches a global conservation invariant: the CPU time of all workers
//! together must not exceed 80 % of what the system has. What workers use of CPU
//! and network is counted per enforcement window.
//!
//! The library decides and writes texts; its host owns the clock, the log and
//! the workers themselves.

pub mod binary64;
pub mod budget;
pub mod conservation;
pub mod guardian;
pub mod inspection;
pub mod laws;
pub mod notice;
pub mod phase;
pub mod registry_laws;
pub mod rounding;
pub mod state;
pub mod text;
pub mod usage;

pub use crate::binary64::Binary64;
pub use crate::budget::ResourceBudget;
pub use crate::conservation::ConservationTracker;
pub use crate::guardian::{ResourceGuardian, WorkerHandle};
pub use crate::notice::{Notice, NoticeLevel};
pub use crate::phase::ResourcePhase;
pub use crate::usage::WorkerUsage;
