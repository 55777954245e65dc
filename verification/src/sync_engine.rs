//! LWW file sync engine.
//!
//! Implements hash-based diffing and last-writer-wins conflict resolution
//! for multi-device personal sync over the namespace object store API.
//!
//! What the engine wants of the host it asks for call by call: each run names the next
//! call, and is taken one step further by the reply to it.

pub mod agreement;
pub mod cycle;
pub mod fetch;
pub mod paths;
pub mod plan;
pub mod pull;
pub mod push;
pub mod scan;

pub use crate::sync_engine::cycle::{sync, SyncMode, SyncResult, SyncRun};
pub use crate::sync_engine::fetch::{fetch_server_manifest, FetchRun};
pub use crate::sync_engine::plan::{compute_diff, LocalFileInfo, ServerEntry, SyncPlan};
pub use crate::sync_engine::pull::{execute_pull, PullRun};
pub use crate::sync_engine::push::{execute_push, PushRun};
pub use crate::sync_engine::scan::{scan_local, ScanRun};
