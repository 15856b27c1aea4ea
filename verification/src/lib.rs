//! Document-driven automation steward: reactive orchestration and
//! agent-execution engine.
//!
//! Work items ("threads") live as text files. External signals wake a thread;
//! the engine decides when a thread runs, drains its declared tasks one at a
//! time, keeps cron-style injection jobs in sync with each file's own
//! metadata, and bounds how many tool calls one model turn may execute.
//! All decision logic lives here, verified; the surrounding process does the
//! I/O and feeds plain values in and out.

pub mod agent;
pub mod args;
pub mod batch;
pub mod config;
pub mod context;
pub mod ctl;
pub mod delivery;
pub mod messages;
pub mod rhythm;
pub mod runtime;
pub mod session;
pub mod skills;
pub mod text;
pub mod tools;
pub mod watch;
pub mod workspace;
