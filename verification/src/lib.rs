//! Decision core of a build fleet that watches source repositories, lists the
//! build targets of every tracked commit and dispatches one build per target
//! under a bounded pool of permits.
//!
//! Everything here is sequential and free of I/O: the surrounding program
//! performs the clones, fetches and tool invocations, and reports what
//! happened as plain values.

pub mod arch;
pub mod commit;
pub mod config;
pub mod fleet;
pub mod http;
pub mod json;
pub mod manifest;
pub mod package;
pub mod paths;
pub mod position;
pub mod props;
pub mod repo;
pub mod semaphore;
pub mod serialize;
pub mod status;
pub mod text;
pub mod tool;
pub mod worker;
