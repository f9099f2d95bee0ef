//! Tracks the sessions of code agents and says what to record of them in
//! ActivityWatch: a heartbeat of live activity, merged from all sessions, and a
//! summary of each session once it ended or was abandoned.
//!
//! - [`time`], [`text`], [`paths`] and [`json`] are the ground: instants, texts,
//!   project names, and the JSON values of `serde_json`.
//! - [`usage`] and [`session`] hold what is known of one session, and
//!   [`events`] what agents report.
//! - [`heartbeat`], [`recorded`] and [`actor`] are about all sessions together.
//! - [`api`], [`retry`], [`buckets`] and [`cli`] hold the decisions of the
//!   service around them.
//! - [`laws`] states what holds of the whole.
pub mod actor;
pub mod api;
pub mod buckets;
pub mod cli;
pub mod events;
pub mod heartbeat;
pub mod json;
pub mod laws;
pub mod paths;
pub mod recorded;
pub mod retry;
pub mod session;
pub mod text;
pub mod time;
pub mod usage;
