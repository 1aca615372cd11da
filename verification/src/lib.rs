//! Live-capture and archive engine.
//!
//! The engine records live broadcasts room by room: a registry
//! ([`manager::RecorderManager`]) owns one [`recorder::Recorder`] per room,
//! each recorder drives a capture state machine that appends downloaded
//! media segments and chat ("danmu") entries to an append-only journal
//! ([`journal::LiveSession`]), builds HLS-style playlists, and plans
//! time-range clip extraction over the recorded segments.
//!
//! All network, disk and subprocess work happens outside this crate; the
//! crate holds the decisions: state transitions, journal invariants,
//! playlist text, range resolution and credential parsing.

pub mod account;
pub mod clip;
pub mod errors;
pub mod journal;
pub mod manager;
pub mod platform;
pub mod recorder;
pub mod strutil;
pub mod transcode;
