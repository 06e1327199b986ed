//! Decision core of a desktop shell's backend process supervisor.
//!
//! The shell starts a long-running backend process, optionally waits for it
//! to become healthy, and tears it down when the window closes. Every rule of
//! that lifecycle lives here as a verified function on plain values; the
//! surrounding program only performs the effects these functions ask for.

pub mod dialog;
pub mod launcher;
pub mod matcher;
pub mod path;
pub mod readiness;
pub mod reaper;
pub mod shutdown;
pub mod signal;
pub mod signature;
