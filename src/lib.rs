//! Capture-session supervision and encoder command construction for a
//! screen-to-GIF recorder.
//!
//! `text` holds the small string helpers, `platform` turns a capture or
//! transcode request into an encoder invocation, `screen` reads the
//! display size out of the reports of the X display query tools, and
//! `recorder` holds the session state machine that owns at most one
//! running encoder process.

pub mod platform;
pub mod recorder;
pub mod screen;
pub mod text;
