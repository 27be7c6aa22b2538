//! Scripted capture of a legacy telephone-switch administration console.
//!
//! The switch is reachable only through an interactive, human-oriented
//! terminal session: an operator types short commands and reads fixed-width
//! prompts and tabular output.  This library models that conversation so it
//! can be replayed mechanically:
//!
//! * [`session`] tracks the evolving output buffer of one console connection
//!   and decides when the remote side has reached an expected prompt;
//! * [`fetcher`] encodes one scripted multi-step exchange — an ordered list of
//!   (bytes to send, prompt to await) pairs — and the filename its captured
//!   output is persisted under;
//! * [`normalize`] cleans the captured bytes: it splits them into lines,
//!   strips stray carriage returns, and trims login and prompt noise;
//! * [`operator`] interprets the operator's answer to the interactive
//!   cancellation menu.
//!
//! The actual transport (a spawned terminal client) and the filesystem are
//! driven by a thin unverified shell around this crate; the library itself
//! works on plain byte values and is verified.

pub mod fetcher;
pub mod normalize;
pub mod operator;
pub mod session;
pub mod text;
