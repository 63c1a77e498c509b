//! Core of a real-time word-guessing game played over a bidirectional
//! text channel: dictionary lookup and secret selection, guess
//! validation, per-position feedback, and the attempt-limited session
//! state machine. The caller owns the channel; it feeds each inbound
//! event to the session and sends back the responses the session
//! returns.

pub mod dict;
pub mod pages;
pub mod score;
pub mod session;
pub mod words;
