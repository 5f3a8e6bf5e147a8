//! Real-time audio tee with a non-real-time consumer.
//!
//! The library verifies the core of a duplex audio tap: a real-time
//! callback that copies its input buffer to its output buffer unchanged
//! and forwards a copy of each block over a bounded, drop-counting
//! handoff queue to a background consumer, which drains the queue into a
//! sink (a durable byte stream or a diagnostic trace).
//!
//! Samples are carried as the 32-bit IEEE-754 bit patterns of the audio
//! samples, so that the verified logic works on plain integers; the
//! surrounding program converts at the audio boundary.

pub mod channel;
pub mod codec;
pub mod frame;
pub mod session;
pub mod sink;
