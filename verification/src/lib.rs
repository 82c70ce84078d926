//! Verified core of a hardware diagnostic engine for programmable keyboards.
//!
//! The library holds the logic that orchestrates destructive test sequences
//! against a keyboard controller: saving and restoring the keymap around a
//! test, aggregating best-of-N throughput benchmarks per USB port, driving a
//! fixed-repetition matrix diagnostic with fail-fast semantics, and running a
//! cancellable live scan of pressed keys. Hardware I/O itself stays outside;
//! callers feed board responses into the state machines defined here.

pub mod bench;
pub mod color;
pub mod diagnostic;
pub mod keymap;
pub mod livescan;
pub mod numfmt;
pub mod overlay;
pub mod runner;
