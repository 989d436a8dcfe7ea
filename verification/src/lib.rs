//! Verified core of a native-extension module: the pure logic behind each
//! entry point (decimal formatting, summation, sequence draining, lazy-stream
//! counting, the registration list, a reentrant-lock model, and a key-indexed
//! fan-out engine), stated and proved with Verus. The host-binding glue that
//! converts values across the foreign-call boundary lives outside this crate.

pub mod decimal;
pub mod drain;
pub mod fanout;
pub mod gil;
pub mod lazy;
pub mod registry;
pub mod surface;
