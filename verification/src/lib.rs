//! Hot-reload driver library for compiled native binaries.
//!
//! Given a target executable and a reload shared library built from the same
//! source tree, the driver redirects a nominated function symbol in the
//! running target to the corresponding symbol in the freshly built library.
//! This crate holds the driver's decision logic: option parsing, symbol
//! resolution, build-artifact selection, watch debouncing, and the injection
//! plan. Process spawning and filesystem watching live in the surrounding
//! binary, which hands plain values in and takes plain values back.

pub mod agent;
pub mod artifacts;
pub mod bins;
pub mod bytes;
pub mod deps;
pub mod driver;
pub mod inject;
pub mod options;
pub mod resolve;
pub mod watch;
