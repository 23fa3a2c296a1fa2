//! Random string generation from a configurable character pool.
//!
//! The library parses the command line into a request, resolves the
//! request's directives into an ordered pool of distinct characters, and
//! samples strings from that pool with bytes from the operating system's
//! random source.
pub mod args;
pub mod error;
pub mod pool;
pub mod sample;
pub mod text;
