//! Reading and writing the operating system's global proxy configuration.
//!
//! The crate holds the data model exchanged with callers, the parser for the
//! persisted proxy-server string (including its legacy multi-protocol form),
//! and the builders that turn a target proxy state into the native option
//! list a write submits. The registry reads and the native submission call
//! themselves are left to an unverified shell around this library.

pub mod digits;
pub mod model;
pub mod options;
pub mod parse;
pub mod text;
