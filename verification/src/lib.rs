//! Isolated tool environments with published shims, and command resolution
//! for running project scripts.
//!
//! Paths, command names and arguments are byte strings in the native form of
//! a Unix system. The functions here decide; the caller performs the file
//! system and process operations that the decisions call for.

pub mod bytes;
pub mod paths;
pub mod script;
pub mod listing;
pub mod environ;
pub mod run;
pub mod words;
pub mod installer;
pub mod manifest;
pub mod shims;
