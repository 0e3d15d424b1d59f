//! A personal registry of nix flake directories that can be refreshed in bulk.
//!
//! The crate holds the verified core of the tool: the persistent registry of
//! named entries, the serialization of that registry to a delimited-text
//! configuration file, the classification of the external tool's diagnostic
//! stream into warnings and structured error records, and the bookkeeping of
//! a batch update that must not let one entry's failure block the others.
//!
//! Everything that talks to the operating system (spawning the external tool,
//! reading and atomically replacing the configuration file, terminal styling)
//! lives outside this crate and exchanges plain values with it.

pub mod batch;
pub mod codec;
pub mod errors;
pub mod registry;
pub mod runner;
pub mod text;
