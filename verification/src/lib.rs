//! Decision logic for a thin shell over an external password-store tool.
//!
//! The shell offers three operations: listing the entries of the store
//! directory, reading one entry's decrypted content, and removing one entry.
//! All cryptography and storage belong to the external tool; this crate
//! holds the parts worth stating exactly: how the store directory is located,
//! how file names become entry names, which command line each operation
//! builds, and how a subprocess outcome maps to a result or a typed error.
//! The unverifiable edges (environment, filesystem, spawning) stay with the
//! caller, which hands in plain values.

pub mod errors;
pub mod store;
pub mod tool;
