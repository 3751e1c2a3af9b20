//! Keeps a local working directory logically mapped to a remote location and
//! builds the shell commands that synchronize the two.
//!
//! The crate holds the reasoning core: resolving a directory's declared
//! remote counterpart by walking its ancestors (`paths`), synthesizing a
//! shell command from a validated set of mutually constrained options
//! (`synth`, `cli`), formatting and parsing the exchange with an interactive
//! filtering subprocess (`chooser`), and the single-pass rewrite of a
//! host-block config file (`rewrite`).  Filesystem access, process spawning
//! and the cloud APIs stay with the caller, which hands plain values in and
//! out.

pub mod chooser;
pub mod cli;
pub mod errors;
pub mod paths;
pub mod rewrite;
pub mod synth;
pub mod text;
