//! Ignore-aware materialization of a directory tree into one text artifact.
//!
//! The crate decides which files of a watched tree are included (glob-style
//! ignore rules), renders the included files into a single deterministic
//! text artifact, and decides which filesystem change events should provoke
//! a fresh rendering pass.  All I/O (walking the tree, reading files,
//! writing the artifact, receiving change events) is left to the caller,
//! which hands plain values in and takes plain values back.

pub mod artifact;
pub mod events;
pub mod rules;
pub mod strutil;
pub mod watch;
