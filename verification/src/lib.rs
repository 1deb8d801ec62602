//! A function-hooking engine for native code whose source is not at hand.
//!
//! The engine finds a function's entry by searching a snapshot of the host's
//! code for a byte signature, builds the fourteen-byte jump that redirects the
//! entry to an adapter, and decides, step by step, how the patch is written
//! under a temporary change of memory protection. Everything here works on
//! plain values; the caller performs the reads, the protection changes and
//! the write, and reports what happened.
//!
//! - [`address`]: addresses of the host, with a checked offset.
//! - [`pattern`]: byte signatures with wildcards, and what a match is.
//! - [`region`]: a snapshot of host memory, read and scanned within bounds.
//! - [`stub`]: the jump that redirects an entry, built and read back.
//! - [`guard`]: the protection guard, as a machine of states and actions.
//! - [`hook`]: hooks, and the functions that can be hooked.
//! - [`resolver`]: the table of addresses that were found once.
//! - [`names_pool`]: the client of the host's pool of names.
//! - [`text`]: texts in the host's encodings.
//! - [`error`]: the ways in which all this can fail.

pub mod address;
pub mod error;
pub mod guard;
pub mod hook;
pub mod names_pool;
pub mod pattern;
pub mod region;
pub mod resolver;
pub mod stub;
pub mod text;
