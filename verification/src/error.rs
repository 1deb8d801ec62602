//! The ways in which locating or hooking a function can fail.

use vstd::prelude::*;

verus! {

#[derive(Clone, Copy, Debug, PartialEq, Eq, Hash, Structural)]
pub enum Error {
    /// The scan ended without a match: the signature is stale or wrong.
    PatternNotFound,
    /// The host has no address for the requested name.
    SymbolNotFound,
    /// A change of memory protection was refused, or the range is not one
    /// that can be protected.
    OsProtectionError,
    /// A text cannot be carried over between the library's encoding and
    /// the host's.
    EncodingError,
}

} // verus!
