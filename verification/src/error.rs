//! The library's error type.

use vstd::prelude::*;

verus! {

/// What can go wrong inside the control core. Transport, configuration
/// and catalog failures live with the collaborators that cause them; here
/// are only the errors the core itself decides on.
#[derive(Debug, Clone, PartialEq, Eq)]
pub enum Error {
    /// The daemon answered with an error-carrying reply.
    Response(String),
    /// The distinguished stop signal: not a failure, it unwinds the
    /// daemon's accept loop cleanly.
    ExplicitStop,
    /// A reply of a shape the issued command cannot produce.
    Protocol,
}

} // verus!
