//! The error taxonomy of the SMC client.
//!
//! Every failure a client operation can report is one of these variants;
//! errors surface to the caller verbatim, with no retries.

use vstd::prelude::*;

verus! {

/// One failure of an SMC client operation.
#[derive(Clone, Copy, Debug, PartialEq, Eq, Structural)]
pub enum SmcError {
    /// The named service class is absent from the kernel registry.
    ServiceNotFound,
    /// Opening the user-client connection returned this non-zero status.
    OpenFailed(i32),
    /// The caller supplied a key name that is not exactly four ASCII
    /// characters.
    InvalidKey,
    /// The kernel method-call primitive returned this non-zero status.
    TransportError(i32),
    /// The reply's result byte was 132: the key does not exist.
    KeyNotFound,
    /// The reply's result byte was non-zero (and not 132): an SMC-level
    /// error with that code.
    Smc(u8),
}

impl SmcError {
    /// A short stable name for the variant, for display by an embedding.
    pub fn label(&self) -> (r: &'static str)
        ensures
            r@ == match *self {
                SmcError::ServiceNotFound => "service not found"@,
                SmcError::OpenFailed(_) => "service open failed"@,
                SmcError::InvalidKey => "SMC key must be 4 bytes long"@,
                SmcError::TransportError(_) => "transport error"@,
                SmcError::KeyNotFound => "SMC key not found"@,
                SmcError::Smc(_) => "SMC error"@,
            },
    {
        match *self {
            SmcError::ServiceNotFound => "service not found",
            SmcError::OpenFailed(_) => "service open failed",
            SmcError::InvalidKey => "SMC key must be 4 bytes long",
            SmcError::TransportError(_) => "transport error",
            SmcError::KeyNotFound => "SMC key not found",
            SmcError::Smc(_) => "SMC error",
        }
    }
}

} // verus!
