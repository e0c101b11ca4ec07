//! The library's error taxonomy.
use vstd::prelude::*;

verus! {

/// Why a connect, tunnel or secret operation failed.
#[derive(Debug, PartialEq, Eq)]
pub enum Error {
    /// The jump host refused the password.
    AuthenticationFailure,
    /// The jump host's identity is seen for the first time: ask the operator,
    /// then retry.
    HostKeyPending,
    /// The jump host presented another identity than the one pinned for it.
    HostKeyMismatch,
    /// A stored host identity is not in the `algorithm key [comment]` form.
    KeyFormat,
    /// No local port in the probing range could be bound.
    PortExhausted,
    /// The tunnel did not report its local address in time.
    TunnelEstablishTimeout,
    /// A credential that the connection needs is not stored.
    MissingSecret(String),
    /// Stored secret data is malformed or does not decrypt.
    Crypto,
    /// An outside collaborator failed; its message.
    External(String),
}

} // verus!
