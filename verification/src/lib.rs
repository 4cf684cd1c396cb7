//! Proof-of-data-possession escrow: challenge generation, pairing-based
//! proof verification, and the escrow settlement state machine, together
//! with the byte-encoding and field-reduction rules they share.

use vstd::prelude::*;

pub mod challenge;
pub mod curve;
pub mod encoding;
pub mod escrow;
pub mod verification;

verus! {

/// Every failure an escrow operation can report. Failures are synchronous
/// and all-or-nothing: no operation that fails mutates the record.
#[derive(Clone, Copy, Debug, PartialEq, Eq, Structural)]
pub enum EscrowError {
    /// A point, scalar or feed encoding is not well formed.
    MalformedInput,
    /// The proving interval since the last accepted proof has not elapsed.
    TooEarly,
    /// The challenge set is older than the staleness window allows.
    ChallengeStale,
    /// The pairing equation rejected the submitted proof.
    ProofInvalid,
    /// The caller is not the right principal, or its closing condition is unmet.
    Unauthorized,
    /// A balance or counter update would overflow.
    ArithmeticOverflow,
    /// A transfer would exceed the escrowed balance.
    InsufficientFunds,
    /// The entropy feed does not come from the expected oracle.
    EntropySourceMismatch,
}

/// An opaque principal identifier: a 32-byte account key carried as two
/// 128-bit halves, compared only for equality.
#[derive(Clone, Copy, Debug, PartialEq, Eq, Structural)]
pub struct PrincipalId {
    pub hi: u128,
    pub lo: u128,
}

} // verus!
