//! The runtime invocation bridge.
//!
//! One invocation crosses the foreign boundary twice: a prove call that hands
//! over the encoded request and returns the address of a buffer the foreign
//! side owns, and a free call that must be made on that address exactly once
//! afterwards — and never after a null return, where there is nothing to
//! release. The functions here make every decision of that protocol; the
//! surrounding program only performs the two calls and the byte copy.

use vstd::prelude::*;

use crate::request::InvocationError;

verus! {

/// The number of bytes the foreign prover hands back on success. The length
/// is agreed out of band with the foreign module, not negotiated at the
/// boundary, so a buffer of any other length is a precondition violation.
pub const PROOF_LEN: usize = 736;

/// A returned foreign buffer as the surrounding program observed it: the
/// non-null address the prove call returned, and the bytes copied out of the
/// buffer while the foreign side still owned it.
pub struct ForeignBuffer {
    pub addr: usize,
    pub bytes: Vec<u8>,
}

/// What one foreign prove call came back with.
pub enum ProveOutcome {
    /// A null address: the prover failed, and no buffer exists.
    Null,
    /// A non-null address and the bytes copied from the buffer it points at.
    Returned(ForeignBuffer),
}

/// The obligation to make the foreign free call on one address, exactly once.
/// The value can be neither copied nor cloned, and yielding the address
/// consumes it, so a second release of the same buffer cannot be expressed.
pub struct ReleaseOrder {
    addr: usize,
}

impl ReleaseOrder {
    /// The address the release is owed on.
    pub closed spec fn spec_addr(self) -> usize {
        self.addr
    }

    /// Yields the address to release, consuming the obligation.
    pub fn into_addr(self) -> (a: usize)
        ensures
            a == self.spec_addr(),
    {
        self.addr
    }
}

/// The settled result of one invocation.
pub enum BridgeVerdict {
    /// The invocation failed; nothing is owed to the foreign side.
    Failed(InvocationError),
    /// The proof bytes, now locally owned, and the single release obligation
    /// for the buffer they were copied from.
    Proved(Vec<u8>, ReleaseOrder),
}

impl BridgeVerdict {
    /// True when the verdict reports the prover's failure and owes no
    /// release.
    pub open spec fn is_prover_failure(self) -> bool {
        self == BridgeVerdict::Failed(InvocationError::ProverFailed)
    }
}

/// Settles the outcome of the foreign prove call: a null return becomes a
/// prover failure with no release owed; a returned buffer becomes the proof
/// bytes — always exactly the fixed expected length — together with exactly
/// one release obligation on the buffer's address.
pub fn settle_prove_outcome(outcome: ProveOutcome) -> (v: BridgeVerdict)
    requires
        outcome matches ProveOutcome::Returned(b) ==> b.bytes@.len() == PROOF_LEN,
    ensures
        outcome is Null <==> v.is_prover_failure(),
        outcome matches ProveOutcome::Returned(b) ==> v matches BridgeVerdict::Proved(p, rel)
            && p@ == b.bytes@ && p@.len() == PROOF_LEN && rel.spec_addr() == b.addr,
{
    match outcome {
        ProveOutcome::Null => BridgeVerdict::Failed(InvocationError::ProverFailed),
        ProveOutcome::Returned(b) => BridgeVerdict::Proved(b.bytes, ReleaseOrder { addr: b.addr }),
    }
}

} // verus!
