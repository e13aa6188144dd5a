//! Why an onboarding is refused.

use vstd::prelude::*;

verus! {

/// The ways in which an onboarding fails. Every failure leaves the ledger and
/// the records as they were.
#[derive(Clone, Copy, Debug, PartialEq, Eq, Structural)]
pub enum OnboardError {
    /// A metadata field is empty where it must not be, or longer than allowed.
    MetadataEncodingError,
    /// No program-derived address exists for the seeds at hand.
    AddressNotDerivable,
    /// The root recomputed from the leaf and the proof is not the claimed root.
    ProofMismatch,
    /// The ledger refused to burn the onboarding fee.
    InsufficientFunds,
    /// A record already exists at the hotspot's address.
    DuplicateRegistration,
    /// A signer or a relation between the accounts is not as required. The
    /// framework that resolves the accounts reports it; nothing here does.
    AuthorizationError,
}

} // verus!
