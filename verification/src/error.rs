//! The error taxonomy of the governance engine. Every failure is synchronous
//! and aborts the whole operation: no partial state change is ever visible.

use vstd::prelude::*;

verus! {

/// Why a governance operation was refused.
#[derive(Clone, Copy, Debug, PartialEq, Eq, Structural)]
pub enum ZktGuardianError {
    /// A vote or an expiry rejection was attempted on a proposal that is not
    /// in the `Pending` state.
    OnlyPendingProposal,
    /// Execution was attempted on a proposal that is not `Approved`.
    ProposalNotApproved,
    /// Expiry rejection was attempted before the seven-day window elapsed.
    ProposalNotExpired,
    /// The batch arity of the execution call differs from the proposal's
    /// target count.
    UnmatchedTargetAccountsLength,
    /// A proposal was created with more than the maximum number of targets.
    TooManyTargetAccounts,
    /// The caller does not hold the `Speaker` role.
    MustBeSpeaker,
    /// The caller does not hold the `Guardian` role.
    MustBeGuardian,
    /// The caller does not hold the `ProposalManager` role.
    MustBeProposalManager,
    /// The compliance registry belongs to a different access domain than the
    /// proposal registry.
    UnmatchedAccessRegistry,
}

impl ZktGuardianError {
    /// A human-readable message for the error.
    pub fn message(&self) -> (r: &'static str)
        ensures
            r@ == self.spec_message(),
    {
        match self {
            ZktGuardianError::OnlyPendingProposal => "Only pending proposal",
            ZktGuardianError::ProposalNotApproved => "Proposal is not approved",
            ZktGuardianError::ProposalNotExpired => "Proposal is not expired",
            ZktGuardianError::UnmatchedTargetAccountsLength => "Unmatched target accounts length",
            ZktGuardianError::TooManyTargetAccounts => "Too many target accounts",
            ZktGuardianError::MustBeSpeaker => "Must be speaker role",
            ZktGuardianError::MustBeGuardian => "Must be guardian role",
            ZktGuardianError::MustBeProposalManager => "Must be proposal manager",
            ZktGuardianError::UnmatchedAccessRegistry => "Unmatched access registry",
        }
    }

    /// The message each variant carries.
    pub open spec fn spec_message(self) -> Seq<char> {
        match self {
            ZktGuardianError::OnlyPendingProposal => "Only pending proposal"@,
            ZktGuardianError::ProposalNotApproved => "Proposal is not approved"@,
            ZktGuardianError::ProposalNotExpired => "Proposal is not expired"@,
            ZktGuardianError::UnmatchedTargetAccountsLength => "Unmatched target accounts length"@,
            ZktGuardianError::TooManyTargetAccounts => "Too many target accounts"@,
            ZktGuardianError::MustBeSpeaker => "Must be speaker role"@,
            ZktGuardianError::MustBeGuardian => "Must be guardian role"@,
            ZktGuardianError::MustBeProposalManager => "Must be proposal manager"@,
            ZktGuardianError::UnmatchedAccessRegistry => "Unmatched access registry"@,
        }
    }
}

} // verus!
