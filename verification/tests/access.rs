use guardian_program::access::{AccessRegistry, Role};
use guardian_program::error::ZktGuardianError;
use guardian_program::ledger::GuardianLedger;
use guardian_program::proposal::ProposalStatus;

#[test]
fn role_counters_follow_assignments_and_revocations() {
    let mut ledger = GuardianLedger::new(1, 100, 200);
    assert!(ledger.assign_role(10, Role::Guardian));
    assert!(ledger.assign_role(11, Role::Guardian));
    assert!(ledger.assign_role(12, Role::Guardian));
    assert!(ledger.assign_role(20, Role::Speaker));
    assert_eq!(ledger.access_registry.guardians, 3);
    assert_eq!(ledger.access_registry.speakers, 1);
    assert_eq!(ledger.access_registry.voters, 0);
    assert_eq!(ledger.access_registry.proposal_managers, 0);

    assert!(ledger.revoke_role(11, Role::Guardian));
    assert_eq!(ledger.access_registry.guardians, 2);
    assert!(!ledger.has_role(11, Role::Guardian));
    assert!(ledger.has_role(10, Role::Guardian));
}

#[test]
fn duplicate_assignment_is_rejected() {
    let mut ledger = GuardianLedger::new(1, 100, 200);
    assert!(ledger.assign_role(10, Role::Speaker));
    assert!(!ledger.assign_role(10, Role::Speaker));
    assert_eq!(ledger.access_registry.speakers, 1);
}

#[test]
fn one_principal_may_hold_several_roles() {
    let mut ledger = GuardianLedger::new(1, 100, 200);
    assert!(ledger.assign_role(10, Role::Speaker));
    assert!(ledger.assign_role(10, Role::Guardian));
    assert!(ledger.has_role(10, Role::Speaker));
    assert!(ledger.has_role(10, Role::Guardian));
    assert_eq!(ledger.access_registry.speakers, 1);
    assert_eq!(ledger.access_registry.guardians, 1);
}

#[test]
fn revoking_an_unheld_role_changes_nothing() {
    let mut ledger = GuardianLedger::new(1, 100, 200);
    assert!(ledger.assign_role(10, Role::Voter));
    assert!(!ledger.revoke_role(10, Role::Guardian));
    assert!(!ledger.revoke_role(99, Role::Voter));
    assert_eq!(ledger.access_registry.voters, 1);
}

#[test]
fn registry_constructor_starts_at_zero() {
    let registry = AccessRegistry::new(7);
    assert_eq!(registry.admin, 7);
    assert_eq!(registry.role_counter(Role::Speaker), 0);
    assert_eq!(registry.role_counter(Role::Voter), 0);
    assert_eq!(registry.role_counter(Role::Guardian), 0);
    assert_eq!(registry.role_counter(Role::ProposalManager), 0);
}

#[test]
fn role_names() {
    assert_eq!(Role::Speaker.name(), "speaker");
    assert_eq!(Role::Voter.name(), "voter");
    assert_eq!(Role::Guardian.name(), "guardian");
    assert_eq!(Role::ProposalManager.name(), "proposal_manager");
}

#[test]
fn error_messages() {
    assert_eq!(ZktGuardianError::OnlyPendingProposal.message(), "Only pending proposal");
    assert_eq!(ZktGuardianError::ProposalNotApproved.message(), "Proposal is not approved");
    assert_eq!(ZktGuardianError::ProposalNotExpired.message(), "Proposal is not expired");
    assert_eq!(
        ZktGuardianError::UnmatchedTargetAccountsLength.message(),
        "Unmatched target accounts length"
    );
    assert_eq!(ZktGuardianError::TooManyTargetAccounts.message(), "Too many target accounts");
    assert_eq!(ZktGuardianError::MustBeSpeaker.message(), "Must be speaker role");
    assert_eq!(ZktGuardianError::MustBeGuardian.message(), "Must be guardian role");
    assert_eq!(ZktGuardianError::MustBeProposalManager.message(), "Must be proposal manager");
    assert_eq!(ZktGuardianError::UnmatchedAccessRegistry.message(), "Unmatched access registry");
}

#[test]
fn status_names() {
    assert_eq!(ProposalStatus::Pending.name(), "pending");
    assert_eq!(ProposalStatus::Approved.name(), "approved");
    assert_eq!(ProposalStatus::Rejected.name(), "rejected");
}

#[test]
fn counters_track_a_long_interleaving_of_grants_and_revocations() {
    let mut ledger = GuardianLedger::new(1, 100, 200);
    for owner in 0..6u64 {
        assert!(ledger.assign_role(owner, Role::Guardian));
    }
    assert!(ledger.revoke_role(0, Role::Guardian));
    assert!(ledger.assign_role(6, Role::Guardian));
    assert!(ledger.revoke_role(3, Role::Guardian));
    assert!(ledger.revoke_role(5, Role::Guardian));
    // seven assignments minus three revocations
    assert_eq!(ledger.access_registry.guardians, 4);
    assert!(!ledger.has_role(3, Role::Guardian));
    assert!(ledger.has_role(6, Role::Guardian));
}
