use guardian_program::compliance::{Compliance, ComplianceRegistry};
use guardian_program::error::ZktGuardianError;
use guardian_program::proposal::{Proposal, ProposalRegistry, ProposalStatus, EXPIRE_SECONDS};

fn fresh_proposal(registry: &mut ProposalRegistry, guardians: u32) -> Proposal {
    Proposal::new(
        200,
        registry,
        20,
        vec![5, 6],
        true,
        String::from("widen the list"),
        1_000,
        guardians,
    )
    .unwrap()
}

#[test]
fn new_proposal_starts_pending_with_an_empty_tally() {
    let mut registry = ProposalRegistry::new(100);
    let p = fresh_proposal(&mut registry, 3);
    assert_eq!(p.proposal_registry, 200);
    assert_eq!(p.speaker, 20);
    assert_eq!(p.target_accounts, vec![5, 6]);
    assert!(p.is_whitelist);
    assert_eq!(p.description, "widen the list");
    assert_eq!(p.timestamp, 1_000);
    assert_eq!(p.status, ProposalStatus::Pending);
    assert_eq!(p.voters, 0);
    assert_eq!(p.guardians, 3);
    assert_eq!(registry.pending, 1);
}

#[test]
fn new_proposal_rejects_twenty_one_targets_without_touching_the_registry() {
    let mut registry = ProposalRegistry::new(100);
    let targets: Vec<u64> = (0..21).collect();
    let r = Proposal::new(200, &mut registry, 20, targets, true, String::new(), 1_000, 3);
    assert!(matches!(r, Err(ZktGuardianError::TooManyTargetAccounts)));
    assert_eq!(registry.pending, 0);
}

#[test]
fn votes_accumulate_and_approve_at_a_strict_majority() {
    let mut registry = ProposalRegistry::new(100);
    let mut p = fresh_proposal(&mut registry, 3);
    assert_eq!(p.vote(&mut registry), Ok(()));
    assert_eq!(p.voters, 1);
    assert_eq!(p.status, ProposalStatus::Pending);
    assert_eq!((registry.pending, registry.approved), (1, 0));
    assert_eq!(p.vote(&mut registry), Ok(()));
    assert_eq!(p.voters, 2);
    assert_eq!(p.status, ProposalStatus::Approved);
    assert_eq!((registry.pending, registry.approved), (0, 1));
    assert_eq!(p.vote(&mut registry), Err(ZktGuardianError::OnlyPendingProposal));
    assert_eq!(p.voters, 2);
}

#[test]
fn expiry_eligibility_is_now_at_least_timestamp_plus_the_window() {
    let mut registry = ProposalRegistry::new(100);
    let mut p = fresh_proposal(&mut registry, 3);
    assert_eq!(
        p.reject_expired(1_000 + EXPIRE_SECONDS - 1, &mut registry),
        Err(ZktGuardianError::ProposalNotExpired)
    );
    assert_eq!((registry.pending, registry.rejected), (1, 0));
    assert_eq!(p.reject_expired(1_000 + EXPIRE_SECONDS, &mut registry), Ok(()));
    assert_eq!((registry.pending, registry.rejected), (0, 1));
}

#[test]
fn compliance_tallies_move_by_one_per_event() {
    let mut registry = ComplianceRegistry::new(100);
    registry.register(true);
    registry.register(true);
    registry.register(false);
    assert_eq!((registry.whitelists, registry.blacklists), (2, 1));
    registry.revoke(true);
    assert_eq!((registry.whitelists, registry.blacklists), (1, 1));
    registry.revoke(false);
    assert_eq!((registry.whitelists, registry.blacklists), (1, 0));
}

#[test]
fn a_compliance_record_copies_the_proposal_values() {
    let mut registry = ProposalRegistry::new(100);
    let p = fresh_proposal(&mut registry, 3);
    let record = Compliance::new(77, 9, &p);
    assert_eq!(record.payer, 77);
    assert_eq!(record.proposal, 9);
    assert_eq!(record.speaker, 20);
    assert!(record.is_whitelist);
    assert_eq!(record.description, "widen the list");
}

#[test]
fn the_record_store_keeps_one_record_per_target() {
    let mut registry = ComplianceRegistry::new(100);
    let mut proposals = ProposalRegistry::new(100);
    let p = fresh_proposal(&mut proposals, 3);
    registry.upsert_record(5, Compliance::new(77, 0, &p));
    registry.upsert_record(5, Compliance::new(88, 1, &p));
    let record = registry.record_for(5).unwrap();
    assert_eq!(record.payer, 88);
    assert_eq!(record.proposal, 1);
    assert_eq!(registry.remove_record(5).unwrap().payer, 88);
    assert!(registry.record_for(5).is_none());
    assert!(registry.remove_record(5).is_none());
}

#[test]
fn registries_open_empty() {
    let access = guardian_program::instructions::init_access_registry(7);
    assert_eq!(access.admin, 7);
    assert_eq!(access.guardians, 0);
    let proposals = guardian_program::instructions::init_proposal_registry(100);
    assert_eq!(proposals.access_registry, 100);
    assert_eq!((proposals.pending, proposals.approved, proposals.rejected), (0, 0, 0));
    let compliance = guardian_program::instructions::init_compliance_registry(100);
    assert_eq!(compliance.access_registry, 100);
    assert_eq!((compliance.whitelists, compliance.blacklists), (0, 0));
    assert!(compliance.record_for(5).is_none());
}
