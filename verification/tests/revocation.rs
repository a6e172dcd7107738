use guardian_program::access::Role;
use guardian_program::error::ZktGuardianError;
use guardian_program::instructions;
use guardian_program::ledger::GuardianLedger;

const SPEAKER: u64 = 20;
const MANAGER: u64 = 40;
const PAYER: u64 = 77;

fn domain_with_listed_target(is_whitelist: bool) -> (GuardianLedger, u64) {
    let mut ledger = GuardianLedger::new(1, 100, 200);
    assert!(ledger.assign_role(SPEAKER, Role::Speaker));
    assert!(ledger.assign_role(30, Role::Guardian));
    assert!(ledger.assign_role(MANAGER, Role::ProposalManager));
    let id = ledger
        .create_proposal(SPEAKER, vec![5], is_whitelist, String::from("listed"), 1_000)
        .unwrap();
    assert!(ledger.vote_for_proposal(30, id).is_ok());
    assert_eq!(ledger.execute_proposal(PAYER, id, 1), Ok(SPEAKER));
    (ledger, 5)
}

#[test]
fn revocation_requires_the_proposal_manager_role() {
    let (mut ledger, target) = domain_with_listed_target(true);
    let r = ledger.revoke_compliance(SPEAKER, target);
    assert_eq!(r, Err(ZktGuardianError::MustBeProposalManager));
    assert!(instructions::is_whitelist(&ledger.compliance_registry, target));
    assert_eq!(ledger.compliance_registry.whitelists, 1);
}

#[test]
fn revocation_removes_the_record_and_lowers_the_matching_tally() {
    let (mut ledger, target) = domain_with_listed_target(true);
    let r = ledger.revoke_compliance(MANAGER, target);
    // the deposit goes back to the recorded payer
    assert_eq!(r, Ok(PAYER));
    assert_eq!(ledger.compliance_registry.whitelists, 0);
    assert_eq!(ledger.compliance_registry.blacklists, 0);
    // later existence checks find nothing
    assert!(!instructions::is_whitelist(&ledger.compliance_registry, target));
    assert!(!instructions::is_blacklist(&ledger.compliance_registry, target));
    assert!(ledger.compliance_registry.record_for(target).is_none());
}

#[test]
fn revocation_matches_the_stored_polarity() {
    let (mut ledger, target) = domain_with_listed_target(false);
    assert_eq!(ledger.compliance_registry.blacklists, 1);
    let r = ledger.revoke_compliance(MANAGER, target);
    assert_eq!(r, Ok(PAYER));
    assert_eq!(ledger.compliance_registry.blacklists, 0);
    assert_eq!(ledger.compliance_registry.whitelists, 0);
    assert!(!instructions::is_blacklist(&ledger.compliance_registry, target));
}
