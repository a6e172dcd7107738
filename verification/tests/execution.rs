use guardian_program::access::{Access, AccessRegistry, Role};
use guardian_program::compliance::ComplianceRegistry;
use guardian_program::error::ZktGuardianError;
use guardian_program::instructions;
use guardian_program::ledger::GuardianLedger;
use guardian_program::proposal::{ProposalRegistry, ProposalStatus};

const SPEAKER: u64 = 20;
const PAYER: u64 = 77;

fn approved_proposal(ledger: &mut GuardianLedger, targets: Vec<u64>, is_whitelist: bool) -> u64 {
    let id = ledger
        .create_proposal(SPEAKER, targets, is_whitelist, String::from("listed"), 1_000)
        .unwrap();
    assert!(ledger.vote_for_proposal(30, id).is_ok());
    assert_eq!(ledger.get_proposal(id).unwrap().status, ProposalStatus::Approved);
    id
}

fn domain() -> GuardianLedger {
    let mut ledger = GuardianLedger::new(1, 100, 200);
    assert!(ledger.assign_role(SPEAKER, Role::Speaker));
    assert!(ledger.assign_role(30, Role::Guardian));
    assert!(ledger.assign_role(40, Role::ProposalManager));
    ledger
}

#[test]
fn execution_requires_an_approved_proposal() {
    let mut ledger = domain();
    let id = ledger
        .create_proposal(SPEAKER, vec![5], true, String::from("pending"), 1_000)
        .unwrap();
    let r = ledger.execute_proposal(PAYER, id, 1);
    assert_eq!(r, Err(ZktGuardianError::ProposalNotApproved));
    assert!(ledger.get_proposal(id).is_some());
    assert_eq!(ledger.compliance_registry.whitelists, 0);
}

#[test]
fn execution_arity_must_match_the_target_count_exactly() {
    let mut ledger = domain();
    let id = approved_proposal(&mut ledger, vec![5, 6, 7], true);
    assert_eq!(
        ledger.execute_proposal(PAYER, id, 2),
        Err(ZktGuardianError::UnmatchedTargetAccountsLength)
    );
    assert_eq!(
        ledger.execute_proposal(PAYER, id, 4),
        Err(ZktGuardianError::UnmatchedTargetAccountsLength)
    );
    assert_eq!(ledger.compliance_registry.whitelists, 0);
    assert!(ledger.get_proposal(id).is_some());
    assert_eq!(ledger.execute_proposal(PAYER, id, 3), Ok(SPEAKER));
}

#[test]
fn execution_bumps_one_tally_once_whatever_the_batch_size() {
    let mut ledger = domain();
    let id = approved_proposal(&mut ledger, vec![5, 6, 7, 8, 9], true);
    assert_eq!(ledger.execute_proposal(PAYER, id, 5), Ok(SPEAKER));
    // one aggregate bump for five records
    assert_eq!(ledger.compliance_registry.whitelists, 1);
    assert_eq!(ledger.compliance_registry.blacklists, 0);
    for target in [5u64, 6, 7, 8, 9] {
        assert!(instructions::is_whitelist(&ledger.compliance_registry, target));
        let record = ledger.compliance_registry.record_for(target).unwrap();
        assert_eq!(record.payer, PAYER);
        assert_eq!(record.proposal, id);
        assert_eq!(record.speaker, SPEAKER);
        assert_eq!(record.is_whitelist, true);
        assert_eq!(record.description, "listed");
    }
    // the proposal is deleted on execution
    assert!(ledger.get_proposal(id).is_none());
    assert_eq!(ledger.executed, 1);
}

#[test]
fn deny_polarity_bumps_the_other_tally() {
    let mut ledger = domain();
    let id = approved_proposal(&mut ledger, vec![5], false);
    assert_eq!(ledger.execute_proposal(PAYER, id, 1), Ok(SPEAKER));
    assert_eq!(ledger.compliance_registry.whitelists, 0);
    assert_eq!(ledger.compliance_registry.blacklists, 1);
    assert!(instructions::is_blacklist(&ledger.compliance_registry, 5));
    assert!(!instructions::is_whitelist(&ledger.compliance_registry, 5));
}

#[test]
fn re_execution_overwrites_the_record_at_the_same_address() {
    let mut ledger = domain();
    let allow = approved_proposal(&mut ledger, vec![5], true);
    assert_eq!(ledger.execute_proposal(PAYER, allow, 1), Ok(SPEAKER));
    assert!(instructions::is_whitelist(&ledger.compliance_registry, 5));

    let deny = approved_proposal(&mut ledger, vec![5], false);
    assert_eq!(ledger.execute_proposal(88, deny, 1), Ok(SPEAKER));
    // still exactly one record for the target, now with the new proposal's
    // polarity and payer
    assert!(instructions::is_blacklist(&ledger.compliance_registry, 5));
    assert!(!instructions::is_whitelist(&ledger.compliance_registry, 5));
    let record = ledger.compliance_registry.record_for(5).unwrap();
    assert_eq!(record.payer, 88);
    assert_eq!(record.proposal, deny);
    // both executions were tallied
    assert_eq!(ledger.compliance_registry.whitelists, 1);
    assert_eq!(ledger.compliance_registry.blacklists, 1);
}

#[test]
fn lookups_of_unlisted_targets_find_nothing() {
    let ledger = domain();
    assert!(!instructions::is_whitelist(&ledger.compliance_registry, 5));
    assert!(!instructions::is_blacklist(&ledger.compliance_registry, 5));
    assert!(ledger.compliance_registry.record_for(5).is_none());
}

#[test]
fn execution_refuses_a_compliance_registry_of_another_domain() {
    let mut registry = ProposalRegistry::new(100);
    let access = AccessRegistry::new(1);
    let speaker_access = Access { access_registry: 100, role: Role::Speaker, owner: SPEAKER };
    let mut proposal = instructions::create_proposal(
        SPEAKER,
        &speaker_access,
        100,
        &access,
        200,
        &mut registry,
        vec![5],
        true,
        String::from("cross"),
        1_000,
    )
    .unwrap();
    // the guardian snapshot is zero here, so a single vote already carries a
    // strict majority
    let guardian_access = Access { access_registry: 100, role: Role::Guardian, owner: 30 };
    assert!(instructions::vote_for_proposal(
        30,
        &guardian_access,
        100,
        200,
        &mut registry,
        &mut proposal
    )
    .is_ok());
    assert_eq!(proposal.status, ProposalStatus::Approved);

    // a compliance registry scoped to a different access registry
    let mut foreign = ComplianceRegistry::new(999);
    let r = instructions::execute_proposal(PAYER, 0, &proposal, &registry, &mut foreign, 1);
    assert_eq!(r, Err(ZktGuardianError::UnmatchedAccessRegistry));
    assert_eq!(foreign.whitelists, 0);
    assert_eq!(foreign.blacklists, 0);

    // the same registry scoped to the proposal's own domain accepts it
    let mut home = ComplianceRegistry::new(100);
    let r = instructions::execute_proposal(PAYER, 0, &proposal, &registry, &mut home, 1);
    assert_eq!(r, Ok(SPEAKER));
    assert_eq!(home.whitelists, 1);
}
