use guardian_program::access::Role;
use guardian_program::instructions;
use guardian_program::ledger::GuardianLedger;
use guardian_program::proposal::ProposalStatus;

/// The whole lifecycle in one run: a domain with three guardians and one
/// speaker; the speaker raises a two-target allow-list proposal with a quorum
/// snapshot of three; the first vote leaves it pending, the second carries a
/// strict majority; executing it through the two-target batch writes both
/// records and bumps the allow tally to exactly one.
#[test]
fn two_target_allow_list_proposal_from_creation_to_execution() {
    let mut ledger = GuardianLedger::new(1, 100, 200);
    assert!(ledger.assign_role(20, Role::Speaker));
    assert!(ledger.assign_role(31, Role::Guardian));
    assert!(ledger.assign_role(32, Role::Guardian));
    assert!(ledger.assign_role(33, Role::Guardian));
    assert_eq!(ledger.access_registry.guardians, 3);

    let id = ledger
        .create_proposal(20, vec![500, 600], true, String::from("open the gates"), 1_000)
        .unwrap();
    assert_eq!(ledger.get_proposal(id).unwrap().guardians, 3);
    assert_eq!(ledger.proposal_registry.pending, 1);

    assert!(ledger.vote_for_proposal(31, id).is_ok());
    // one vote of three (2 <= 3): still pending
    assert_eq!(ledger.get_proposal(id).unwrap().voters, 1);
    assert_eq!(ledger.get_proposal(id).unwrap().status, ProposalStatus::Pending);

    assert!(ledger.vote_for_proposal(32, id).is_ok());
    // two votes of three (4 > 3): approved
    assert_eq!(ledger.get_proposal(id).unwrap().voters, 2);
    assert_eq!(ledger.get_proposal(id).unwrap().status, ProposalStatus::Approved);
    assert_eq!(ledger.proposal_registry.pending, 0);
    assert_eq!(ledger.proposal_registry.approved, 1);

    assert_eq!(ledger.execute_proposal(77, id, 2), Ok(20));
    assert_eq!(ledger.compliance_registry.whitelists, 1);
    assert_eq!(ledger.compliance_registry.blacklists, 0);
    assert!(instructions::is_whitelist(&ledger.compliance_registry, 500));
    assert!(instructions::is_whitelist(&ledger.compliance_registry, 600));
    assert!(ledger.get_proposal(id).is_none());
}
