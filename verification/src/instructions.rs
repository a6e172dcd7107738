//! The governance operations, phrased over host-loaded records: each function
//! takes the registries and records a transaction touches, enforces the
//! role and state preconditions, and applies the effects atomically — on any
//! error nothing has changed.
//!
//! What the host itself guarantees before an operation can run — that the
//! records it hands in exist and are wired to one another — stands in
//! `requires`; every refusal the engine itself decides is a returned error.

use vstd::prelude::*;

use crate::access::{check_grants, grants, Access, AccessRegistry, Role};
use crate::compliance::{execution_record, Compliance, ComplianceRegistry};
use crate::error::ZktGuardianError;
use crate::proposal::{approves, Proposal, ProposalRegistry, ProposalStatus, EXPIRE_SECONDS,
    MAX_TARGET_ACCOUNTS};

verus! {

/// Open a governance domain's access registry: `admin` becomes its
/// administrator and every role counter starts at zero.
pub fn init_access_registry(admin: u64) -> (r: AccessRegistry)
    ensures
        r.admin == admin,
        r.speakers == 0,
        r.voters == 0,
        r.guardians == 0,
        r.proposal_managers == 0,
{
    AccessRegistry::new(admin)
}

/// Open a domain's proposal registry, scoped to the access registry
/// identified by `access_registry`, with every counter at zero.
pub fn init_proposal_registry(access_registry: u64) -> (r: ProposalRegistry)
    ensures
        r.access_registry == access_registry,
        r.pending == 0,
        r.approved == 0,
        r.rejected == 0,
{
    ProposalRegistry::new(access_registry)
}

/// Open a domain's compliance registry, scoped to the access registry
/// identified by `access_registry`, with zero tallies and no records.
pub fn init_compliance_registry(access_registry: u64) -> (r: ComplianceRegistry)
    ensures
        r.access_registry == access_registry,
        r.whitelists == 0,
        r.blacklists == 0,
        r.wf(),
        forall|t: u64| #[trigger] r.spec_record_for(t) is None,
{
    ComplianceRegistry::new(access_registry)
}

/// Create a proposal: the caller must hold the `Speaker` role under the
/// domain's access registry, and the target list must not exceed
/// `MAX_TARGET_ACCOUNTS`. On success the registry's pending counter grows by
/// one and the new proposal starts `Pending`, with the domain's current live
/// guardian count as its quorum snapshot.
pub fn create_proposal(
    speaker: u64,
    access: &Access,
    access_registry_key: u64,
    access_registry: &AccessRegistry,
    proposal_registry_key: u64,
    proposal_registry: &mut ProposalRegistry,
    target_accounts: Vec<u64>,
    is_whitelist: bool,
    description: String,
    now: i64,
) -> (r: Result<Proposal, ZktGuardianError>)
    requires
        old(proposal_registry).access_registry == access_registry_key,
        old(proposal_registry).pending < u64::MAX,
    ensures
        !grants(*access, access_registry_key, speaker, Role::Speaker) ==> r == Err::<Proposal,
        ZktGuardianError>(ZktGuardianError::MustBeSpeaker) && *final(proposal_registry) == *old(
            proposal_registry,
        ),
        grants(*access, access_registry_key, speaker, Role::Speaker) && target_accounts@.len()
            > MAX_TARGET_ACCOUNTS ==> r == Err::<Proposal,
        ZktGuardianError>(ZktGuardianError::TooManyTargetAccounts) && *final(proposal_registry)
            == *old(proposal_registry),
        grants(*access, access_registry_key, speaker, Role::Speaker) && target_accounts@.len()
            <= MAX_TARGET_ACCOUNTS ==> {
            &&& r matches Ok(p)
            &&& p.proposal_registry == proposal_registry_key
            &&& p.speaker == speaker
            &&& p.target_accounts@ == target_accounts@
            &&& p.is_whitelist == is_whitelist
            &&& p.description@ == description@
            &&& p.timestamp == now
            &&& p.status == ProposalStatus::Pending
            &&& p.voters == 0
            &&& p.guardians == access_registry.guardians
            &&& final(proposal_registry).pending == old(proposal_registry).pending + 1
            &&& final(proposal_registry).approved == old(proposal_registry).approved
            &&& final(proposal_registry).rejected == old(proposal_registry).rejected
            &&& final(proposal_registry).access_registry == old(proposal_registry).access_registry
        },
{
    if !check_grants(access, access_registry_key, speaker, Role::Speaker) {
        return Err(ZktGuardianError::MustBeSpeaker);
    }
    Proposal::new(
        proposal_registry_key,
        proposal_registry,
        speaker,
        target_accounts,
        is_whitelist,
        description,
        now,
        access_registry.guardians,
    )
}

/// Cast one guardian vote on a pending proposal. The caller must hold the
/// `Guardian` role under the domain's access registry; the proposal must be
/// `Pending`. The tally grows by one; reaching a strict majority of the
/// quorum snapshot approves the proposal and moves one proposal from the
/// registry's `pending` to its `approved` counter.
pub fn vote_for_proposal(
    guardian: u64,
    access: &Access,
    access_registry_key: u64,
    proposal_registry_key: u64,
    proposal_registry: &mut ProposalRegistry,
    proposal: &mut Proposal,
) -> (r: Result<(), ZktGuardianError>)
    requires
        old(proposal_registry).access_registry == access_registry_key,
        old(proposal).proposal_registry == proposal_registry_key,
        old(proposal).voters < u32::MAX,
        old(proposal).status == ProposalStatus::Pending && approves(
            old(proposal).voters + 1,
            old(proposal).guardians as int,
        ) ==> old(proposal_registry).pending >= 1 && old(proposal_registry).approved < u64::MAX,
    ensures
        !grants(*access, access_registry_key, guardian, Role::Guardian) ==> r == Err::<(),
        ZktGuardianError>(ZktGuardianError::MustBeGuardian) && *final(proposal) == *old(proposal)
            && *final(proposal_registry) == *old(proposal_registry),
        grants(*access, access_registry_key, guardian, Role::Guardian) && old(proposal).status
            != ProposalStatus::Pending ==> r == Err::<(),
        ZktGuardianError>(ZktGuardianError::OnlyPendingProposal) && *final(proposal) == *old(
            proposal,
        ) && *final(proposal_registry) == *old(proposal_registry),
        grants(*access, access_registry_key, guardian, Role::Guardian) && old(proposal).status
            == ProposalStatus::Pending ==> {
            &&& r == Ok::<(), ZktGuardianError>(())
            &&& final(proposal).voters == old(proposal).voters + 1
            &&& final(proposal).same_but_tally(*old(proposal))
            &&& (approves(old(proposal).voters + 1, old(proposal).guardians as int) ==> {
                &&& final(proposal).status == ProposalStatus::Approved
                &&& final(proposal_registry).pending == old(proposal_registry).pending - 1
                &&& final(proposal_registry).approved == old(proposal_registry).approved + 1
                &&& final(proposal_registry).rejected == old(proposal_registry).rejected
                &&& final(proposal_registry).access_registry == old(
                    proposal_registry,
                ).access_registry
            })
            &&& (!approves(old(proposal).voters + 1, old(proposal).guardians as int) ==> {
                &&& final(proposal).status == ProposalStatus::Pending
                &&& *final(proposal_registry) == *old(proposal_registry)
            })
        },
{
    if !check_grants(access, access_registry_key, guardian, Role::Guardian) {
        return Err(ZktGuardianError::MustBeGuardian);
    }
    proposal.vote(proposal_registry)
}

/// Reject a pending proposal that has sat unratified past its seven-day
/// window. Open to any caller. On confirmed expiry the registry moves one
/// proposal from `pending` to `rejected`, and the caller deletes the record,
/// refunding its deposit to the returned speaker.
pub fn reject_expired_proposal(
    proposal: &mut Proposal,
    proposal_registry_key: u64,
    proposal_registry: &mut ProposalRegistry,
    now: i64,
) -> (r: Result<u64, ZktGuardianError>)
    requires
        now >= 0,
        old(proposal).proposal_registry == proposal_registry_key,
        old(proposal).status == ProposalStatus::Pending && now >= old(proposal).timestamp
            + EXPIRE_SECONDS ==> old(proposal_registry).pending >= 1 && old(
            proposal_registry,
        ).rejected < u64::MAX,
    ensures
        *final(proposal) == *old(proposal),
        old(proposal).status != ProposalStatus::Pending ==> r == Err::<u64,
        ZktGuardianError>(ZktGuardianError::OnlyPendingProposal) && *final(proposal_registry)
            == *old(proposal_registry),
        old(proposal).status == ProposalStatus::Pending && now < old(proposal).timestamp
            + EXPIRE_SECONDS ==> r == Err::<u64,
        ZktGuardianError>(ZktGuardianError::ProposalNotExpired) && *final(proposal_registry)
            == *old(proposal_registry),
        old(proposal).status == ProposalStatus::Pending && now >= old(proposal).timestamp
            + EXPIRE_SECONDS ==> {
            &&& r == Ok::<u64, ZktGuardianError>(old(proposal).speaker)
            &&& final(proposal_registry).pending == old(proposal_registry).pending - 1
            &&& final(proposal_registry).rejected == old(proposal_registry).rejected + 1
            &&& final(proposal_registry).approved == old(proposal_registry).approved
            &&& final(proposal_registry).access_registry == old(proposal_registry).access_registry
        },
{
    let speaker = proposal.speaker;
    match proposal.reject_expired(now, proposal_registry) {
        Ok(()) => Ok(speaker),
        Err(e) => Err(e),
    }
}

/// Execute an approved proposal as one atomic batch: the batch arity
/// `batch_len` must equal the proposal's target count exactly, and the
/// compliance registry must belong to the same access domain as the proposal
/// registry. Exactly one polarity tally grows by one — whatever the batch
/// size — and each target, in list order, gets the proposal's record written
/// at its address, created if absent and overwritten if present. The caller
/// then deletes the proposal, refunding its deposit to the returned speaker.
pub fn execute_proposal(
    payer: u64,
    proposal_key: u64,
    proposal: &Proposal,
    proposal_registry: &ProposalRegistry,
    compliance_registry: &mut ComplianceRegistry,
    batch_len: usize,
) -> (r: Result<u64, ZktGuardianError>)
    requires
        old(compliance_registry).wf(),
        1 <= batch_len <= MAX_TARGET_ACCOUNTS,
        old(compliance_registry).whitelists < u64::MAX,
        old(compliance_registry).blacklists < u64::MAX,
    ensures
        final(compliance_registry).wf(),
        proposal.status != ProposalStatus::Approved ==> r == Err::<u64,
        ZktGuardianError>(ZktGuardianError::ProposalNotApproved) && *final(compliance_registry)
            == *old(compliance_registry),
        proposal.status == ProposalStatus::Approved && proposal.target_accounts@.len() != batch_len
            ==> r == Err::<u64,
        ZktGuardianError>(ZktGuardianError::UnmatchedTargetAccountsLength) && *final(compliance_registry) == *old(compliance_registry),
        proposal.status == ProposalStatus::Approved && proposal.target_accounts@.len() == batch_len
            && old(compliance_registry).access_registry != proposal_registry.access_registry ==> r
            == Err::<u64, ZktGuardianError>(ZktGuardianError::UnmatchedAccessRegistry) && *final(compliance_registry) == *old(compliance_registry),
        proposal.status == ProposalStatus::Approved && proposal.target_accounts@.len() == batch_len
            && old(compliance_registry).access_registry == proposal_registry.access_registry ==> {
            &&& r == Ok::<u64, ZktGuardianError>(proposal.speaker)
            &&& (proposal.is_whitelist ==> final(compliance_registry).whitelists == old(
                compliance_registry,
            ).whitelists + 1 && final(compliance_registry).blacklists == old(
                compliance_registry,
            ).blacklists)
            &&& (!proposal.is_whitelist ==> final(compliance_registry).blacklists == old(
                compliance_registry,
            ).blacklists + 1 && final(compliance_registry).whitelists == old(
                compliance_registry,
            ).whitelists)
            &&& final(compliance_registry).access_registry == old(
                compliance_registry,
            ).access_registry
            &&& forall|i: int|
                0 <= i < proposal.target_accounts@.len() ==> final(compliance_registry).spec_record_for(#[trigger] proposal.target_accounts@[i]) == Some(
                    execution_record(payer, proposal_key, *proposal),
                )
            &&& forall|t: u64|
                !proposal.target_accounts@.contains(t) ==> #[trigger] final(compliance_registry).spec_record_for(t) == old(compliance_registry).spec_record_for(t)
        },
{
    if proposal.status != ProposalStatus::Approved {
        return Err(ZktGuardianError::ProposalNotApproved);
    }
    if proposal.target_accounts.len() != batch_len {
        return Err(ZktGuardianError::UnmatchedTargetAccountsLength);
    }
    if compliance_registry.access_registry != proposal_registry.access_registry {
        return Err(ZktGuardianError::UnmatchedAccessRegistry);
    }
    compliance_registry.register(proposal.is_whitelist);
    let ghost tallied = *compliance_registry;
    let targets = &proposal.target_accounts;
    let mut i: usize = 0;
    while i < batch_len
        invariant
            compliance_registry.wf(),
            i <= batch_len,
            batch_len == targets@.len(),
            targets == proposal.target_accounts,
            compliance_registry.whitelists == tallied.whitelists,
            compliance_registry.blacklists == tallied.blacklists,
            compliance_registry.access_registry == tallied.access_registry,
            forall|j: int|
                0 <= j < i ==> compliance_registry.spec_record_for(#[trigger] targets@[j]) == Some(
                    execution_record(payer, proposal_key, *proposal),
                ),
            forall|t: u64|
                !targets@.take(i as int).contains(t) ==> #[trigger] compliance_registry
                    .spec_record_for(t) == tallied.spec_record_for(t),
        decreases batch_len - i,
    {
        let record = Compliance::new(payer, proposal_key, proposal);
        let ghost before = *compliance_registry;
        compliance_registry.upsert_record(targets[i], record);
        proof {
            assert forall|t: u64| !targets@.take(i as int + 1).contains(t) implies #[trigger]
            compliance_registry.spec_record_for(t) == tallied.spec_record_for(t) by {
                if t == targets@[i as int] {
                    assert(targets@.take(i as int + 1)[i as int] == t);
                    assert(targets@.take(i as int + 1).contains(t));
                } else {
                    if targets@.take(i as int).contains(t) {
                        let j = choose|j: int|
                            0 <= j < i as int && targets@.take(i as int)[j] == t;
                        assert(targets@.take(i as int + 1)[j] == t);
                        assert(targets@.take(i as int + 1).contains(t));
                    }
                    assert(before.spec_record_for(t) == tallied.spec_record_for(t));
                }
            }
        }
        i = i + 1;
    }
    proof {
        assert(targets@.take(batch_len as int) =~= targets@);
    }
    Ok(proposal.speaker)
}

/// Revoke one compliance record: the caller must hold the `ProposalManager`
/// role under the compliance registry's access domain. The tally matching
/// the record's stored polarity shrinks by one, the record is deleted — so
/// later lookups of its target find nothing — and the caller refunds the
/// record's deposit to the returned payer.
pub fn revoke_compliance(
    compliance_manager: u64,
    access: &Access,
    access_registry_key: u64,
    compliance_registry: &mut ComplianceRegistry,
    target: u64,
) -> (r: Result<u64, ZktGuardianError>)
    requires
        old(compliance_registry).wf(),
        old(compliance_registry).access_registry == access_registry_key,
        old(compliance_registry).spec_record_for(target) is Some,
        old(compliance_registry).spec_record_for(target) matches Some(c) ==> (c.is_whitelist ==> old(
            compliance_registry,
        ).whitelists >= 1) && (!c.is_whitelist ==> old(compliance_registry).blacklists >= 1),
    ensures
        final(compliance_registry).wf(),
        !grants(*access, access_registry_key, compliance_manager, Role::ProposalManager) ==> r
            == Err::<u64, ZktGuardianError>(ZktGuardianError::MustBeProposalManager) && *final(compliance_registry) == *old(compliance_registry),
        grants(*access, access_registry_key, compliance_manager, Role::ProposalManager) ==> (old(
            compliance_registry,
        ).spec_record_for(target) matches Some(c) ==> {
            &&& r == Ok::<u64, ZktGuardianError>(c.payer)
            &&& (c.is_whitelist ==> final(compliance_registry).whitelists == old(
                compliance_registry,
            ).whitelists - 1 && final(compliance_registry).blacklists == old(
                compliance_registry,
            ).blacklists)
            &&& (!c.is_whitelist ==> final(compliance_registry).blacklists == old(
                compliance_registry,
            ).blacklists - 1 && final(compliance_registry).whitelists == old(
                compliance_registry,
            ).whitelists)
            &&& final(compliance_registry).spec_record_for(target) is None
            &&& forall|t: u64|
                t != target ==> #[trigger] final(compliance_registry).spec_record_for(t) == old(
                    compliance_registry,
                ).spec_record_for(t)
            &&& final(compliance_registry).access_registry == old(
                compliance_registry,
            ).access_registry
        }),
{
    if !check_grants(access, access_registry_key, compliance_manager, Role::ProposalManager) {
        return Err(ZktGuardianError::MustBeProposalManager);
    }
    let removed = compliance_registry.remove_record(target);
    match removed {
        Some(record) => {
            let ghost trimmed = *compliance_registry;
            compliance_registry.revoke(record.is_whitelist);
            proof {
                assert forall|t: u64| t != target implies #[trigger] compliance_registry
                    .spec_record_for(t) == old(compliance_registry).spec_record_for(t) by {
                    assert(trimmed.spec_record_for(t) == old(compliance_registry).spec_record_for(
                        t,
                    ));
                }
            }
            Ok(record.payer)
        },
        None => {
            // unreachable: the record exists by precondition
            Err(ZktGuardianError::MustBeProposalManager)
        },
    }
}

/// Is `target` currently allow-listed under this compliance registry? True
/// exactly when a live record exists for it and carries allow polarity.
pub fn is_whitelist(compliance_registry: &ComplianceRegistry, target: u64) -> (r: bool)
    requires
        compliance_registry.wf(),
    ensures
        r == (compliance_registry.spec_record_for(target) matches Some(c) && c.is_whitelist),
{
    match compliance_registry.record_for(target) {
        Some(record) => record.is_whitelist,
        None => false,
    }
}

/// Is `target` currently deny-listed under this compliance registry? True
/// exactly when a live record exists for it and carries deny polarity.
pub fn is_blacklist(compliance_registry: &ComplianceRegistry, target: u64) -> (r: bool)
    requires
        compliance_registry.wf(),
    ensures
        r == (compliance_registry.spec_record_for(target) matches Some(c) && !c.is_whitelist),
{
    match compliance_registry.record_for(target) {
        Some(record) => !record.is_whitelist,
        None => false,
    }
}

} // verus!
