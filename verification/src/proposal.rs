//! The proposal lifecycle: role-gated creation, quorum-weighted voting with a
//! strict-majority rule over the guardian electorate snapshotted at creation,
//! and a time-boxed expiry path.

use vstd::prelude::*;

use crate::error::ZktGuardianError;

verus! {

/// How long a pending proposal stays open to votes before it becomes
/// eligible for expiry rejection: seven days, in seconds.
pub const EXPIRE_SECONDS: i64 = 7 * 24 * 3600;

/// The largest number of target entities one proposal may carry.
pub const MAX_TARGET_ACCOUNTS: usize = 20;

/// Where a proposal stands in its lifecycle. A proposal is created `Pending`;
/// a vote that reaches a strict majority moves it to `Approved`; expiry
/// rejection and execution end its life by deleting the record, so `Rejected`
/// is never stored in a live record.
#[derive(Clone, Copy, Debug, PartialEq, Eq, Structural)]
pub enum ProposalStatus {
    Pending,
    Approved,
    Rejected,
}

impl ProposalStatus {
    /// The lower-case name of the status.
    pub fn name(&self) -> (r: &'static str)
        ensures
            r@ == self.spec_name(),
    {
        match self {
            ProposalStatus::Pending => "pending",
            ProposalStatus::Approved => "approved",
            ProposalStatus::Rejected => "rejected",
        }
    }

    /// The name each status carries.
    pub open spec fn spec_name(self) -> Seq<char> {
        match self {
            ProposalStatus::Pending => "pending"@,
            ProposalStatus::Approved => "approved"@,
            ProposalStatus::Rejected => "rejected"@,
        }
    }
}

/// Aggregate proposal counters for one governance domain. `pending` counts
/// the live pending proposals; `approved` counts every approval ever reached;
/// `rejected` counts every expiry rejection ever confirmed. The latter two
/// are historical tallies and never decrease.
pub struct ProposalRegistry {
    /// The access registry this proposal registry is scoped to.
    pub access_registry: u64,
    /// Live proposals currently in the `Pending` state.
    pub pending: u64,
    /// Proposals that ever reached approval.
    pub approved: u64,
    /// Proposals that were ever rejected on expiry.
    pub rejected: u64,
}

impl ProposalRegistry {
    /// A fresh registry scoped to `access_registry`, with every counter at
    /// zero.
    pub fn new(access_registry: u64) -> (r: ProposalRegistry)
        ensures
            r.access_registry == access_registry,
            r.pending == 0,
            r.approved == 0,
            r.rejected == 0,
    {
        ProposalRegistry { access_registry, pending: 0, approved: 0, rejected: 0 }
    }
}

/// Does a tally of `voters` votes carry a strict majority of an electorate of
/// `guardians`? Ties do not approve.
pub open spec fn approves(voters: int, guardians: int) -> bool {
    2 * voters > guardians
}

/// One proposal to add the target entities to the allow list
/// (`is_whitelist`) or to the deny list (`!is_whitelist`).
pub struct Proposal {
    /// The proposal registry this proposal is owned by.
    pub proposal_registry: u64,
    /// The speaker who raised the proposal; deposits are refunded here.
    pub speaker: u64,
    /// The entities the proposal wants listed, in order.
    pub target_accounts: Vec<u64>,
    /// `true` for allow-list intent, `false` for deny-list intent.
    pub is_whitelist: bool,
    /// Free-text rationale, copied into every compliance record on execution.
    pub description: String,
    /// When the proposal was created, in seconds since the epoch.
    pub timestamp: i64,
    /// Where the proposal stands in its lifecycle.
    pub status: ProposalStatus,
    /// The live vote tally.
    pub voters: u32,
    /// The quorum snapshot: how many guardians were eligible when the
    /// proposal was created. Fixed for the proposal's whole lifetime.
    pub guardians: u32,
}

impl Proposal {
    /// Everything about `self` but the vote tally and the status, unchanged
    /// since `other`.
    pub open spec fn same_but_tally(self, other: Proposal) -> bool {
        &&& self.proposal_registry == other.proposal_registry
        &&& self.speaker == other.speaker
        &&& self.target_accounts@ == other.target_accounts@
        &&& self.is_whitelist == other.is_whitelist
        &&& self.description@ == other.description@
        &&& self.timestamp == other.timestamp
        &&& self.guardians == other.guardians
    }

    /// Create a proposal under `registry` (identified by `registry_key`).
    /// With more than `MAX_TARGET_ACCOUNTS` targets nothing changes and
    /// `TooManyTargetAccounts` comes back; otherwise the registry's pending
    /// counter grows by one and the new proposal starts `Pending` with an
    /// empty tally, `guardians` as its quorum snapshot and `now` as its
    /// creation time.
    pub fn new(
        registry_key: u64,
        registry: &mut ProposalRegistry,
        speaker: u64,
        target_accounts: Vec<u64>,
        is_whitelist: bool,
        description: String,
        now: i64,
        guardians: u32,
    ) -> (r: Result<Proposal, ZktGuardianError>)
        requires
            old(registry).pending < u64::MAX,
        ensures
            target_accounts@.len() > MAX_TARGET_ACCOUNTS ==> r == Err::<Proposal,
            ZktGuardianError>(ZktGuardianError::TooManyTargetAccounts) && *final(registry) == *old(
                registry,
            ),
            target_accounts@.len() <= MAX_TARGET_ACCOUNTS ==> {
                &&& r matches Ok(p)
                &&& p.proposal_registry == registry_key
                &&& p.speaker == speaker
                &&& p.target_accounts@ == target_accounts@
                &&& p.is_whitelist == is_whitelist
                &&& p.description@ == description@
                &&& p.timestamp == now
                &&& p.status == ProposalStatus::Pending
                &&& p.voters == 0
                &&& p.guardians == guardians
                &&& final(registry).pending == old(registry).pending + 1
                &&& final(registry).approved == old(registry).approved
                &&& final(registry).rejected == old(registry).rejected
                &&& final(registry).access_registry == old(registry).access_registry
            },
    {
        if target_accounts.len() > MAX_TARGET_ACCOUNTS {
            return Err(ZktGuardianError::TooManyTargetAccounts);
        }
        registry.pending = registry.pending + 1;
        Ok(
            Proposal {
                proposal_registry: registry_key,
                speaker,
                target_accounts,
                is_whitelist,
                description,
                timestamp: now,
                status: ProposalStatus::Pending,
                voters: 0,
                guardians,
            },
        )
    }

    /// Cast one guardian vote. On a non-pending proposal nothing changes and
    /// `OnlyPendingProposal` comes back. Otherwise the tally grows by one; if
    /// the new tally carries a strict majority of the quorum snapshot the
    /// proposal becomes `Approved` and the registry moves one proposal from
    /// `pending` to `approved`, else everything but the tally stays put.
    pub fn vote(&mut self, registry: &mut ProposalRegistry) -> (r: Result<(), ZktGuardianError>)
        requires
            old(self).voters < u32::MAX,
            old(self).status == ProposalStatus::Pending && approves(
                old(self).voters + 1,
                old(self).guardians as int,
            ) ==> old(registry).pending >= 1 && old(registry).approved < u64::MAX,
        ensures
            old(self).status != ProposalStatus::Pending ==> r == Err::<(),
            ZktGuardianError>(ZktGuardianError::OnlyPendingProposal) && *final(self) == *old(self)
                && *final(registry) == *old(registry),
            old(self).status == ProposalStatus::Pending ==> {
                &&& r == Ok::<(), ZktGuardianError>(())
                &&& final(self).voters == old(self).voters + 1
                &&& final(self).same_but_tally(*old(self))
                &&& (approves(old(self).voters + 1, old(self).guardians as int) ==> {
                    &&& final(self).status == ProposalStatus::Approved
                    &&& final(registry).pending == old(registry).pending - 1
                    &&& final(registry).approved == old(registry).approved + 1
                    &&& final(registry).rejected == old(registry).rejected
                    &&& final(registry).access_registry == old(registry).access_registry
                })
                &&& (!approves(old(self).voters + 1, old(self).guardians as int) ==> {
                    &&& final(self).status == ProposalStatus::Pending
                    &&& *final(registry) == *old(registry)
                })
            },
    {
        if self.status != ProposalStatus::Pending {
            return Err(ZktGuardianError::OnlyPendingProposal);
        }
        self.voters = self.voters + 1;
        if 2 * (self.voters as u64) > (self.guardians as u64) {
            self.status = ProposalStatus::Approved;
            registry.pending = registry.pending - 1;
            registry.approved = registry.approved + 1;
        }
        Ok(())
    }

    /// Confirm that a pending proposal has sat unratified past its seven-day
    /// window and reject it. Eligibility is exactly
    /// `now >= timestamp + EXPIRE_SECONDS`: before that `ProposalNotExpired`
    /// comes back and nothing changes. On confirmed expiry the registry moves
    /// one proposal from `pending` to `rejected`; the record itself is left
    /// untouched for the owner to delete, refunding its deposit to the
    /// speaker. Clock readings are seconds since the epoch and never
    /// negative, which keeps the window arithmetic inside `i64`.
    pub fn reject_expired(&mut self, now: i64, registry: &mut ProposalRegistry) -> (r: Result<
        (),
        ZktGuardianError,
    >)
        requires
            now >= 0,
            old(self).status == ProposalStatus::Pending && now >= old(self).timestamp
                + EXPIRE_SECONDS ==> old(registry).pending >= 1 && old(registry).rejected
                < u64::MAX,
        ensures
            *final(self) == *old(self),
            old(self).status != ProposalStatus::Pending ==> r == Err::<(),
            ZktGuardianError>(ZktGuardianError::OnlyPendingProposal) && *final(registry) == *old(
                registry,
            ),
            old(self).status == ProposalStatus::Pending && now < old(self).timestamp
                + EXPIRE_SECONDS ==> r == Err::<(),
            ZktGuardianError>(ZktGuardianError::ProposalNotExpired) && *final(registry) == *old(
                registry,
            ),
            old(self).status == ProposalStatus::Pending && now >= old(self).timestamp
                + EXPIRE_SECONDS ==> {
                &&& r == Ok::<(), ZktGuardianError>(())
                &&& final(registry).pending == old(registry).pending - 1
                &&& final(registry).rejected == old(registry).rejected + 1
                &&& final(registry).approved == old(registry).approved
                &&& final(registry).access_registry == old(registry).access_registry
            },
    {
        if self.status != ProposalStatus::Pending {
            return Err(ZktGuardianError::OnlyPendingProposal);
        }
        if now - EXPIRE_SECONDS >= self.timestamp {
            registry.pending = registry.pending - 1;
            registry.rejected = registry.rejected + 1;
            Ok(())
        } else {
            Err(ZktGuardianError::ProposalNotExpired)
        }
    }
}

/// The lifecycle discipline: a proposal's status either stays put or moves
/// from `Pending` forward to `Approved` (by a majority vote) or to `Rejected`
/// (by confirmed expiry, where the record is then deleted). No step ever
/// leaves `Approved` or `Rejected` for another state.
pub open spec fn lifecycle_step_allowed(before: ProposalStatus, after: ProposalStatus) -> bool {
    after == before || (before == ProposalStatus::Pending && (after == ProposalStatus::Approved
        || after == ProposalStatus::Rejected))
}

/// A vote moves a proposal only forward: the tally grows by exactly one and
/// a pending proposal stays `Pending` or becomes `Approved` — an allowed
/// lifecycle step, never a backward one.
pub proof fn lemma_vote_moves_forward(before: Proposal, after: Proposal)
    requires
        before.status == ProposalStatus::Pending,
        after.voters == before.voters + 1,
        after.status == (if approves(before.voters + 1, before.guardians as int) {
            ProposalStatus::Approved
        } else {
            ProposalStatus::Pending
        }),
    ensures
        after.voters > before.voters,
        lifecycle_step_allowed(before.status, after.status),
{
}

/// The strict-majority rule in closed form: a tally of `voters` approves an
/// electorate of `guardians` exactly when it reaches `guardians / 2 + 1`.
/// Since the tally grows one vote at a time from zero, that is the first
/// tally at which a proposal becomes approved.
pub proof fn lemma_majority_threshold(guardians: int, voters: int)
    requires
        guardians >= 0,
    ensures
        approves(voters, guardians) <==> voters >= guardians / 2 + 1,
{
    vstd::arithmetic::div_mod::lemma_fundamental_div_mod(guardians, 2);
}

/// Approval is monotone in the tally: once a tally carries a strict
/// majority, every larger tally does too, so a proposal's status never moves
/// backward from `Approved`.
pub proof fn lemma_approval_monotone(guardians: int, smaller: int, larger: int)
    requires
        approves(smaller, guardians),
        smaller <= larger,
    ensures
        approves(larger, guardians),
{
}

} // verus!
