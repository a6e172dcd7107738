//! One governance domain held together: the access registry with its
//! capability records, the proposal registry with its live proposals, and the
//! compliance registry with its records, all kept consistent by one
//! well-formedness invariant that every operation preserves.

use vstd::prelude::*;

use crate::access::{check_grants, count_role, grants, holds_role, lemma_count_role_nonneg,
    lemma_count_role_push, lemma_count_role_remove, Access, AccessRegistry, Role};
use crate::compliance::{execution_record, ComplianceRegistry};
use crate::error::ZktGuardianError;
use crate::instructions;
use crate::proposal::{approves, Proposal, ProposalRegistry, ProposalStatus, EXPIRE_SECONDS,
    MAX_TARGET_ACCOUNTS};

verus! {

/// One live proposal, addressed by the identifier the domain gave it at
/// creation.
pub struct ProposalEntry {
    /// The identifier, unique among live proposals and fixed for life.
    pub proposal_id: u64,
    /// The proposal itself.
    pub proposal: Proposal,
}

/// How many live proposals are in the given lifecycle state.
pub open spec fn count_with_status(entries: Seq<ProposalEntry>, status: ProposalStatus) -> int
    decreases entries.len(),
{
    if entries.len() == 0 {
        0
    } else {
        count_with_status(entries.drop_last(), status) + if entries.last().proposal.status
            == status {
            1int
        } else {
            0int
        }
    }
}

/// A status count is never negative.
proof fn lemma_count_status_nonneg(entries: Seq<ProposalEntry>, status: ProposalStatus)
    ensures
        count_with_status(entries, status) >= 0,
    decreases entries.len(),
{
    if entries.len() > 0 {
        lemma_count_status_nonneg(entries.drop_last(), status);
    }
}

/// Appending an entry raises exactly its own status's count by one.
proof fn lemma_count_status_push(
    entries: Seq<ProposalEntry>,
    entry: ProposalEntry,
    status: ProposalStatus,
)
    ensures
        count_with_status(entries.push(entry), status) == count_with_status(entries, status)
            + if entry.proposal.status == status {
            1int
        } else {
            0int
        },
{
    assert(entries.push(entry).drop_last() =~= entries);
}

/// Removing the entry at index `i` lowers exactly its own status's count by
/// one.
proof fn lemma_count_status_remove(entries: Seq<ProposalEntry>, i: int, status: ProposalStatus)
    requires
        0 <= i < entries.len(),
    ensures
        count_with_status(entries.remove(i), status) == count_with_status(entries, status) - if
        entries[i].proposal.status == status {
            1int
        } else {
            0int
        },
    decreases entries.len(),
{
    entries.remove_ensures(i);
    if i == entries.len() - 1 {
        assert(entries.remove(i) =~= entries.drop_last());
    } else {
        assert(entries.remove(i).drop_last() =~= entries.drop_last().remove(i));
        lemma_count_status_remove(entries.drop_last(), i, status);
        assert(entries.remove(i).last() == entries.last());
    }
}

/// Replacing the entry at index `i` trades its old status for its new one in
/// the counts.
proof fn lemma_count_status_update(
    entries: Seq<ProposalEntry>,
    i: int,
    entry: ProposalEntry,
    status: ProposalStatus,
)
    requires
        0 <= i < entries.len(),
    ensures
        count_with_status(entries.update(i, entry), status) == count_with_status(entries, status)
            - (if entries[i].proposal.status == status {
            1int
        } else {
            0int
        }) + (if entry.proposal.status == status {
            1int
        } else {
            0int
        }),
    decreases entries.len(),
{
    if i == entries.len() - 1 {
        assert(entries.update(i, entry).drop_last() =~= entries.drop_last());
        assert(entries.update(i, entry).last() == entry);
    } else {
        assert(entries.update(i, entry).drop_last() =~= entries.drop_last().update(i, entry));
        lemma_count_status_update(entries.drop_last(), i, entry, status);
        assert(entries.update(i, entry).last() == entries.last());
    }
}

/// The live proposal with identifier `id`, if any. Lookup runs from the
/// back, but under `distinct_ids` at most one entry can match.
pub open spec fn proposal_for(entries: Seq<ProposalEntry>, id: u64) -> Option<Proposal>
    decreases entries.len(),
{
    if entries.len() == 0 {
        None
    } else if entries.last().proposal_id == id {
        Some(entries.last().proposal)
    } else {
        proposal_for(entries.drop_last(), id)
    }
}

/// No two live proposals share an identifier.
pub open spec fn distinct_ids(entries: Seq<ProposalEntry>) -> bool {
    forall|i: int, j: int|
        0 <= i < j < entries.len() ==> entries[i].proposal_id != entries[j].proposal_id
}

/// An identifier no entry carries resolves to nothing.
proof fn lemma_proposal_for_absent(entries: Seq<ProposalEntry>, id: u64)
    requires
        forall|i: int| 0 <= i < entries.len() ==> entries[i].proposal_id != id,
    ensures
        proposal_for(entries, id) is None,
    decreases entries.len(),
{
    if entries.len() > 0 {
        lemma_proposal_for_absent(entries.drop_last(), id);
    }
}

/// With distinct identifiers, the entry at any index is what its identifier
/// resolves to.
proof fn lemma_proposal_for_present(entries: Seq<ProposalEntry>, i: int)
    requires
        distinct_ids(entries),
        0 <= i < entries.len(),
    ensures
        proposal_for(entries, entries[i].proposal_id) == Some(entries[i].proposal),
    decreases entries.len(),
{
    if i < entries.len() - 1 {
        lemma_proposal_for_present(entries.drop_last(), i);
    }
}

/// Removing the entry at index `i` erases exactly its identifier: that
/// identifier resolves to nothing afterwards, every other identifier
/// resolves as before, and the identifiers stay distinct.
proof fn lemma_proposal_for_remove(entries: Seq<ProposalEntry>, i: int)
    requires
        distinct_ids(entries),
        0 <= i < entries.len(),
    ensures
        distinct_ids(entries.remove(i)),
        proposal_for(entries.remove(i), entries[i].proposal_id) is None,
        forall|id: u64|
            id != entries[i].proposal_id ==> #[trigger] proposal_for(entries.remove(i), id)
                == proposal_for(entries, id),
{
    let rest = entries.remove(i);
    entries.remove_ensures(i);
    let removed_id = entries[i].proposal_id;
    assert forall|k: int| 0 <= k < rest.len() implies rest[k].proposal_id != removed_id by {}
    lemma_proposal_for_absent(rest, entries[i].proposal_id);
    assert forall|id: u64| id != entries[i].proposal_id implies #[trigger] proposal_for(rest, id)
        == proposal_for(entries, id) by {
        if exists|j: int| 0 <= j < entries.len() && entries[j].proposal_id == id {
            let j = choose|j: int| 0 <= j < entries.len() && entries[j].proposal_id == id;
            lemma_proposal_for_present(entries, j);
            let k: int = if j < i {
                j
            } else {
                j - 1
            };
            lemma_proposal_for_present(rest, k);
        } else {
            lemma_proposal_for_absent(entries, id);
            lemma_proposal_for_absent(rest, id);
        }
    }
}

/// Replacing the entry at index `i` with one carrying the same identifier
/// redirects exactly that identifier to the new proposal.
proof fn lemma_proposal_for_update(entries: Seq<ProposalEntry>, i: int, entry: ProposalEntry)
    requires
        distinct_ids(entries),
        0 <= i < entries.len(),
        entry.proposal_id == entries[i].proposal_id,
    ensures
        distinct_ids(entries.update(i, entry)),
        proposal_for(entries.update(i, entry), entry.proposal_id) == Some(entry.proposal),
        forall|id: u64|
            id != entry.proposal_id ==> #[trigger] proposal_for(entries.update(i, entry), id)
                == proposal_for(entries, id),
{
    let updated = entries.update(i, entry);
    lemma_proposal_for_present(updated, i);
    assert forall|id: u64| id != entry.proposal_id implies #[trigger] proposal_for(updated, id)
        == proposal_for(entries, id) by {
        if exists|j: int| 0 <= j < entries.len() && entries[j].proposal_id == id {
            let j = choose|j: int| 0 <= j < entries.len() && entries[j].proposal_id == id;
            lemma_proposal_for_present(entries, j);
            lemma_proposal_for_present(updated, j);
        } else {
            lemma_proposal_for_absent(entries, id);
            lemma_proposal_for_absent(updated, id);
        }
    }
}

/// One governance domain: the three registries that share an access domain,
/// the capability records, and the live proposals.
pub struct GuardianLedger {
    /// The identity of the domain's access registry.
    pub access_registry_key: u64,
    /// The identity of the domain's proposal registry.
    pub proposal_registry_key: u64,
    /// Role membership counters and the domain administrator.
    pub access_registry: AccessRegistry,
    /// The live capability records, at most one per principal and role.
    pub accesses: Vec<Access>,
    /// The domain's proposal counters.
    pub proposal_registry: ProposalRegistry,
    /// The live proposals, each under a unique identifier.
    pub proposals: Vec<ProposalEntry>,
    /// The identifier the next created proposal will get.
    pub next_proposal_id: u64,
    /// How many proposals were ever executed under this domain.
    pub executed: u64,
    /// The domain's compliance tallies and records.
    pub compliance_registry: ComplianceRegistry,
}

impl GuardianLedger {
    /// The domain invariant. Role counters equal the number of live
    /// capability records per role; the pending counter equals the number of
    /// live pending proposals; the approved counter equals the live approved
    /// proposals plus the executed ones; live proposals are only ever
    /// `Pending` or `Approved`; and every record is wired to this domain.
    pub open spec fn wf(&self) -> bool {
        &&& self.access_registry.speakers == count_role(self.accesses@, Role::Speaker)
        &&& self.access_registry.voters == count_role(self.accesses@, Role::Voter)
        &&& self.access_registry.guardians == count_role(self.accesses@, Role::Guardian)
        &&& self.access_registry.proposal_managers == count_role(
            self.accesses@,
            Role::ProposalManager,
        )
        &&& forall|i: int, j: int|
            0 <= i < j < self.accesses@.len() ==> !(self.accesses@[i].owner
                == self.accesses@[j].owner && self.accesses@[i].role == self.accesses@[j].role)
        &&& forall|i: int|
            0 <= i < self.accesses@.len() ==> (#[trigger] self.accesses@[i]).access_registry
                == self.access_registry_key
        &&& self.proposal_registry.access_registry == self.access_registry_key
        &&& self.compliance_registry.access_registry == self.access_registry_key
        &&& self.compliance_registry.wf()
        &&& distinct_ids(self.proposals@)
        &&& forall|i: int|
            0 <= i < self.proposals@.len() ==> (#[trigger] self.proposals@[i]).proposal_id
                < self.next_proposal_id
        &&& forall|i: int|
            0 <= i < self.proposals@.len() ==> (#[trigger] self.proposals@[i]).proposal
                .proposal_registry == self.proposal_registry_key
        &&& forall|i: int|
            0 <= i < self.proposals@.len() ==> (#[trigger] self.proposals@[i]).proposal.status
                == ProposalStatus::Pending || self.proposals@[i].proposal.status
                == ProposalStatus::Approved
        &&& self.proposal_registry.pending == count_with_status(
            self.proposals@,
            ProposalStatus::Pending,
        )
        &&& self.proposal_registry.approved == count_with_status(
            self.proposals@,
            ProposalStatus::Approved,
        ) + self.executed
    }

    /// Does `owner` currently hold `role` under this domain?
    pub open spec fn spec_has_role(&self, owner: u64, role: Role) -> bool {
        holds_role(self.accesses@, self.access_registry_key, owner, role)
    }

    /// The live proposal under `id`, if any.
    pub open spec fn spec_proposal(&self, id: u64) -> Option<Proposal> {
        proposal_for(self.proposals@, id)
    }

    /// The access side (keys, role counters, capability records) did not
    /// move.
    pub open spec fn access_side_unchanged(self, other: GuardianLedger) -> bool {
        &&& self.access_registry_key == other.access_registry_key
        &&& self.proposal_registry_key == other.proposal_registry_key
        &&& self.access_registry == other.access_registry
        &&& self.accesses@ == other.accesses@
    }

    /// The proposal side (counters, live proposals, identifier source,
    /// execution tally) did not move.
    pub open spec fn proposal_side_unchanged(self, other: GuardianLedger) -> bool {
        &&& self.proposal_registry == other.proposal_registry
        &&& self.proposals@ == other.proposals@
        &&& self.next_proposal_id == other.next_proposal_id
        &&& self.executed == other.executed
    }

    /// The compliance side (tallies and records) did not move.
    pub open spec fn compliance_side_unchanged(self, other: GuardianLedger) -> bool {
        &&& self.compliance_registry.access_registry == other.compliance_registry.access_registry
        &&& self.compliance_registry.whitelists == other.compliance_registry.whitelists
        &&& self.compliance_registry.blacklists == other.compliance_registry.blacklists
        &&& self.compliance_registry.records@ == other.compliance_registry.records@
    }

    /// Nothing in the domain moved.
    pub open spec fn unchanged(self, other: GuardianLedger) -> bool {
        &&& self.access_side_unchanged(other)
        &&& self.proposal_side_unchanged(other)
        &&& self.compliance_side_unchanged(other)
    }

    /// A fresh governance domain: `admin` administers the access registry
    /// identified by `access_registry_key`; all counters start at zero and
    /// no records exist.
    pub fn new(admin: u64, access_registry_key: u64, proposal_registry_key: u64) -> (r:
        GuardianLedger)
        ensures
            r.wf(),
            r.access_registry_key == access_registry_key,
            r.proposal_registry_key == proposal_registry_key,
            r.access_registry.admin == admin,
            forall|role: Role| #[trigger] r.access_registry.spec_role_counter(role) == 0,
            r.accesses@.len() == 0,
            r.proposal_registry.pending == 0,
            r.proposal_registry.approved == 0,
            r.proposal_registry.rejected == 0,
            r.proposals@.len() == 0,
            r.next_proposal_id == 0,
            r.executed == 0,
            r.compliance_registry.whitelists == 0,
            r.compliance_registry.blacklists == 0,
            forall|t: u64| #[trigger] r.compliance_registry.spec_record_for(t) is None,
    {
        GuardianLedger {
            access_registry_key,
            proposal_registry_key,
            access_registry: AccessRegistry::new(admin),
            accesses: Vec::new(),
            proposal_registry: ProposalRegistry::new(access_registry_key),
            proposals: Vec::new(),
            next_proposal_id: 0,
            executed: 0,
            compliance_registry: ComplianceRegistry::new(access_registry_key),
        }
    }

    /// Where the capability record proving `owner` holds `role` sits, if
    /// anywhere.
    fn find_access(&self, owner: u64, role: Role) -> (r: Option<usize>)
        ensures
            match r {
                Some(i) => i < self.accesses@.len() && grants(
                    self.accesses@[i as int],
                    self.access_registry_key,
                    owner,
                    role,
                ) && self.spec_has_role(owner, role),
                None => !self.spec_has_role(owner, role),
            },
    {
        let mut i: usize = 0;
        while i < self.accesses.len()
            invariant
                i <= self.accesses@.len(),
                forall|j: int|
                    0 <= j < i ==> !grants(
                        self.accesses@[j],
                        self.access_registry_key,
                        owner,
                        role,
                    ),
            decreases self.accesses@.len() - i,
        {
            if check_grants(&self.accesses[i], self.access_registry_key, owner, role) {
                return Some(i);
            }
            i = i + 1;
        }
        None
    }

    /// Does `owner` currently hold `role` under this domain?
    pub fn has_role(&self, owner: u64, role: Role) -> (r: bool)
        ensures
            r == self.spec_has_role(owner, role),
    {
        self.find_access(owner, role).is_some()
    }

    /// Grant `role` to `owner`: a capability record appears and the role's
    /// counter grows by one. A duplicate grant is rejected: `false` comes
    /// back and nothing changes.
    pub fn assign_role(&mut self, owner: u64, role: Role) -> (r: bool)
        requires
            old(self).wf(),
            old(self).access_registry.spec_role_counter(role) < u32::MAX,
        ensures
            final(self).wf(),
            old(self).spec_has_role(owner, role) ==> r == false && final(self).unchanged(
                *old(self),
            ),
            !old(self).spec_has_role(owner, role) ==> {
                &&& r == true
                &&& forall|o: u64, ro: Role|
                    #[trigger] final(self).spec_has_role(o, ro) <==> (old(self).spec_has_role(o, ro)
                        || (o == owner && ro == role))
                &&& final(self).accesses@ == old(self).accesses@.push(
                    Access {
                        access_registry: old(self).access_registry_key,
                        role,
                        owner,
                    },
                )
                &&& final(self).access_registry.spec_role_counter(role) == old(
                    self,
                ).access_registry.spec_role_counter(role) + 1
                &&& forall|other: Role|
                    other != role ==> final(self).access_registry.spec_role_counter(other) == old(
                        self,
                    ).access_registry.spec_role_counter(other)
                &&& final(self).access_registry.admin == old(self).access_registry.admin
                &&& final(self).access_registry_key == old(self).access_registry_key
                &&& final(self).proposal_registry_key == old(self).proposal_registry_key
                &&& final(self).proposal_side_unchanged(*old(self))
                &&& final(self).compliance_side_unchanged(*old(self))
            },
    {
        match self.find_access(owner, role) {
            Some(_) => false,
            None => {
                self.access_registry.assign_role(role);
                let record = Access { access_registry: self.access_registry_key, role, owner };
                self.accesses.push(record);
                proof {
                    lemma_count_role_push(old(self).accesses@, record, Role::Speaker);
                    lemma_count_role_push(old(self).accesses@, record, Role::Voter);
                    lemma_count_role_push(old(self).accesses@, record, Role::Guardian);
                    lemma_count_role_push(old(self).accesses@, record, Role::ProposalManager);
                    let before = old(self).access_registry;
                    let after = self.access_registry;
                    assert(after.spec_role_counter(Role::Speaker) == if role == Role::Speaker {
                        before.spec_role_counter(Role::Speaker) + 1
                    } else {
                        before.spec_role_counter(Role::Speaker) as int
                    });
                    assert(after.spec_role_counter(Role::Voter) == if role == Role::Voter {
                        before.spec_role_counter(Role::Voter) + 1
                    } else {
                        before.spec_role_counter(Role::Voter) as int
                    });
                    assert(after.spec_role_counter(Role::Guardian) == if role == Role::Guardian {
                        before.spec_role_counter(Role::Guardian) + 1
                    } else {
                        before.spec_role_counter(Role::Guardian) as int
                    });
                    assert(after.spec_role_counter(Role::ProposalManager) == if role
                        == Role::ProposalManager {
                        before.spec_role_counter(Role::ProposalManager) + 1
                    } else {
                        before.spec_role_counter(Role::ProposalManager) as int
                    });
                    assert(grants(
                        self.accesses@[self.accesses@.len() - 1],
                        self.access_registry_key,
                        owner,
                        role,
                    ));
                    let key = self.access_registry_key;
                    let s_old = old(self).accesses@;
                    let s_new = self.accesses@;
                    assert forall|o: u64, ro: Role| #[trigger] self.spec_has_role(o, ro) <==> (old(
                        self,
                    ).spec_has_role(o, ro) || (o == owner && ro == role)) by {
                        if old(self).spec_has_role(o, ro) {
                            let j = choose|j: int|
                                0 <= j < s_old.len() && grants(s_old[j], key, o, ro);
                            assert(grants(s_new[j], key, o, ro));
                        }
                        if o == owner && ro == role {
                            assert(grants(s_new[s_new.len() - 1], key, o, ro));
                        }
                        if self.spec_has_role(o, ro) && !(o == owner && ro == role) {
                            let j = choose|j: int|
                                0 <= j < s_new.len() && grants(s_new[j], key, o, ro);
                            assert(j < s_old.len());
                            assert(grants(s_old[j], key, o, ro));
                        }
                    }
                }
                true
            },
        }
    }

    /// Revoke `role` from `owner`: the capability record disappears and the
    /// role's counter shrinks by one. Revoking a role that is not held is
    /// rejected: `false` comes back and nothing changes.
    pub fn revoke_role(&mut self, owner: u64, role: Role) -> (r: bool)
        requires
            old(self).wf(),
        ensures
            final(self).wf(),
            !old(self).spec_has_role(owner, role) ==> r == false && final(self).unchanged(
                *old(self),
            ),
            old(self).spec_has_role(owner, role) ==> {
                &&& r == true
                &&& forall|o: u64, ro: Role|
                    #[trigger] final(self).spec_has_role(o, ro) <==> (old(self).spec_has_role(o, ro)
                        && !(o == owner && ro == role))
                &&& exists|i: int|
                    0 <= i < old(self).accesses@.len() && grants(
                        old(self).accesses@[i],
                        old(self).access_registry_key,
                        owner,
                        role,
                    ) && final(self).accesses@ == old(self).accesses@.remove(i)
                &&& final(self).access_registry.spec_role_counter(role) == old(
                    self,
                ).access_registry.spec_role_counter(role) - 1
                &&& forall|other: Role|
                    other != role ==> final(self).access_registry.spec_role_counter(other) == old(
                        self,
                    ).access_registry.spec_role_counter(other)
                &&& final(self).access_registry.admin == old(self).access_registry.admin
                &&& final(self).access_registry_key == old(self).access_registry_key
                &&& final(self).proposal_registry_key == old(self).proposal_registry_key
                &&& final(self).proposal_side_unchanged(*old(self))
                &&& final(self).compliance_side_unchanged(*old(self))
            },
    {
        match self.find_access(owner, role) {
            None => false,
            Some(i) => {
                proof {
                    lemma_count_role_remove(self.accesses@, i as int, Role::Speaker);
                    lemma_count_role_remove(self.accesses@, i as int, Role::Voter);
                    lemma_count_role_remove(self.accesses@, i as int, Role::Guardian);
                    lemma_count_role_remove(self.accesses@, i as int, Role::ProposalManager);
                    lemma_count_role_nonneg(self.accesses@.remove(i as int), role);
                }
                self.accesses.remove(i);
                self.access_registry.revoke_role(role);
                proof {
                    let before = old(self).access_registry;
                    let after = self.access_registry;
                    assert(after.spec_role_counter(Role::Speaker) == if role == Role::Speaker {
                        before.spec_role_counter(Role::Speaker) - 1
                    } else {
                        before.spec_role_counter(Role::Speaker) as int
                    });
                    assert(after.spec_role_counter(Role::Voter) == if role == Role::Voter {
                        before.spec_role_counter(Role::Voter) - 1
                    } else {
                        before.spec_role_counter(Role::Voter) as int
                    });
                    assert(after.spec_role_counter(Role::Guardian) == if role == Role::Guardian {
                        before.spec_role_counter(Role::Guardian) - 1
                    } else {
                        before.spec_role_counter(Role::Guardian) as int
                    });
                    assert(after.spec_role_counter(Role::ProposalManager) == if role
                        == Role::ProposalManager {
                        before.spec_role_counter(Role::ProposalManager) - 1
                    } else {
                        before.spec_role_counter(Role::ProposalManager) as int
                    });
                    assert forall|j: int|
                        0 <= j < self.accesses@.len() implies !grants(
                        self.accesses@[j],
                        self.access_registry_key,
                        owner,
                        role,
                    ) by {
                        old(self).accesses@.remove_ensures(i as int);
                    }
                    let key = self.access_registry_key;
                    let s_old = old(self).accesses@;
                    let s_new = self.accesses@;
                    assert forall|o: u64, ro: Role| #[trigger] self.spec_has_role(o, ro) <==> (old(
                        self,
                    ).spec_has_role(o, ro) && !(o == owner && ro == role)) by {
                        s_old.remove_ensures(i as int);
                        if self.spec_has_role(o, ro) {
                            let j = choose|j: int|
                                0 <= j < s_new.len() && grants(s_new[j], key, o, ro);
                            let j_old: int = if j < i as int {
                                j
                            } else {
                                j + 1
                            };
                            assert(grants(s_old[j_old], key, o, ro));
                            if o == owner && ro == role {
                                // at most one record carries this owner and
                                // role, and it sat at the removed index
                                assert(s_old[j_old].owner == s_old[i as int].owner);
                                assert(s_old[j_old].role == s_old[i as int].role);
                                assert(false);
                            }
                        }
                        if old(self).spec_has_role(o, ro) && !(o == owner && ro == role) {
                            let j = choose|j: int|
                                0 <= j < s_old.len() && grants(s_old[j], key, o, ro);
                            let j_new: int = if j < i as int {
                                j
                            } else {
                                j - 1
                            };
                            assert(j != i as int);
                            assert(grants(s_new[j_new], key, o, ro));
                        }
                    }
                }
                true
            },
        }
    }

    /// Where the live proposal under `proposal_id` sits, if anywhere.
    fn find_proposal(&self, proposal_id: u64) -> (r: Option<usize>)
        requires
            distinct_ids(self.proposals@),
        ensures
            match r {
                Some(i) => i < self.proposals@.len() && self.proposals@[i as int].proposal_id
                    == proposal_id && self.spec_proposal(proposal_id) == Some(
                    self.proposals@[i as int].proposal,
                ),
                None => self.spec_proposal(proposal_id) is None,
            },
    {
        let mut i: usize = 0;
        while i < self.proposals.len()
            invariant
                distinct_ids(self.proposals@),
                i <= self.proposals@.len(),
                forall|j: int| 0 <= j < i ==> self.proposals@[j].proposal_id != proposal_id,
            decreases self.proposals@.len() - i,
        {
            if self.proposals[i].proposal_id == proposal_id {
                proof {
                    lemma_proposal_for_present(self.proposals@, i as int);
                }
                return Some(i);
            }
            i = i + 1;
        }
        proof {
            lemma_proposal_for_absent(self.proposals@, proposal_id);
        }
        None
    }

    /// Read the live proposal under `proposal_id`, if any.
    pub fn get_proposal(&self, proposal_id: u64) -> (r: Option<&Proposal>)
        requires
            self.wf(),
        ensures
            match r {
                Some(p) => self.spec_proposal(proposal_id) == Some(*p),
                None => self.spec_proposal(proposal_id) is None,
            },
    {
        match self.find_proposal(proposal_id) {
            Some(i) => Some(&self.proposals[i].proposal),
            None => None,
        }
    }

    /// Raise a proposal. The caller must hold the `Speaker` role and the
    /// target list must not exceed `MAX_TARGET_ACCOUNTS`; otherwise nothing
    /// changes and the matching error comes back. On success the domain hands
    /// out a fresh identifier, the pending counter grows by one, and the new
    /// proposal starts `Pending` with the current live guardian count as its
    /// quorum snapshot and `now` as its creation time.
    pub fn create_proposal(
        &mut self,
        speaker: u64,
        target_accounts: Vec<u64>,
        is_whitelist: bool,
        description: String,
        now: i64,
    ) -> (r: Result<u64, ZktGuardianError>)
        requires
            old(self).wf(),
            old(self).next_proposal_id < u64::MAX,
            old(self).proposal_registry.pending < u64::MAX,
        ensures
            final(self).wf(),
            !old(self).spec_has_role(speaker, Role::Speaker) ==> r == Err::<u64,
            ZktGuardianError>(ZktGuardianError::MustBeSpeaker) && final(self).unchanged(*old(self)),
            old(self).spec_has_role(speaker, Role::Speaker) && target_accounts@.len()
                > MAX_TARGET_ACCOUNTS ==> r == Err::<u64,
            ZktGuardianError>(ZktGuardianError::TooManyTargetAccounts) && final(self).unchanged(
                *old(self),
            ),
            old(self).spec_has_role(speaker, Role::Speaker) && target_accounts@.len()
                <= MAX_TARGET_ACCOUNTS ==> {
                &&& r == Ok::<u64, ZktGuardianError>(old(self).next_proposal_id)
                &&& final(self).next_proposal_id == old(self).next_proposal_id + 1
                &&& final(self).proposals@.len() == old(self).proposals@.len() + 1
                &&& (final(self).spec_proposal(old(self).next_proposal_id) matches Some(p) && {
                    &&& p.proposal_registry == old(self).proposal_registry_key
                    &&& p.speaker == speaker
                    &&& p.target_accounts@ == target_accounts@
                    &&& p.is_whitelist == is_whitelist
                    &&& p.description@ == description@
                    &&& p.timestamp == now
                    &&& p.status == ProposalStatus::Pending
                    &&& p.voters == 0
                    &&& p.guardians == old(self).access_registry.guardians
                })
                &&& forall|id: u64|
                    id != old(self).next_proposal_id ==> final(self).spec_proposal(id) == old(
                        self,
                    ).spec_proposal(id)
                &&& final(self).proposal_registry.pending == old(self).proposal_registry.pending
                    + 1
                &&& final(self).proposal_registry.approved == old(self).proposal_registry.approved
                &&& final(self).proposal_registry.rejected == old(self).proposal_registry.rejected
                &&& final(self).executed == old(self).executed
                &&& final(self).access_side_unchanged(*old(self))
                &&& final(self).compliance_side_unchanged(*old(self))
            },
    {
        let access_index = match self.find_access(speaker, Role::Speaker) {
            None => {
                return Err(ZktGuardianError::MustBeSpeaker);
            },
            Some(i) => i,
        };
        let access = self.accesses[access_index];
        let created = instructions::create_proposal(
            speaker,
            &access,
            self.access_registry_key,
            &self.access_registry,
            self.proposal_registry_key,
            &mut self.proposal_registry,
            target_accounts,
            is_whitelist,
            description,
            now,
        );
        match created {
            Err(e) => Err(e),
            Ok(p) => {
                let id = self.next_proposal_id;
                let entry = ProposalEntry { proposal_id: id, proposal: p };
                proof {
                    lemma_count_status_push(self.proposals@, entry, ProposalStatus::Pending);
                    lemma_count_status_push(self.proposals@, entry, ProposalStatus::Approved);
                }
                let ghost before_push = self.proposals@;
                self.proposals.push(entry);
                self.next_proposal_id = id + 1;
                proof {
                    assert(self.proposals@.drop_last() =~= before_push);
                    assert forall|i: int, j: int|
                        0 <= i < j < self.proposals@.len() implies self.proposals@[i].proposal_id
                        != self.proposals@[j].proposal_id by {
                        if j == self.proposals@.len() - 1 {
                            assert(before_push[i].proposal_id < id);
                        }
                    }
                    assert forall|id2: u64| id2 != id implies #[trigger] proposal_for(
                        self.proposals@,
                        id2,
                    ) == proposal_for(before_push, id2) by {}
                }
                Ok(id)
            },
        }
    }

    /// Cast one guardian vote on the live proposal under `proposal_id`. The
    /// caller must hold the `Guardian` role and the proposal must be
    /// `Pending`; otherwise nothing changes and the matching error comes
    /// back. The tally grows by one; reaching a strict majority of the quorum
    /// snapshot approves the proposal and moves one proposal from the
    /// domain's `pending` to its `approved` counter.
    pub fn vote_for_proposal(&mut self, guardian: u64, proposal_id: u64) -> (r: Result<
        (),
        ZktGuardianError,
    >)
        requires
            old(self).wf(),
            old(self).spec_proposal(proposal_id) is Some,
            old(self).spec_proposal(proposal_id) matches Some(p) ==> p.voters < u32::MAX,
            old(self).proposal_registry.approved < u64::MAX,
        ensures
            final(self).wf(),
            !old(self).spec_has_role(guardian, Role::Guardian) ==> r == Err::<(),
            ZktGuardianError>(ZktGuardianError::MustBeGuardian) && final(self).unchanged(
                *old(self),
            ),
            old(self).spec_has_role(guardian, Role::Guardian) ==> (old(self).spec_proposal(
                proposal_id,
            ) matches Some(p) ==> {
                &&& (p.status != ProposalStatus::Pending ==> r == Err::<(),
                ZktGuardianError>(ZktGuardianError::OnlyPendingProposal) && final(self).unchanged(
                    *old(self),
                ))
                &&& (p.status == ProposalStatus::Pending ==> {
                    &&& r == Ok::<(), ZktGuardianError>(())
                    &&& (final(self).spec_proposal(proposal_id) matches Some(q) && {
                        &&& q.voters == p.voters + 1
                        &&& q.same_but_tally(p)
                        &&& q.status == (if approves(p.voters + 1, p.guardians as int) {
                            ProposalStatus::Approved
                        } else {
                            ProposalStatus::Pending
                        })
                    })
                    &&& forall|id: u64|
                        id != proposal_id ==> final(self).spec_proposal(id) == old(
                            self,
                        ).spec_proposal(id)
                    &&& final(self).proposals@.len() == old(self).proposals@.len()
                    &&& (approves(p.voters + 1, p.guardians as int) ==> {
                        &&& final(self).proposal_registry.pending == old(
                            self,
                        ).proposal_registry.pending - 1
                        &&& final(self).proposal_registry.approved == old(
                            self,
                        ).proposal_registry.approved + 1
                    })
                    &&& (!approves(p.voters + 1, p.guardians as int) ==> final(self).proposal_registry == old(self).proposal_registry)
                    &&& final(self).proposal_registry.rejected == old(
                        self,
                    ).proposal_registry.rejected
                    &&& final(self).next_proposal_id == old(self).next_proposal_id
                    &&& final(self).executed == old(self).executed
                    &&& final(self).access_side_unchanged(*old(self))
                    &&& final(self).compliance_side_unchanged(*old(self))
                })
            }),
    {
        let access_index = match self.find_access(guardian, Role::Guardian) {
            None => {
                return Err(ZktGuardianError::MustBeGuardian);
            },
            Some(i) => i,
        };
        let access = self.accesses[access_index];
        let proposal_index = match self.find_proposal(proposal_id) {
            Some(i) => i,
            None => {
                // unreachable: the proposal exists by precondition
                proof {
                    assert(false);
                }
                return Err(ZktGuardianError::OnlyPendingProposal);
            },
        };
        proof {
            lemma_proposal_for_remove(self.proposals@, proposal_index as int);
            lemma_count_status_remove(
                self.proposals@,
                proposal_index as int,
                ProposalStatus::Pending,
            );
            lemma_count_status_remove(
                self.proposals@,
                proposal_index as int,
                ProposalStatus::Approved,
            );
            lemma_count_status_nonneg(
                self.proposals@.remove(proposal_index as int),
                ProposalStatus::Pending,
            );
        }
        let mut entry = self.proposals.remove(proposal_index);
        let outcome = instructions::vote_for_proposal(
            guardian,
            &access,
            self.access_registry_key,
            self.proposal_registry_key,
            &mut self.proposal_registry,
            &mut entry.proposal,
        );
        let ghost entry_after = entry;
        self.proposals.insert(proposal_index, entry);
        proof {
            old(self).proposals@.remove_ensures(proposal_index as int);
            old(self).proposals@.remove(proposal_index as int).insert_ensures(
                proposal_index as int,
                entry_after,
            );
            assert(self.proposals@ =~= old(self).proposals@.update(
                proposal_index as int,
                entry_after,
            ));
            lemma_count_status_update(
                old(self).proposals@,
                proposal_index as int,
                entry_after,
                ProposalStatus::Pending,
            );
            lemma_count_status_update(
                old(self).proposals@,
                proposal_index as int,
                entry_after,
                ProposalStatus::Approved,
            );
            lemma_proposal_for_update(old(self).proposals@, proposal_index as int, entry_after);
            if outcome is Err {
                assert(self.proposals@ =~= old(self).proposals@);
            }
        }
        outcome
    }

    /// Reject the live proposal under `proposal_id` once it has sat
    /// unratified past its seven-day window: eligibility is exactly
    /// `now >= timestamp + EXPIRE_SECONDS`. Open to any caller. On confirmed
    /// expiry the proposal is deleted, one proposal moves from the domain's
    /// `pending` to its `rejected` counter, and the deposit is refunded to
    /// the returned speaker. Clock readings are seconds since the epoch and
    /// never negative.
    pub fn reject_expired_proposal(&mut self, proposal_id: u64, now: i64) -> (r: Result<
        u64,
        ZktGuardianError,
    >)
        requires
            old(self).wf(),
            old(self).spec_proposal(proposal_id) is Some,
            now >= 0,
            old(self).proposal_registry.rejected < u64::MAX,
        ensures
            final(self).wf(),
            old(self).spec_proposal(proposal_id) matches Some(p) ==> ({
                &&& (p.status != ProposalStatus::Pending ==> r == Err::<u64,
                ZktGuardianError>(ZktGuardianError::OnlyPendingProposal) && final(self).unchanged(
                    *old(self),
                ))
                &&& (p.status == ProposalStatus::Pending && now < p.timestamp + EXPIRE_SECONDS
                    ==> r == Err::<u64, ZktGuardianError>(ZktGuardianError::ProposalNotExpired)
                    && final(self).unchanged(*old(self)))
                &&& (p.status == ProposalStatus::Pending && now >= p.timestamp + EXPIRE_SECONDS
                    ==> {
                    &&& r == Ok::<u64, ZktGuardianError>(p.speaker)
                    &&& final(self).spec_proposal(proposal_id) is None
                    &&& forall|id: u64|
                        id != proposal_id ==> final(self).spec_proposal(id) == old(
                            self,
                        ).spec_proposal(id)
                    &&& final(self).proposals@.len() == old(self).proposals@.len() - 1
                    &&& final(self).proposal_registry.pending == old(
                        self,
                    ).proposal_registry.pending - 1
                    &&& final(self).proposal_registry.rejected == old(
                        self,
                    ).proposal_registry.rejected + 1
                    &&& final(self).proposal_registry.approved == old(
                        self,
                    ).proposal_registry.approved
                    &&& final(self).next_proposal_id == old(self).next_proposal_id
                    &&& final(self).executed == old(self).executed
                    &&& final(self).access_side_unchanged(*old(self))
                    &&& final(self).compliance_side_unchanged(*old(self))
                })
            }),
    {
        let proposal_index = match self.find_proposal(proposal_id) {
            Some(i) => i,
            None => {
                // unreachable: the proposal exists by precondition
                proof {
                    assert(false);
                }
                return Err(ZktGuardianError::OnlyPendingProposal);
            },
        };
        proof {
            lemma_proposal_for_remove(self.proposals@, proposal_index as int);
            lemma_count_status_remove(
                self.proposals@,
                proposal_index as int,
                ProposalStatus::Pending,
            );
            lemma_count_status_remove(
                self.proposals@,
                proposal_index as int,
                ProposalStatus::Approved,
            );
            lemma_count_status_nonneg(
                self.proposals@.remove(proposal_index as int),
                ProposalStatus::Pending,
            );
        }
        let mut entry = self.proposals.remove(proposal_index);
        let outcome = instructions::reject_expired_proposal(
            &mut entry.proposal,
            self.proposal_registry_key,
            &mut self.proposal_registry,
            now,
        );
        match outcome {
            Ok(speaker) => Ok(speaker),
            Err(e) => {
                self.proposals.insert(proposal_index, entry);
                proof {
                    old(self).proposals@.remove_ensures(proposal_index as int);
                    old(self).proposals@.remove(proposal_index as int).insert_ensures(
                        proposal_index as int,
                        entry,
                    );
                    assert(self.proposals@ =~= old(self).proposals@);
                }
                Err(e)
            },
        }
    }

    /// Execute the approved live proposal under `proposal_id` as one atomic
    /// batch of `batch_len` targets. The arity must equal the proposal's
    /// target count exactly; otherwise nothing changes and the matching error
    /// comes back. Exactly one polarity tally grows by one — whatever the
    /// batch size — every target gets the proposal's record written at its
    /// address, the proposal is deleted, the execution tally grows by one,
    /// and the deposit is refunded to the returned speaker.
    pub fn execute_proposal(&mut self, payer: u64, proposal_id: u64, batch_len: usize) -> (r:
        Result<u64, ZktGuardianError>)
        requires
            old(self).wf(),
            old(self).spec_proposal(proposal_id) is Some,
            1 <= batch_len <= MAX_TARGET_ACCOUNTS,
            old(self).compliance_registry.whitelists < u64::MAX,
            old(self).compliance_registry.blacklists < u64::MAX,
        ensures
            final(self).wf(),
            old(self).spec_proposal(proposal_id) matches Some(p) ==> ({
                &&& (p.status != ProposalStatus::Approved ==> r == Err::<u64,
                ZktGuardianError>(ZktGuardianError::ProposalNotApproved) && final(self).unchanged(
                    *old(self),
                ))
                &&& (p.status == ProposalStatus::Approved && p.target_accounts@.len() != batch_len
                    ==> r == Err::<u64,
                ZktGuardianError>(ZktGuardianError::UnmatchedTargetAccountsLength) && final(self).unchanged(*old(self)))
                &&& (p.status == ProposalStatus::Approved && p.target_accounts@.len() == batch_len
                    ==> {
                    &&& r == Ok::<u64, ZktGuardianError>(p.speaker)
                    &&& final(self).spec_proposal(proposal_id) is None
                    &&& forall|id: u64|
                        id != proposal_id ==> final(self).spec_proposal(id) == old(
                            self,
                        ).spec_proposal(id)
                    &&& final(self).proposals@.len() == old(self).proposals@.len() - 1
                    &&& final(self).executed == old(self).executed + 1
                    &&& final(self).proposal_registry == old(self).proposal_registry
                    &&& (p.is_whitelist ==> final(self).compliance_registry.whitelists == old(
                        self,
                    ).compliance_registry.whitelists + 1 && final(self).compliance_registry
                        .blacklists == old(self).compliance_registry.blacklists)
                    &&& (!p.is_whitelist ==> final(self).compliance_registry.blacklists == old(
                        self,
                    ).compliance_registry.blacklists + 1 && final(self).compliance_registry
                        .whitelists == old(self).compliance_registry.whitelists)
                    &&& forall|i: int|
                        0 <= i < p.target_accounts@.len() ==> final(self).compliance_registry.spec_record_for(
                            #[trigger] p.target_accounts@[i],
                        ) == Some(execution_record(payer, proposal_id, p))
                    &&& forall|t: u64|
                        !p.target_accounts@.contains(t) ==> #[trigger] final(self).compliance_registry.spec_record_for(t) == old(
                            self,
                        ).compliance_registry.spec_record_for(t)
                    &&& final(self).next_proposal_id == old(self).next_proposal_id
                    &&& final(self).access_side_unchanged(*old(self))
                })
            }),
    {
        let proposal_index = match self.find_proposal(proposal_id) {
            Some(i) => i,
            None => {
                // unreachable: the proposal exists by precondition
                proof {
                    assert(false);
                }
                return Err(ZktGuardianError::ProposalNotApproved);
            },
        };
        let outcome = instructions::execute_proposal(
            payer,
            proposal_id,
            &self.proposals[proposal_index].proposal,
            &self.proposal_registry,
            &mut self.compliance_registry,
            batch_len,
        );
        match outcome {
            Err(e) => Err(e),
            Ok(speaker) => {
                proof {
                    lemma_proposal_for_remove(self.proposals@, proposal_index as int);
                    lemma_count_status_remove(
                        self.proposals@,
                        proposal_index as int,
                        ProposalStatus::Pending,
                    );
                    lemma_count_status_remove(
                        self.proposals@,
                        proposal_index as int,
                        ProposalStatus::Approved,
                    );
                    lemma_count_status_nonneg(
                        self.proposals@.remove(proposal_index as int),
                        ProposalStatus::Approved,
                    );
                }
                self.proposals.remove(proposal_index);
                self.executed = self.executed + 1;
                Ok(speaker)
            },
        }
    }

    /// Revoke the compliance record for `target`. The caller must hold the
    /// `ProposalManager` role; otherwise nothing changes and
    /// `MustBeProposalManager` comes back. The tally matching the record's
    /// stored polarity shrinks by one, the record is deleted — later lookups
    /// of the target find nothing — and the deposit is refunded to the
    /// returned payer.
    pub fn revoke_compliance(&mut self, compliance_manager: u64, target: u64) -> (r: Result<
        u64,
        ZktGuardianError,
    >)
        requires
            old(self).wf(),
            old(self).compliance_registry.spec_record_for(target) is Some,
            old(self).compliance_registry.spec_record_for(target) matches Some(c) ==> (
            c.is_whitelist ==> old(self).compliance_registry.whitelists >= 1) && (!c.is_whitelist
                ==> old(self).compliance_registry.blacklists >= 1),
        ensures
            final(self).wf(),
            !old(self).spec_has_role(compliance_manager, Role::ProposalManager) ==> r == Err::<u64,
            ZktGuardianError>(ZktGuardianError::MustBeProposalManager) && final(self).unchanged(
                *old(self),
            ),
            old(self).spec_has_role(compliance_manager, Role::ProposalManager) ==> (old(
                self,
            ).compliance_registry.spec_record_for(target) matches Some(c) ==> {
                &&& r == Ok::<u64, ZktGuardianError>(c.payer)
                &&& final(self).compliance_registry.spec_record_for(target) is None
                &&& forall|t: u64|
                    t != target ==> #[trigger] final(self).compliance_registry.spec_record_for(t)
                        == old(self).compliance_registry.spec_record_for(t)
                &&& (c.is_whitelist ==> final(self).compliance_registry.whitelists == old(
                    self,
                ).compliance_registry.whitelists - 1 && final(self).compliance_registry.blacklists
                    == old(self).compliance_registry.blacklists)
                &&& (!c.is_whitelist ==> final(self).compliance_registry.blacklists == old(
                    self,
                ).compliance_registry.blacklists - 1 && final(self).compliance_registry.whitelists
                    == old(self).compliance_registry.whitelists)
                &&& final(self).access_side_unchanged(*old(self))
                &&& final(self).proposal_side_unchanged(*old(self))
            }),
    {
        let access_index = match self.find_access(compliance_manager, Role::ProposalManager) {
            None => {
                return Err(ZktGuardianError::MustBeProposalManager);
            },
            Some(i) => i,
        };
        let access = self.accesses[access_index];
        instructions::revoke_compliance(
            compliance_manager,
            &access,
            self.access_registry_key,
            &mut self.compliance_registry,
            target,
        )
    }
}

/// When every live proposal is `Pending` or `Approved`, the two counts
/// partition the live set.
proof fn lemma_counts_partition(entries: Seq<ProposalEntry>)
    requires
        forall|i: int|
            0 <= i < entries.len() ==> (#[trigger] entries[i]).proposal.status
                == ProposalStatus::Pending || entries[i].proposal.status
                == ProposalStatus::Approved,
    ensures
        count_with_status(entries, ProposalStatus::Pending) + count_with_status(
            entries,
            ProposalStatus::Approved,
        ) == entries.len(),
    decreases entries.len(),
{
    if entries.len() > 0 {
        lemma_counts_partition(entries.drop_last());
    }
}

/// Live-proposal accounting: a domain's `pending` plus `approved` counters
/// equal the number of live proposals plus the number of proposals ever
/// executed. In particular, as long as nothing has been executed,
/// `pending + approved` is exactly the number of live (pending or approved)
/// proposals.
pub proof fn lemma_live_proposal_accounting(ledger: GuardianLedger)
    requires
        ledger.wf(),
    ensures
        ledger.proposal_registry.pending + ledger.proposal_registry.approved
            == ledger.proposals@.len() + ledger.executed,
{
    lemma_counts_partition(ledger.proposals@);
}

} // verus!
