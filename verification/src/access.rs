//! The access ledger: per-domain role membership counters and the capability
//! records whose existence proves that a principal holds a role.
//!
//! Principals, registries and targets are identified by plain `u64` keys
//! chosen by the host; the engine only ever compares them for equality.

use vstd::prelude::*;

verus! {

/// The roles a principal may hold under an access registry.
#[derive(Clone, Copy, Debug, PartialEq, Eq, Structural)]
pub enum Role {
    Speaker,
    Voter,
    Guardian,
    ProposalManager,
}

impl Role {
    /// The lower-case name of the role.
    pub fn name(&self) -> (r: &'static str)
        ensures
            r@ == self.spec_name(),
    {
        match self {
            Role::Speaker => "speaker",
            Role::Voter => "voter",
            Role::Guardian => "guardian",
            Role::ProposalManager => "proposal_manager",
        }
    }

    /// The name each role carries.
    pub open spec fn spec_name(self) -> Seq<char> {
        match self {
            Role::Speaker => "speaker"@,
            Role::Voter => "voter"@,
            Role::Guardian => "guardian"@,
            Role::ProposalManager => "proposal_manager"@,
        }
    }
}

/// A capability record: its existence is itself the proof that `owner` holds
/// `role` under the access registry identified by `access_registry`.
#[derive(Clone, Copy, Debug, PartialEq, Eq, Structural)]
pub struct Access {
    /// The access registry this capability was granted under.
    pub access_registry: u64,
    /// The granted role.
    pub role: Role,
    /// The principal holding the capability.
    pub owner: u64,
}

/// Per-domain role membership counters. Counters change only through
/// `assign_role` and `revoke_role`, by exactly one at a time.
pub struct AccessRegistry {
    /// The administrator entitled to assign and revoke roles.
    pub admin: u64,
    /// How many principals currently hold the `Speaker` role.
    pub speakers: u32,
    /// How many principals currently hold the `Voter` role.
    pub voters: u32,
    /// How many principals currently hold the `Guardian` role.
    pub guardians: u32,
    /// How many principals currently hold the `ProposalManager` role.
    pub proposal_managers: u32,
}

impl AccessRegistry {
    /// The counter that tracks `role`.
    pub open spec fn spec_role_counter(self, role: Role) -> u32 {
        match role {
            Role::Speaker => self.speakers,
            Role::Voter => self.voters,
            Role::Guardian => self.guardians,
            Role::ProposalManager => self.proposal_managers,
        }
    }

    /// A fresh registry administered by `admin`, with every counter at zero.
    pub fn new(admin: u64) -> (r: AccessRegistry)
        ensures
            r.admin == admin,
            r.speakers == 0,
            r.voters == 0,
            r.guardians == 0,
            r.proposal_managers == 0,
            forall|role: Role| r.spec_role_counter(role) == 0,
    {
        AccessRegistry { admin, speakers: 0, voters: 0, guardians: 0, proposal_managers: 0 }
    }

    /// Read the membership counter for `role`.
    pub fn role_counter(&self, role: Role) -> (r: u32)
        ensures
            r == self.spec_role_counter(role),
    {
        match role {
            Role::Speaker => self.speakers,
            Role::Voter => self.voters,
            Role::Guardian => self.guardians,
            Role::ProposalManager => self.proposal_managers,
        }
    }

    /// Record one role assignment: the counter for `role` grows by one and
    /// nothing else changes.
    pub fn assign_role(&mut self, role: Role)
        requires
            old(self).spec_role_counter(role) < u32::MAX,
        ensures
            final(self).spec_role_counter(role) == old(self).spec_role_counter(role) + 1,
            forall|other: Role|
                other != role ==> final(self).spec_role_counter(other) == old(
                    self,
                ).spec_role_counter(other),
            final(self).admin == old(self).admin,
    {
        match role {
            Role::Speaker => {
                self.speakers += 1;
            },
            Role::Voter => {
                self.voters += 1;
            },
            Role::Guardian => {
                self.guardians += 1;
            },
            Role::ProposalManager => {
                self.proposal_managers += 1;
            },
        }
    }

    /// Record one role revocation: the counter for `role` shrinks by one and
    /// nothing else changes. A counter never goes below zero: a revocation
    /// is only ever recorded for a role that is currently held.
    pub fn revoke_role(&mut self, role: Role)
        requires
            old(self).spec_role_counter(role) >= 1,
        ensures
            final(self).spec_role_counter(role) == old(self).spec_role_counter(role) - 1,
            forall|other: Role|
                other != role ==> final(self).spec_role_counter(other) == old(
                    self,
                ).spec_role_counter(other),
            final(self).admin == old(self).admin,
    {
        match role {
            Role::Speaker => {
                self.speakers -= 1;
            },
            Role::Voter => {
                self.voters -= 1;
            },
            Role::Guardian => {
                self.guardians -= 1;
            },
            Role::ProposalManager => {
                self.proposal_managers -= 1;
            },
        }
    }
}

/// Does `access` prove that `owner` holds `role` under the access registry
/// identified by `access_registry_key`? It does exactly when the record was
/// granted under that registry, to that owner, for that role.
pub open spec fn grants(access: Access, access_registry_key: u64, owner: u64, role: Role) -> bool {
    &&& access.access_registry == access_registry_key
    &&& access.owner == owner
    &&& access.role == role
}

/// Check a capability record against a caller and a role.
pub fn check_grants(access: &Access, access_registry_key: u64, owner: u64, role: Role) -> (r: bool)
    ensures
        r == grants(*access, access_registry_key, owner, role),
{
    access.access_registry == access_registry_key && access.owner == owner && access.role == role
}

/// How many capability records in `records` carry `role`.
pub open spec fn count_role(records: Seq<Access>, role: Role) -> int
    decreases records.len(),
{
    if records.len() == 0 {
        0
    } else {
        count_role(records.drop_last(), role) + if records.last().role == role {
            1int
        } else {
            0int
        }
    }
}

/// Does some record in `records` prove that `owner` holds `role` under the
/// registry identified by `access_registry_key`?
pub open spec fn holds_role(
    records: Seq<Access>,
    access_registry_key: u64,
    owner: u64,
    role: Role,
) -> bool {
    exists|i: int|
        0 <= i < records.len() && grants(records[i], access_registry_key, owner, role)
}

/// A role count is never negative.
pub proof fn lemma_count_role_nonneg(records: Seq<Access>, role: Role)
    ensures
        count_role(records, role) >= 0,
    decreases records.len(),
{
    if records.len() > 0 {
        lemma_count_role_nonneg(records.drop_last(), role);
    }
}

/// Appending a record raises exactly its own role's count by one.
pub proof fn lemma_count_role_push(records: Seq<Access>, record: Access, role: Role)
    ensures
        count_role(records.push(record), role) == count_role(records, role) + if record.role
            == role {
            1int
        } else {
            0int
        },
{
    assert(records.push(record).drop_last() =~= records);
}

/// Removing the record at index `i` lowers exactly its own role's count by
/// one.
pub proof fn lemma_count_role_remove(records: Seq<Access>, i: int, role: Role)
    requires
        0 <= i < records.len(),
    ensures
        count_role(records.remove(i), role) == count_role(records, role) - if records[i].role
            == role {
            1int
        } else {
            0int
        },
    decreases records.len(),
{
    records.remove_ensures(i);
    if i == records.len() - 1 {
        assert(records.remove(i) =~= records.drop_last());
    } else {
        assert(records.remove(i).drop_last() =~= records.drop_last().remove(i));
        lemma_count_role_remove(records.drop_last(), i, role);
        assert(records.remove(i).last() == records.last());
    }
}

/// How many operations in `ops` assign `role`. An operation `(true, r)`
/// stands for an assignment of `r`, `(false, r)` for a revocation of `r`.
pub open spec fn assignments(ops: Seq<(bool, Role)>, role: Role) -> int
    decreases ops.len(),
{
    if ops.len() == 0 {
        0
    } else {
        assignments(ops.drop_last(), role) + if ops.last().0 && ops.last().1 == role {
            1int
        } else {
            0int
        }
    }
}

/// How many operations in `ops` revoke `role`.
pub open spec fn revocations(ops: Seq<(bool, Role)>, role: Role) -> int
    decreases ops.len(),
{
    if ops.len() == 0 {
        0
    } else {
        revocations(ops.drop_last(), role) + if !ops.last().0 && ops.last().1 == role {
            1int
        } else {
            0int
        }
    }
}

/// The value of the counter for `role` after running `ops` from `start`,
/// stepping exactly as `assign_role` and `revoke_role` step it: one up per
/// assignment of `role`, one down per revocation of `role`, untouched by
/// operations on other roles.
pub open spec fn counter_after(start: int, ops: Seq<(bool, Role)>, role: Role) -> int
    decreases ops.len(),
{
    if ops.len() == 0 {
        start
    } else {
        let prev = counter_after(start, ops.drop_last(), role);
        if ops.last().1 == role {
            if ops.last().0 {
                prev + 1
            } else {
                prev - 1
            }
        } else {
            prev
        }
    }
}

/// After any sequence of assignments and revocations, each role counter
/// equals its starting value plus the assignments of that role minus the
/// revocations of that role.
pub proof fn lemma_role_counter_accounting(start: int, ops: Seq<(bool, Role)>, role: Role)
    ensures
        counter_after(start, ops, role) == start + assignments(ops, role) - revocations(ops, role),
    decreases ops.len(),
{
    if ops.len() > 0 {
        lemma_role_counter_accounting(start, ops.drop_last(), role);
    }
}

} // verus!
