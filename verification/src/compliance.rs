//! The compliance registry: aggregate allow/deny tallies for one governance
//! domain, plus the durable per-target compliance records, held in a
//! content-addressed store keyed by target identity so that at most one live
//! record exists per target and lookup needs no separate index.

use vstd::prelude::*;

use crate::proposal::Proposal;

verus! {

/// The durable allow/deny decision for one target entity.
pub struct Compliance {
    /// Who paid the storage deposit; the deposit is refunded here on
    /// revocation.
    pub payer: u64,
    /// The proposal whose execution wrote this record.
    pub proposal: u64,
    /// The speaker who raised that proposal.
    pub speaker: u64,
    /// `true` for an allow-list entry, `false` for a deny-list entry.
    pub is_whitelist: bool,
    /// The rationale, copied from the proposal.
    pub description: String,
}

/// The record that executing `proposal` (identified by `proposal_key`, paid
/// for by `payer`) writes for each of its targets: polarity, speaker and
/// description come from the proposal.
pub open spec fn execution_record(payer: u64, proposal_key: u64, proposal: Proposal) -> Compliance {
    Compliance {
        payer,
        proposal: proposal_key,
        speaker: proposal.speaker,
        is_whitelist: proposal.is_whitelist,
        description: proposal.description,
    }
}

impl Compliance {
    /// Build the record that executing `proposal` writes for each of its
    /// targets.
    pub fn new(payer: u64, proposal_key: u64, proposal: &Proposal) -> (r: Compliance)
        ensures
            r == execution_record(payer, proposal_key, *proposal),
    {
        Compliance {
            payer,
            proposal: proposal_key,
            speaker: proposal.speaker,
            is_whitelist: proposal.is_whitelist,
            description: proposal.description.clone(),
        }
    }
}

/// One occupied address of the store: the record for `target`.
pub struct ComplianceSlot {
    /// The target entity the record speaks of.
    pub target: u64,
    /// The record itself.
    pub record: Compliance,
}

/// The record the store holds for `target`, if any. Lookup runs from the
/// back, but under `distinct_targets` at most one slot can match.
pub open spec fn slot_for(slots: Seq<ComplianceSlot>, target: u64) -> Option<Compliance>
    decreases slots.len(),
{
    if slots.len() == 0 {
        None
    } else if slots.last().target == target {
        Some(slots.last().record)
    } else {
        slot_for(slots.drop_last(), target)
    }
}

/// No two slots speak of the same target: each target has at most one live
/// record.
pub open spec fn distinct_targets(slots: Seq<ComplianceSlot>) -> bool {
    forall|i: int, j: int| 0 <= i < j < slots.len() ==> slots[i].target != slots[j].target
}

/// A target no slot speaks of has no record.
proof fn lemma_slot_for_absent(slots: Seq<ComplianceSlot>, target: u64)
    requires
        forall|i: int| 0 <= i < slots.len() ==> slots[i].target != target,
    ensures
        slot_for(slots, target) is None,
    decreases slots.len(),
{
    if slots.len() > 0 {
        lemma_slot_for_absent(slots.drop_last(), target);
    }
}

/// With distinct targets, the slot at any index is the record its target
/// resolves to.
proof fn lemma_slot_for_present(slots: Seq<ComplianceSlot>, i: int)
    requires
        distinct_targets(slots),
        0 <= i < slots.len(),
    ensures
        slot_for(slots, slots[i].target) == Some(slots[i].record),
    decreases slots.len(),
{
    if i < slots.len() - 1 {
        lemma_slot_for_present(slots.drop_last(), i);
    }
}

/// Removing the slot at index `i` erases exactly its target's record: that
/// target resolves to nothing afterwards, every other target resolves as
/// before, and the targets stay distinct.
proof fn lemma_slot_for_remove(slots: Seq<ComplianceSlot>, i: int)
    requires
        distinct_targets(slots),
        0 <= i < slots.len(),
    ensures
        distinct_targets(slots.remove(i)),
        forall|j: int| 0 <= j < slots.remove(i).len() ==> slots.remove(i)[j].target != slots[i].target,
        slot_for(slots.remove(i), slots[i].target) is None,
        forall|t: u64|
            t != slots[i].target ==> #[trigger] slot_for(slots.remove(i), t) == slot_for(slots, t),
    decreases slots.len(),
{
    let rest = slots.remove(i);
    slots.remove_ensures(i);
    lemma_slot_for_absent(rest, slots[i].target);
    assert forall|t: u64| t != slots[i].target implies #[trigger] slot_for(rest, t) == slot_for(
        slots,
        t,
    ) by {
        if exists|j: int| 0 <= j < slots.len() && slots[j].target == t {
            let j = choose|j: int| 0 <= j < slots.len() && slots[j].target == t;
            lemma_slot_for_present(slots, j);
            let k: int = if j < i {
                j
            } else {
                j - 1
            };
            lemma_slot_for_present(rest, k);
        } else {
            lemma_slot_for_absent(slots, t);
            lemma_slot_for_absent(rest, t);
        }
    }
}

/// Aggregate compliance tallies for one governance domain, together with the
/// live per-target records. `whitelists` and `blacklists` count executions by
/// polarity, one per executed proposal regardless of its batch size, minus
/// revocations of records of that polarity; they are event tallies, not live
/// record counts.
pub struct ComplianceRegistry {
    /// The access registry this compliance registry is scoped to.
    pub access_registry: u64,
    /// Allow-polarity executions minus allow-record revocations.
    pub whitelists: u64,
    /// Deny-polarity executions minus deny-record revocations.
    pub blacklists: u64,
    /// The live records, at most one per target.
    pub records: Vec<ComplianceSlot>,
}

impl ComplianceRegistry {
    /// Each target has at most one live record.
    pub open spec fn wf(&self) -> bool {
        distinct_targets(self.records@)
    }

    /// The live record for `target`, if any.
    pub open spec fn spec_record_for(&self, target: u64) -> Option<Compliance> {
        slot_for(self.records@, target)
    }

    /// A fresh registry scoped to `access_registry`: zero tallies, no
    /// records.
    pub fn new(access_registry: u64) -> (r: ComplianceRegistry)
        ensures
            r.access_registry == access_registry,
            r.whitelists == 0,
            r.blacklists == 0,
            r.records@ =~= Seq::<ComplianceSlot>::empty(),
            r.wf(),
            forall|t: u64| r.spec_record_for(t) is None,
    {
        let r = ComplianceRegistry {
            access_registry,
            whitelists: 0,
            blacklists: 0,
            records: Vec::new(),
        };
        proof {
            assert forall|t: u64| r.spec_record_for(t) is None by {
                lemma_slot_for_absent(r.records@, t);
            }
        }
        r
    }

    /// Where the record for `target` sits, if anywhere.
    fn find_index(&self, target: u64) -> (r: Option<usize>)
        requires
            self.wf(),
        ensures
            match r {
                Some(i) => i < self.records@.len() && self.records@[i as int].target == target
                    && self.spec_record_for(target) == Some(self.records@[i as int].record),
                None => self.spec_record_for(target) is None && forall|j: int|
                    0 <= j < self.records@.len() ==> self.records@[j].target != target,
            },
    {
        let mut i: usize = 0;
        while i < self.records.len()
            invariant
                self.wf(),
                i <= self.records@.len(),
                forall|j: int| 0 <= j < i ==> self.records@[j].target != target,
            decreases self.records@.len() - i,
        {
            if self.records[i].target == target {
                proof {
                    lemma_slot_for_present(self.records@, i as int);
                }
                return Some(i);
            }
            i = i + 1;
        }
        proof {
            lemma_slot_for_absent(self.records@, target);
        }
        None
    }

    /// Look up the live record for `target`: the read-only contract
    /// downstream consumers rely on.
    pub fn record_for(&self, target: u64) -> (r: Option<&Compliance>)
        requires
            self.wf(),
        ensures
            match r {
                Some(c) => self.spec_record_for(target) == Some(*c),
                None => self.spec_record_for(target) is None,
            },
    {
        match self.find_index(target) {
            Some(i) => Some(&self.records[i].record),
            None => None,
        }
    }

    /// Write the record for `target`: create it if absent, overwrite it if
    /// present. Every other target's record, and the tallies, stay as they
    /// were.
    pub fn upsert_record(&mut self, target: u64, record: Compliance)
        requires
            old(self).wf(),
        ensures
            final(self).wf(),
            final(self).spec_record_for(target) == Some(record),
            forall|t: u64|
                t != target ==> #[trigger] final(self).spec_record_for(t) == old(
                    self,
                ).spec_record_for(t),
            final(self).access_registry == old(self).access_registry,
            final(self).whitelists == old(self).whitelists,
            final(self).blacklists == old(self).blacklists,
    {
        let found = self.find_index(target);
        match found {
            Some(i) => {
                proof {
                    lemma_slot_for_remove(self.records@, i as int);
                }
                self.records.remove(i);
            },
            None => {},
        }
        let ghost cleared = self.records@;
        assert(forall|j: int| 0 <= j < cleared.len() ==> cleared[j].target != target);
        self.records.push(ComplianceSlot { target, record });
        proof {
            assert(self.records@.drop_last() =~= cleared);
            assert forall|t: u64| t != target implies #[trigger] slot_for(self.records@, t)
                == slot_for(cleared, t) by {}
        }
    }

    /// Delete the record for `target`, handing it back so the caller can
    /// refund its deposit. Afterwards the target resolves to nothing; every
    /// other target's record, and the tallies, stay as they were.
    pub fn remove_record(&mut self, target: u64) -> (r: Option<Compliance>)
        requires
            old(self).wf(),
        ensures
            final(self).wf(),
            r == old(self).spec_record_for(target),
            final(self).spec_record_for(target) is None,
            forall|t: u64|
                t != target ==> #[trigger] final(self).spec_record_for(t) == old(
                    self,
                ).spec_record_for(t),
            final(self).access_registry == old(self).access_registry,
            final(self).whitelists == old(self).whitelists,
            final(self).blacklists == old(self).blacklists,
    {
        match self.find_index(target) {
            Some(i) => {
                proof {
                    lemma_slot_for_remove(self.records@, i as int);
                }
                let slot = self.records.remove(i);
                Some(slot.record)
            },
            None => None,
        }
    }

    /// Tally one proposal execution of the given polarity: exactly one of
    /// the two counters grows by one, whatever the proposal's batch size.
    pub fn register(&mut self, is_whitelist: bool)
        requires
            is_whitelist ==> old(self).whitelists < u64::MAX,
            !is_whitelist ==> old(self).blacklists < u64::MAX,
        ensures
            is_whitelist ==> final(self).whitelists == old(self).whitelists + 1 && final(self).blacklists == old(self).blacklists,
            !is_whitelist ==> final(self).blacklists == old(self).blacklists + 1 && final(self).whitelists == old(self).whitelists,
            final(self).access_registry == old(self).access_registry,
            final(self).records@ == old(self).records@,
    {
        if is_whitelist {
            self.whitelists = self.whitelists + 1;
        } else {
            self.blacklists = self.blacklists + 1;
        }
    }

    /// Tally one revocation of a record of the given polarity: the matching
    /// counter shrinks by one. A counter never goes below zero: a revocation
    /// is only ever tallied against a positive counter.
    pub fn revoke(&mut self, is_whitelist: bool)
        requires
            is_whitelist ==> old(self).whitelists >= 1,
            !is_whitelist ==> old(self).blacklists >= 1,
        ensures
            is_whitelist ==> final(self).whitelists == old(self).whitelists - 1 && final(self).blacklists == old(self).blacklists,
            !is_whitelist ==> final(self).blacklists == old(self).blacklists - 1 && final(self).whitelists == old(self).whitelists,
            final(self).access_registry == old(self).access_registry,
            final(self).records@ == old(self).records@,
    {
        if is_whitelist {
            self.whitelists = self.whitelists - 1;
        } else {
            self.blacklists = self.blacklists - 1;
        }
    }
}

} // verus!
