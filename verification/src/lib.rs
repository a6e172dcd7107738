//! A permissioned governance engine: list membership changes are raised as
//! proposals by a speaker, ratified by a strict majority of the guardian
//! electorate snapshotted at creation time, and only then applied as durable
//! compliance records that downstream checks can query by target identity.

pub mod access;
pub mod compliance;
pub mod error;
pub mod instructions;
pub mod ledger;
pub mod proposal;
