//! Legacy token migration.
//!
//! Users swap a legacy token for a newly minted one at a fixed ratio until a
//! deadline, after which the admin can recover the legacy tokens that are left.
//! Every migrated user has a versioned record, which the admin upgrades from the
//! first schema to the second in batches.
//!
//! The rules work on a [`ledger::Ledger`], the working copy of the contract's
//! storage for one invocation. An operation reads it, decides, and writes down the
//! host actions (authorisation checks, token calls, storage writes, events) in the
//! order in which they are to be carried out.

pub mod address;
pub mod contract;
pub mod error;
pub mod execution;
pub mod history;
pub mod laws;
pub mod ledger;
pub mod merkle;
pub mod plan;
pub mod rules;
pub mod table;
pub mod types;
