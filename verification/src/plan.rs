//! Which entries of the storage an operation reads, so that an invocation can take
//! them in before it runs.
use crate::ledger::Ledger;
use crate::rules;
use crate::types::{Address, DataKey};
use vstd::prelude::*;

verus! {

/// The keys that there is one of per contract.
pub open spec fn contract_keys() -> Seq<DataKey> {
    seq![
        DataKey::Config,
        DataKey::TotalMigrated,
        DataKey::UserCount,
        DataKey::MigrationCursor,
        DataKey::MigrationStatus,
    ]
}

/// The keys that there is one of per user.
pub open spec fn user_keys(user: Address) -> Seq<DataKey> {
    seq![DataKey::UserMigrated(user), DataKey::UserRecord(user)]
}

/// The keys of the index positions from `start` to before `end`.
pub open spec fn index_keys(start: u32, end: u32) -> Seq<DataKey> {
    Seq::new(
        if start <= end {
            (end - start) as nat
        } else {
            0
        },
        |i: int| DataKey::UserIndex((start + i) as u32),
    )
}

/// The keys of the records of `users`.
pub open spec fn record_keys(users: Seq<Address>) -> Seq<DataKey> {
    users.map_values(|user: Address| DataKey::UserRecord(user))
}

/// What a migration or a batch reads.
pub fn list_contract_keys() -> (keys: Vec<DataKey>)
    ensures
        keys@ == contract_keys(),
{
    let mut keys: Vec<DataKey> = Vec::new();
    keys.push(DataKey::Config);
    keys.push(DataKey::TotalMigrated);
    keys.push(DataKey::UserCount);
    keys.push(DataKey::MigrationCursor);
    keys.push(DataKey::MigrationStatus);
    assert(keys@ =~= contract_keys());
    keys
}

/// What a migration by `user` reads besides.
pub fn list_user_keys(user: Address) -> (keys: Vec<DataKey>)
    ensures
        keys@ == user_keys(user),
{
    let mut keys: Vec<DataKey> = Vec::new();
    keys.push(DataKey::UserMigrated(user));
    keys.push(DataKey::UserRecord(user));
    assert(keys@ =~= user_keys(user));
    keys
}

/// What a page or a batch over the positions from `start` to before `end` reads
/// besides.
pub fn list_index_keys(start: u32, end: u32) -> (keys: Vec<DataKey>)
    ensures
        keys@ == index_keys(start, end),
{
    let mut keys: Vec<DataKey> = Vec::new();
    let mut i: u32 = start;
    while i < end
        invariant
            start <= i,
            i <= end || i == start,
            keys@ == index_keys(start, i),
        decreases end - i,
    {
        keys.push(DataKey::UserIndex(i));
        i += 1;
        assert(keys@ =~= index_keys(start, i));
    }
    assert(keys@ =~= index_keys(start, end));
    keys
}

/// What a batch over the positions from `start` to before `end` reads besides, once
/// the ledger holds those positions.
pub fn list_record_keys(ledger: &Ledger, start: u32, end: u32) -> (keys: Vec<DataKey>)
    ensures
        keys@ == record_keys(rules::listed(ledger@, start, end)),
{
    let mut keys: Vec<DataKey> = Vec::new();
    let mut i: u32 = start;
    assert(keys@ =~= record_keys(rules::listed(ledger@, start, start)));
    while i < end
        invariant
            start <= i,
            i <= end || i == start,
            keys@ == record_keys(rules::listed(ledger@, start, i)),
        decreases end - i,
    {
        if let Some(user) = ledger.user_at(i) {
            keys.push(DataKey::UserRecord(user));
        }
        i += 1;
        assert(keys@ =~= record_keys(rules::listed(ledger@, start, i)));
    }
    keys
}

} // verus!
