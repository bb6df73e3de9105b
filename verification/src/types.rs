//! The data that the contract keeps and hands out.
use vstd::prelude::*;

verus! {

/// What an address stands for on the ledger.
#[derive(Clone, Copy, Debug, PartialEq, Eq, Structural)]
pub enum AddressKind {
    /// A classic account, named by its ed25519 public key.
    Account,
    /// A contract, named by its hash.
    Contract,
}

/// A ledger address: its kind and its 256 bits, most significant half first.
#[derive(Clone, Copy, Debug, PartialEq, Eq, Structural)]
pub struct Address {
    pub kind: AddressKind,
    pub hi: u128,
    pub lo: u128,
}

/// The terms of the migration, fixed when the contract is initialized.
#[derive(Clone, Copy, Debug, PartialEq, Eq, Structural)]
pub struct MigrationConfig {
    pub admin: Address,
    pub old_token: Address,
    pub new_token: Address,
    /// For example, 10 means 1 old -> 10 new.
    pub ratio_new_per_old: u32,
    pub deadline: u64,
}

/// The keys of the contract's storage.
#[derive(Clone, Copy, Debug, PartialEq, Eq, Structural)]
pub enum DataKey {
    Config,
    UserMigrated(Address),
    TotalMigrated,
    /// Versioned per-user storage record.
    UserRecord(Address),
    /// Append-only index of users who have migrated, enabling cursor-based
    /// iteration over storage keys without a full-table scan.
    UserIndex(u32),
    /// Number of entries in `UserIndex`.
    UserCount,
    /// Current position of the in-place storage migration cursor.
    MigrationCursor,
    /// Flag tracking the overall status of the storage schema migration.
    MigrationStatus,
}

/// Overall status of the versioned-storage migration engine.
#[derive(Clone, Copy, Debug, PartialEq, Eq, Structural)]
pub enum MigrationStatus {
    NotStarted,
    InProgress,
    Completed,
}

/// Legacy (v1) per-user storage schema: just the migrated amount.
#[derive(Clone, Copy, Debug, PartialEq, Eq, Structural)]
pub struct UserRecordV1 {
    pub amount: i128,
}

/// Current (v2) per-user storage schema: adds a `migrated_at` timestamp.
#[derive(Clone, Copy, Debug, PartialEq, Eq, Structural)]
pub struct UserRecordV2 {
    pub amount: i128,
    pub migrated_at: u64,
}

/// A per-user storage record in either schema.
#[derive(Clone, Copy, Debug, PartialEq, Eq, Structural)]
pub enum VersionedUserRecord {
    V1(UserRecordV1),
    V2(UserRecordV2),
}

impl VersionedUserRecord {
    /// The migrated amount, whichever the schema.
    pub open spec fn amount(self) -> i128 {
        match self {
            VersionedUserRecord::V1(r) => r.amount,
            VersionedUserRecord::V2(r) => r.amount,
        }
    }

    /// The record in the second schema: a first-schema record is stamped with `now`,
    /// a second-schema record is left as it is.
    pub open spec fn upgraded(self, now: u64) -> VersionedUserRecord {
        match self {
            VersionedUserRecord::V1(r) => VersionedUserRecord::V2(
                UserRecordV2 { amount: r.amount, migrated_at: now },
            ),
            VersionedUserRecord::V2(r) => VersionedUserRecord::V2(r),
        }
    }
}

/// Which of the host's two stores holds an entry.
#[derive(Clone, Copy, Debug, PartialEq, Eq, Structural)]
pub enum Durability {
    /// Kept within the contract's instance entry.
    Instance,
    /// An entry of its own.
    Persistent,
}

impl DataKey {
    /// The store that holds the entries of this key: what there is one of per
    /// contract lives in the instance, what there is one of per user does not.
    pub open spec fn store(self) -> Durability {
        match self {
            DataKey::UserMigrated(_) => Durability::Persistent,
            DataKey::UserRecord(_) => Durability::Persistent,
            DataKey::UserIndex(_) => Durability::Persistent,
            _ => Durability::Instance,
        }
    }

    /// The store that holds the entries of this key.
    pub fn durability(&self) -> (store: Durability)
        ensures
            store == self.store(),
    {
        match self {
            DataKey::UserMigrated(_) => Durability::Persistent,
            DataKey::UserRecord(_) => Durability::Persistent,
            DataKey::UserIndex(_) => Durability::Persistent,
            _ => Durability::Instance,
        }
    }
}

/// Entries of one user and positions of the index are entries of their own; all others live
/// in the contract's instance.
pub proof fn law_users_have_entries_of_their_own(key: DataKey)
    ensures
        key.store() is Persistent <==> key is UserMigrated || key is UserRecord
            || key is UserIndex,
{
}

/// A record in the second schema tells the amount of the record that it came from, and when
/// that one was upgraded. It is not upgraded again.
pub proof fn law_upgrade_keeps_the_amount(amount: i128, stamp: u64, now: u64)
    ensures
        ({
            let first = VersionedUserRecord::V1(UserRecordV1 { amount });
            let second = VersionedUserRecord::V2(UserRecordV2 { amount, migrated_at: stamp });
            &&& first.amount() == amount
            &&& second.amount() == amount
            &&& first.upgraded(stamp) == second
            &&& second.upgraded(now) == second
        }),
{
}

} // verus!
