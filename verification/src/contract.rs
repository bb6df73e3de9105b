//! The operations of the migration contract.
use crate::error::MigrationError;
use crate::ledger::{Entry, HostAction, Ledger, State};
use crate::rules::{self, TTL_EXTEND_TO, TTL_THRESHOLD};
use crate::types::{
    Address, DataKey, MigrationConfig, MigrationStatus, UserRecordV1, UserRecordV2,
    VersionedUserRecord,
};
use vstd::prelude::*;

verus! {

/// The legacy token migration contract.
pub struct TokenMigrationContract;

/// A withdrawal that the contract has accepted: all that it holds of a token goes to the
/// admin. Only an accepted [`TokenMigrationContract::withdraw_legacy`] gives one, and
/// [`TokenMigrationContract::withdraw_balance`] uses it up.
#[derive(Debug, PartialEq, Eq, Structural)]
pub struct Withdrawal {
    token: Address,
    to: Address,
}

impl Withdrawal {
    /// The token that is paid out.
    pub closed spec fn paid_token(self) -> Address {
        self.token
    }

    /// Who is paid.
    pub closed spec fn recipient(self) -> Address {
        self.to
    }

    /// The token that is paid out, whose balance is to be read.
    pub fn token(&self) -> (token: Address)
        ensures
            token == self.paid_token(),
    {
        self.token
    }

    /// Who is paid.
    pub fn to(&self) -> (to: Address)
        ensures
            to == self.recipient(),
    {
        self.to
    }
}

impl TokenMigrationContract {
    /// Initializes the migration contract.
    ///
    /// * `admin` - The admin address, who can withdraw remaining legacy tokens after the deadline.
    /// * `old_token` - The address of the legacy token contract.
    /// * `new_token` - The address of the new token contract. Must have minting rights on it.
    /// * `ratio_new_per_old` - The number of new tokens minted for 1 old token.
    /// * `deadline` - A Unix timestamp after which migrations are no longer possible.
    pub fn initialize(
        ledger: &mut Ledger,
        admin: Address,
        old_token: Address,
        new_token: Address,
        ratio_new_per_old: u32,
        deadline: u64,
    ) -> (result: Result<(), MigrationError>)
        ensures
            ({
                let config = MigrationConfig {
                    admin,
                    old_token,
                    new_token,
                    ratio_new_per_old,
                    deadline,
                };
                &&& result == rules::initialize_result(old(ledger)@)
                &&& final(ledger)@ == rules::initialize_state(old(ledger)@, config)
                &&& final(ledger).log() == old(ledger).log() + rules::initialize_actions(
                    old(ledger)@,
                    config,
                )
            }),
    {
        let config = MigrationConfig { admin, old_token, new_token, ratio_new_per_old, deadline };
        let ghost asked = rules::initialize_actions(ledger@, config);
        if ledger.config().is_some() {
            assert(ledger.log() =~= old(ledger).log() + asked);
            return Err(MigrationError::AlreadyInitialized);
        }
        ledger.perform(HostAction::Store(Entry::Config(config)));
        ledger.perform(HostAction::Store(Entry::TotalMigrated(0)));
        ledger.perform(HostAction::Store(Entry::UserCount(0)));
        ledger.perform(HostAction::Store(Entry::MigrationCursor(0)));
        ledger.perform(HostAction::Store(Entry::MigrationStatus(MigrationStatus::NotStarted)));
        ledger.perform(
            HostAction::ExtendInstanceTtl { threshold: TTL_THRESHOLD, extend_to: TTL_EXTEND_TO },
        );
        assert(ledger.log() =~= old(ledger).log() + asked);
        Ok(())
    }

    /// The amount of new tokens for `amount` old ones at `now`, or why there are none.
    pub fn quote(config: &Option<MigrationConfig>, now: u64, amount: i128) -> (result: Result<
        i128,
        MigrationError,
    >)
        ensures
            result == rules::quote(*config, now, amount),
    {
        match config {
            None => Err(MigrationError::NotInitialized),
            Some(config) => {
                if now > config.deadline {
                    return Err(MigrationError::MigrationEnded);
                }
                if amount <= 0 {
                    return Err(MigrationError::AmountNotPositive);
                }
                let ratio: i128 = config.ratio_new_per_old as i128;
                proof {
                    assert(0 <= amount * ratio) by (nonlinear_arith)
                        requires
                            0 < amount,
                            0 <= ratio,
                    ;
                }
                match amount.checked_mul(ratio) {
                    None => Err(MigrationError::AmountOverflow),
                    Some(new_amount) => Ok(new_amount),
                }
            },
        }
    }

    /// Books `amount` for `user`, for which they got `new_amount` new tokens.
    fn book(ledger: &mut Ledger, user: Address, amount: i128, new_amount: i128) -> (result: Result<
        (),
        MigrationError,
    >)
        requires
            amount > 0,
        ensures
            match rules::booking_refusal(old(ledger)@, user, amount) {
                Some(e) => {
                    &&& result == Err::<(), _>(e)
                    &&& final(ledger)@ == old(ledger)@
                    &&& final(ledger).log() == old(ledger).log()
                },
                None => {
                    &&& result == Ok::<(), MigrationError>(())
                    &&& final(ledger)@ == rules::booked(old(ledger)@, user, amount)
                    &&& final(ledger).log() == old(ledger).log() + rules::booking_actions(
                        old(ledger)@,
                        user,
                        amount,
                        new_amount,
                    )
                },
            },
    {
        let sum: i128 = match ledger.migrated_by(&user).checked_add(amount) {
            Some(sum) => sum,
            None => return Err(MigrationError::UserAmountOverflow),
        };
        let already_indexed = ledger.record(&user).is_some();
        let count: u32 = ledger.count();
        if !already_indexed && count == u32::MAX {
            return Err(MigrationError::UserCountOverflow);
        }
        let total: i128 = match ledger.total_migrated() {
            Some(total) => match total.checked_add(amount) {
                Some(total) => total,
                None => return Err(MigrationError::TotalAmountOverflow),
            },
            None => return Err(MigrationError::NotInitialized),
        };

        ledger.perform(HostAction::Store(Entry::UserMigrated(user, sum)));
        ledger.perform(
            HostAction::ExtendTtl {
                key: DataKey::UserMigrated(user),
                threshold: TTL_THRESHOLD,
                extend_to: TTL_EXTEND_TO,
            },
        );
        // New records are written in the legacy v1 shape; the storage migration brings
        // them to v2 in cursor batches.
        let record = VersionedUserRecord::V1(UserRecordV1 { amount: sum });
        ledger.perform(HostAction::Store(Entry::UserRecord(user, record)));
        ledger.perform(
            HostAction::ExtendTtl {
                key: DataKey::UserRecord(user),
                threshold: TTL_THRESHOLD,
                extend_to: TTL_EXTEND_TO,
            },
        );
        if !already_indexed {
            ledger.perform(HostAction::Store(Entry::UserIndex(count, user)));
            ledger.perform(HostAction::Store(Entry::UserCount(count + 1)));
            ledger.perform(HostAction::Store(Entry::MigrationStatus(MigrationStatus::InProgress)));
        }
        ledger.perform(HostAction::Store(Entry::TotalMigrated(total)));
        ledger.perform(HostAction::PublishMigrated { user, amount, new_amount });
        proof {
            let before = old(ledger)@;
            assert(ledger@ == rules::booked(before, user, amount));
            assert(ledger.log() =~= old(ledger).log() + rules::booking_actions(
                before,
                user,
                amount,
                new_amount,
            ));
        }
        Ok(())
    }

    /// Migrates `amount` of a user's legacy tokens to new tokens at `now`.
    /// The user must first approve this contract to spend their `old_token`.
    pub fn migrate(ledger: &mut Ledger, now: u64, caller: Address, amount: i128) -> (result: Result<
        (),
        MigrationError,
    >)
        ensures
            result == rules::migrate_result(old(ledger)@, now, caller, amount),
            final(ledger)@ == rules::migrate_state(old(ledger)@, now, caller, amount),
            final(ledger).log() == old(ledger).log() + rules::migrate_actions(
                old(ledger)@,
                now,
                caller,
                amount,
            ),
    {
        let ghost asked = seq![HostAction::RequireAuth(caller)];
        ledger.perform(HostAction::RequireAuth(caller));
        let config = match ledger.config() {
            Some(config) => config,
            None => {
                assert(ledger.log() =~= old(ledger).log() + (asked + Seq::empty()));
                return Err(MigrationError::NotInitialized);
            },
        };
        let new_amount: i128 = match Self::quote(&Some(config), now, amount) {
            Ok(new_amount) => new_amount,
            Err(e) => {
                assert(ledger.log() =~= old(ledger).log() + (asked + Seq::empty()));
                return Err(e);
            },
        };
        ledger.perform(
            HostAction::TransferFrom { token: config.old_token, from: caller, amount },
        );
        ledger.perform(
            HostAction::Mint { token: config.new_token, to: caller, amount: new_amount },
        );
        let ghost paid = ledger.log();
        let result = Self::book(ledger, caller, amount, new_amount);
        proof {
            let exchange = rules::exchange_actions(config, caller, amount, new_amount);
            assert(paid =~= old(ledger).log() + asked + exchange);
            assert(ledger.log() =~= old(ledger).log() + rules::migrate_actions(
                old(ledger)@,
                now,
                caller,
                amount,
            ));
        }
        result
    }

    /// Allows the admin to withdraw any remaining legacy tokens after the deadline:
    /// names the token whose balance is to be read, and who gets it.
    pub fn withdraw_legacy(ledger: &mut Ledger, now: u64) -> (result: Result<
        Withdrawal,
        MigrationError,
    >)
        ensures
            final(ledger)@ == old(ledger)@,
            match old(ledger)@.config {
                None => {
                    &&& result == Err::<Withdrawal, _>(MigrationError::NotInitialized)
                    &&& final(ledger).log() == old(ledger).log()
                },
                Some(config) => {
                    &&& final(ledger).log() == old(ledger).log().push(
                        HostAction::RequireAuth(config.admin),
                    )
                    &&& match rules::withdraw_refusal(Some(config), now) {
                        Some(e) => result == Err::<Withdrawal, _>(e),
                        None => {
                            &&& result is Ok
                            &&& result->Ok_0.paid_token() == config.old_token
                            &&& result->Ok_0.recipient() == config.admin
                        },
                    }
                },
            },
    {
        let config = match ledger.config() {
            Some(config) => config,
            None => return Err(MigrationError::NotInitialized),
        };
        ledger.perform(HostAction::RequireAuth(config.admin));
        if now <= config.deadline {
            return Err(MigrationError::WithdrawBeforeDeadline);
        }
        Ok(Withdrawal { token: config.old_token, to: config.admin })
    }

    /// Ends a withdrawal once the contract's `balance` of the token is known: a balance
    /// above zero goes to the admin.
    pub fn withdraw_balance(ledger: &mut Ledger, withdrawal: Withdrawal, balance: i128)
        ensures
            final(ledger)@ == old(ledger)@,
            final(ledger).log() == old(ledger).log() + rules::payout_actions(
                withdrawal.paid_token(),
                withdrawal.recipient(),
                balance,
            ),
    {
        if balance > 0 {
            ledger.perform(
                HostAction::Transfer {
                    token: withdrawal.token,
                    to: withdrawal.to,
                    amount: balance,
                },
            );
        }
        assert(ledger.log() =~= old(ledger).log() + rules::payout_actions(
            withdrawal.token,
            withdrawal.to,
            balance,
        ));
    }

    // --- View functions ---

    /// The terms of the migration.
    pub fn get_config(ledger: &Ledger) -> (result: Result<MigrationConfig, MigrationError>)
        ensures
            result == match ledger@.config {
                Some(config) => Ok::<_, MigrationError>(config),
                None => Err(MigrationError::NotInitialized),
            },
    {
        match ledger.config() {
            Some(config) => Ok(config),
            None => Err(MigrationError::NotInitialized),
        }
    }

    /// The amount of legacy tokens that `user` has migrated.
    pub fn get_user_migrated(ledger: &Ledger, user: &Address) -> (amount: i128)
        ensures
            amount == ledger@.migrated_by(*user),
    {
        ledger.migrated_by(user)
    }

    /// The amount of legacy tokens that all users together have migrated.
    pub fn get_total_migrated(ledger: &Ledger) -> (result: Result<i128, MigrationError>)
        ensures
            result == match ledger@.total_migrated {
                Some(total) => Ok::<_, MigrationError>(total),
                None => Err(MigrationError::NotInitialized),
            },
    {
        match ledger.total_migrated() {
            Some(total) => Ok(total),
            None => Err(MigrationError::NotInitialized),
        }
    }

    /// Current status of the in-place v1 -> v2 storage schema migration.
    pub fn migration_status(ledger: &Ledger) -> (status: MigrationStatus)
        ensures
            status == match ledger@.status {
                Some(status) => status,
                None => MigrationStatus::NotStarted,
            },
    {
        match ledger.status() {
            Some(status) => status,
            None => MigrationStatus::NotStarted,
        }
    }

    /// Number of users indexed for storage-key iteration.
    pub fn user_count(ledger: &Ledger) -> (count: u32)
        ensures
            count == ledger@.count(),
    {
        ledger.count()
    }

    /// The end of a window of `size` positions from `start`, within `count` of them.
    pub fn window_end(count: u32, start: u32, size: u32) -> (end: u32)
        ensures
            end == rules::window_end(count, start, size),
    {
        let end: u32 = start.saturating_add(size);
        if end <= count {
            end
        } else {
            count
        }
    }

    /// Iterate storage keys: list up to `limit` migrated user addresses
    /// starting at `start`, without loading the entire user set at once.
    pub fn list_users(ledger: &Ledger, start: u32, limit: u32) -> (users: Vec<Address>)
        ensures
            users@ == rules::listed(
                ledger@,
                start,
                rules::window_end(ledger@.count(), start, limit),
            ),
    {
        let end: u32 = Self::window_end(ledger.count(), start, limit);
        let mut users: Vec<Address> = Vec::new();
        let mut i: u32 = start;
        while i < end
            invariant
                start <= i,
                i <= end || i == start,
                users@ == rules::listed(ledger@, start, i),
            decreases end - i,
        {
            if let Some(user) = ledger.user_at(i) {
                users.push(user);
            }
            i += 1;
        }
        users
    }

    /// Read a user's versioned storage record as-is (v1 or v2), primarily
    /// for migration diagnostics/testing.
    pub fn get_user_record(ledger: &Ledger, user: &Address) -> (record: Option<VersionedUserRecord>)
        ensures
            record == (if ledger@.records.contains_key(*user) {
                Some(ledger@.records[*user])
            } else {
                None
            }),
    {
        ledger.record(user)
    }

    // --- Migration of the storage schema ---

    /// Where the storage migration will be after a batch of `batch_size` users.
    pub fn batch_cursor(ledger: &Ledger, batch_size: u32) -> (cursor: u32)
        ensures
            cursor == rules::batch_cursor(ledger@, batch_size),
    {
        let cursor: u32 = ledger.position();
        let end: u32 = Self::window_end(ledger.count(), cursor, batch_size);
        if end > cursor {
            end
        } else {
            cursor
        }
    }

    /// Brings the records of the users at the positions from `start` to before `end` to
    /// the second schema, stamped with `now`.
    fn upgrade_window(ledger: &mut Ledger, start: u32, end: u32, now: u64)
        requires
            start <= end,
        ensures
            final(ledger)@ == (State {
                records: rules::upgraded_records(old(ledger)@, start, end, now),
                ..old(ledger)@
            }),
            final(ledger).log() == old(ledger).log() + rules::upgrade_actions(
                old(ledger)@,
                start,
                end,
                now,
            ),
    {
        let ghost before = old(ledger)@;
        let mut cursor: u32 = start;
        assert(rules::upgraded_records(before, start, start, now) =~= before.records);
        assert(ledger.log() =~= old(ledger).log() + rules::upgrade_actions(
            before,
            start,
            start,
            now,
        ));
        while cursor < end
            invariant
                start <= cursor <= end,
                before == old(ledger)@,
                ledger@ == (State {
                    records: rules::upgraded_records(before, start, cursor, now),
                    ..before
                }),
                ledger.log() == old(ledger).log() + rules::upgrade_actions(
                    before,
                    start,
                    cursor,
                    now,
                ),
            decreases end - cursor,
        {
            if let Some(user) = ledger.user_at(cursor) {
                if let Some(VersionedUserRecord::V1(v1)) = ledger.record(&user) {
                    let migrated = VersionedUserRecord::V2(
                        UserRecordV2 { amount: v1.amount, migrated_at: now },
                    );
                    ledger.perform(HostAction::Store(Entry::UserRecord(user, migrated)));
                }
            }
            proof {
                rules::lemma_window_grows(before, start, cursor);
                assert(ledger@.records =~= rules::upgraded_records(
                    before,
                    start,
                    (cursor + 1) as u32,
                    now,
                ));
                assert(ledger.log() =~= old(ledger).log() + rules::upgrade_actions(
                    before,
                    start,
                    (cursor + 1) as u32,
                    now,
                ));
            }
            cursor += 1;
        }
    }

    /// Cursor-based batch migration of per-user storage records from the
    /// legacy v1 schema (`{ amount }`) to the v2 schema
    /// (`{ amount, migrated_at }`).
    ///
    /// Only the admin may call this. Processes at most `batch_size` users
    /// starting at the current cursor, so large user sets can be migrated
    /// across many transactions without exhausting the per-tx CPU
    /// instruction budget. Returns the new cursor position.
    pub fn migrate_storage_batch(
        ledger: &mut Ledger,
        now: u64,
        caller: Address,
        batch_size: u32,
    ) -> (result: Result<u32, MigrationError>)
        ensures
            result == match rules::batch_refusal(old(ledger)@.config, caller) {
                Some(e) => Err::<u32, _>(e),
                None => Ok(rules::batch_cursor(old(ledger)@, batch_size)),
            },
            final(ledger)@ == rules::batch_state(old(ledger)@, now, caller, batch_size),
            final(ledger).log() == old(ledger).log() + rules::batch_actions(
                old(ledger)@,
                now,
                caller,
                batch_size,
            ),
    {
        let ghost before = old(ledger)@;
        let config = match ledger.config() {
            Some(config) => config,
            None => {
                assert(ledger.log() =~= old(ledger).log() + rules::batch_actions(
                    before,
                    now,
                    caller,
                    batch_size,
                ));
                return Err(MigrationError::NotInitialized);
            },
        };
        ledger.perform(HostAction::RequireAuth(caller));
        if caller != config.admin {
            assert(ledger.log() =~= old(ledger).log() + rules::batch_actions(
                before,
                now,
                caller,
                batch_size,
            ));
            return Err(MigrationError::NotAdmin);
        }
        let count: u32 = ledger.count();
        let cursor: u32 = Self::batch_cursor(ledger, batch_size);
        let start: u32 = ledger.position();
        Self::upgrade_window(ledger, start, cursor, now);
        ledger.perform(HostAction::Store(Entry::MigrationCursor(cursor)));
        let status = if cursor >= count && count > 0 {
            MigrationStatus::Completed
        } else {
            MigrationStatus::InProgress
        };
        ledger.perform(HostAction::Store(Entry::MigrationStatus(status)));
        ledger.perform(HostAction::PublishStorageMigrated { cursor });
        proof {
            assert(ledger.log() =~= old(ledger).log() + rules::batch_actions(
                before,
                now,
                caller,
                batch_size,
            ));
        }
        Ok(cursor)
    }
}

} // verus!
