//! The rules of the migration, stated over the contents of the contract's storage.
use crate::error::MigrationError;
use crate::ledger::{Entry, HostAction, State};
use crate::types::{
    Address, DataKey, MigrationConfig, MigrationStatus, UserRecordV1, VersionedUserRecord,
};
use vstd::prelude::*;

verus! {

/// An entry is kept alive once its time to live falls below this many ledgers.
pub const TTL_THRESHOLD: u32 = 100_000;

/// The time to live, in ledgers, that an entry is given when it is kept alive.
pub const TTL_EXTEND_TO: u32 = 100_000;

// --- Initialization ---

/// The storage after the contract was given its terms.
pub open spec fn initialized(state: State, config: MigrationConfig) -> State {
    State {
        config: Some(config),
        total_migrated: Some(0),
        user_count: Some(0),
        cursor: Some(0),
        status: Some(MigrationStatus::NotStarted),
        ..state
    }
}

/// Whether the contract can be given its terms: they can be set once.
pub open spec fn initialize_result(state: State) -> Result<(), MigrationError> {
    if state.config is Some {
        Err(MigrationError::AlreadyInitialized)
    } else {
        Ok(())
    }
}

/// The storage after the contract was asked to take the terms. A refused request leaves
/// it as it was.
pub open spec fn initialize_state(state: State, config: MigrationConfig) -> State {
    if initialize_result(state) is Ok {
        initialized(state, config)
    } else {
        state
    }
}

/// What initialization asks of the host.
pub open spec fn initialize_actions(state: State, config: MigrationConfig) -> Seq<HostAction> {
    if initialize_result(state) is Err {
        seq![]
    } else {
        seq![
            HostAction::Store(Entry::Config(config)),
            HostAction::Store(Entry::TotalMigrated(0)),
            HostAction::Store(Entry::UserCount(0)),
            HostAction::Store(Entry::MigrationCursor(0)),
            HostAction::Store(Entry::MigrationStatus(MigrationStatus::NotStarted)),
            HostAction::ExtendInstanceTtl { threshold: TTL_THRESHOLD, extend_to: TTL_EXTEND_TO },
        ]
    }
}

// --- Migration of tokens ---

/// The amount of new tokens for `amount` old ones at `now`, or why there are none.
pub open spec fn quote(config: Option<MigrationConfig>, now: u64, amount: i128) -> Result<
    i128,
    MigrationError,
> {
    match config {
        None => Err(MigrationError::NotInitialized),
        Some(config) => {
            let new_amount = amount * config.ratio_new_per_old;
            if now > config.deadline {
                Err(MigrationError::MigrationEnded)
            } else if amount <= 0 {
                Err(MigrationError::AmountNotPositive)
            } else if new_amount > i128::MAX {
                Err(MigrationError::AmountOverflow)
            } else {
                Ok(new_amount as i128)
            }
        },
    }
}

/// Why `amount`, though quoted, cannot be booked for `user`, if it cannot.
pub open spec fn booking_refusal(state: State, user: Address, amount: i128) -> Option<
    MigrationError,
> {
    if state.migrated_by(user) + amount > i128::MAX {
        Some(MigrationError::UserAmountOverflow)
    } else if !state.records.contains_key(user) && state.count() == u32::MAX {
        Some(MigrationError::UserCountOverflow)
    } else {
        match state.total_migrated {
            None => Some(MigrationError::NotInitialized),
            Some(total) => if total + amount > i128::MAX {
                Some(MigrationError::TotalAmountOverflow)
            } else {
                None
            },
        }
    }
}

/// The storage after `amount` was booked for `user`. A user without a record joins
/// the index at its end, and the storage migration has work again.
pub open spec fn booked(state: State, user: Address, amount: i128) -> State {
    let sum = (state.migrated_by(user) + amount) as i128;
    let joined = if state.records.contains_key(user) {
        state
    } else {
        State {
            index: state.index.insert(state.count(), user),
            user_count: Some((state.count() + 1) as u32),
            status: Some(MigrationStatus::InProgress),
            ..state
        }
    };
    State {
        migrated: state.migrated.insert(user, sum),
        records: state.records.insert(user, VersionedUserRecord::V1(UserRecordV1 { amount: sum })),
        total_migrated: Some((state.total_migrated->Some_0 + amount) as i128),
        ..joined
    }
}

/// What booking asks of the host: the writes, the entries to keep alive, the event.
pub open spec fn booking_actions(
    state: State,
    user: Address,
    amount: i128,
    new_amount: i128,
) -> Seq<HostAction> {
    let sum = (state.migrated_by(user) + amount) as i128;
    let joining = if state.records.contains_key(user) {
        seq![]
    } else {
        seq![
            HostAction::Store(Entry::UserIndex(state.count(), user)),
            HostAction::Store(Entry::UserCount((state.count() + 1) as u32)),
            HostAction::Store(Entry::MigrationStatus(MigrationStatus::InProgress)),
        ]
    };
    seq![
        HostAction::Store(Entry::UserMigrated(user, sum)),
        HostAction::ExtendTtl {
            key: DataKey::UserMigrated(user),
            threshold: TTL_THRESHOLD,
            extend_to: TTL_EXTEND_TO,
        },
        HostAction::Store(
            Entry::UserRecord(user, VersionedUserRecord::V1(UserRecordV1 { amount: sum })),
        ),
        HostAction::ExtendTtl {
            key: DataKey::UserRecord(user),
            threshold: TTL_THRESHOLD,
            extend_to: TTL_EXTEND_TO,
        },
    ] + joining + seq![
        HostAction::Store(
            Entry::TotalMigrated((state.total_migrated->Some_0 + amount) as i128),
        ),
        HostAction::PublishMigrated { user, amount, new_amount },
    ]
}

/// The calls that swap the tokens: the old ones are taken in, the new ones minted.
pub open spec fn exchange_actions(
    config: MigrationConfig,
    user: Address,
    amount: i128,
    new_amount: i128,
) -> Seq<HostAction> {
    seq![
        HostAction::TransferFrom { token: config.old_token, from: user, amount },
        HostAction::Mint { token: config.new_token, to: user, amount: new_amount },
    ]
}

/// Whether `user` can migrate `amount` at `now`.
pub open spec fn migrate_result(state: State, now: u64, user: Address, amount: i128) -> Result<
    (),
    MigrationError,
> {
    match quote(state.config, now, amount) {
        Err(e) => Err(e),
        Ok(_) => match booking_refusal(state, user, amount) {
            Some(e) => Err(e),
            None => Ok(()),
        },
    }
}

/// What a migration asks of the host, in order. A refused one asks for what comes
/// before the refusal, and never for a write.
pub open spec fn migrate_actions(state: State, now: u64, user: Address, amount: i128) -> Seq<
    HostAction,
> {
    seq![HostAction::RequireAuth(user)] + match quote(state.config, now, amount) {
        Err(_) => seq![],
        Ok(new_amount) => exchange_actions(state.config->Some_0, user, amount, new_amount) + (
        if booking_refusal(state, user, amount) is Some {
            seq![]
        } else {
            booking_actions(state, user, amount, new_amount)
        }),
    }
}

/// The storage after a migration. A refused one leaves it as it was.
pub open spec fn migrate_state(state: State, now: u64, user: Address, amount: i128) -> State {
    if migrate_result(state, now, user, amount) is Ok {
        booked(state, user, amount)
    } else {
        state
    }
}

// --- Withdrawal of what is left ---

/// Whether the admin can withdraw at `now`.
pub open spec fn withdraw_refusal(config: Option<MigrationConfig>, now: u64) -> Option<
    MigrationError,
> {
    match config {
        None => Some(MigrationError::NotInitialized),
        Some(config) => if now <= config.deadline {
            Some(MigrationError::WithdrawBeforeDeadline)
        } else {
            None
        },
    }
}

/// What ends a withdrawal when the contract holds `balance` of `token`: a balance above
/// zero goes to `to`.
pub open spec fn payout_actions(token: Address, to: Address, balance: i128) -> Seq<HostAction> {
    if balance > 0 {
        seq![HostAction::Transfer { token, to, amount: balance }]
    } else {
        seq![]
    }
}

/// What an accepted withdrawal asks of the host, in order, when the contract holds
/// `balance` of the old token.
pub open spec fn withdraw_actions(config: MigrationConfig, balance: i128) -> Seq<HostAction> {
    seq![HostAction::RequireAuth(config.admin)] + payout_actions(
        config.old_token,
        config.admin,
        balance,
    )
}

// --- Pages of the index ---

/// The end of a window of `size` positions from `start`, within `count` of them.
pub open spec fn window_end(count: u32, start: u32, size: u32) -> u32 {
    if start + size <= count {
        (start + size) as u32
    } else {
        count
    }
}

/// The users at the positions from `start` to before `end`, in order. A position
/// that holds nobody is passed over.
pub open spec fn listed(state: State, start: u32, end: u32) -> Seq<Address>
    decreases end,
{
    if end <= start {
        seq![]
    } else {
        let before = listed(state, start, (end - 1) as u32);
        if state.index.contains_key((end - 1) as u32) {
            before.push(state.index[(end - 1) as u32])
        } else {
            before
        }
    }
}

// --- Migration of the storage schema ---

/// Whether `user` is at one of the positions from `start` to before `end`.
pub open spec fn indexed_within(state: State, start: u32, end: u32, user: Address) -> bool {
    exists|i: u32|
        start <= i < end && #[trigger] state.index.contains_key(i) && state.index[i] == user
}

/// A window that grows by one position takes in the user there, if any, and nobody else.
pub proof fn lemma_window_grows(state: State, start: u32, end: u32)
    requires
        start <= end < u32::MAX,
    ensures
        forall|user: Address|
            #![trigger indexed_within(state, start, (end + 1) as u32, user)]
            indexed_within(state, start, (end + 1) as u32, user) <==> (indexed_within(
                state,
                start,
                end,
                user,
            ) || (state.index.contains_key(end) && state.index[end] == user)),
{
    assert forall|user: Address|
        #![trigger indexed_within(state, start, (end + 1) as u32, user)]
        indexed_within(state, start, (end + 1) as u32, user) <==> (indexed_within(
            state,
            start,
            end,
            user,
        ) || (state.index.contains_key(end) && state.index[end] == user)) by {
        if indexed_within(state, start, end, user) {
            let i = choose|i: u32|
                start <= i < end && #[trigger] state.index.contains_key(i) && state.index[i]
                    == user;
            assert(start <= i < end + 1 && state.index.contains_key(i));
        }
    }
}

/// The records after the users at the positions from `start` to before `end` were
/// brought to the second schema.
pub open spec fn upgraded_records(state: State, start: u32, end: u32, now: u64) -> Map<
    Address,
    VersionedUserRecord,
> {
    Map::new(
        |user: Address| state.records.contains_key(user),
        |user: Address|
            if indexed_within(state, start, end, user) {
                state.records[user].upgraded(now)
            } else {
                state.records[user]
            },
    )
}

/// The writes that bring the users at the positions from `start` to before `end` to
/// the second schema: one for every first-schema record, where its user first comes.
pub open spec fn upgrade_actions(state: State, start: u32, end: u32, now: u64) -> Seq<HostAction>
    decreases end,
{
    if end <= start {
        seq![]
    } else {
        let last = (end - 1) as u32;
        let user = state.index[last];
        let before = upgrade_actions(state, start, last, now);
        if state.index.contains_key(last) && state.records.contains_key(user)
            && state.records[user] is V1 && !indexed_within(state, start, last, user) {
            before.push(
                HostAction::Store(Entry::UserRecord(user, state.records[user].upgraded(now))),
            )
        } else {
            before
        }
    }
}

/// Where the storage migration is after a batch of `size` positions.
pub open spec fn batch_cursor(state: State, size: u32) -> u32 {
    let end = window_end(state.count(), state.position(), size);
    if end > state.position() {
        end
    } else {
        state.position()
    }
}

/// The status once the storage migration is at `cursor` of `count` users.
pub open spec fn batch_status(cursor: u32, count: u32) -> MigrationStatus {
    if cursor >= count && count > 0 {
        MigrationStatus::Completed
    } else {
        MigrationStatus::InProgress
    }
}

/// Why `caller` cannot run a batch, if they cannot.
pub open spec fn batch_refusal(config: Option<MigrationConfig>, caller: Address) -> Option<
    MigrationError,
> {
    match config {
        None => Some(MigrationError::NotInitialized),
        Some(config) => if caller != config.admin {
            Some(MigrationError::NotAdmin)
        } else {
            None
        },
    }
}

/// The storage after a batch of `size` positions.
pub open spec fn upgraded(state: State, now: u64, size: u32) -> State {
    let cursor = batch_cursor(state, size);
    State {
        records: upgraded_records(state, state.position(), cursor, now),
        cursor: Some(cursor),
        status: Some(batch_status(cursor, state.count())),
        ..state
    }
}

/// The storage after `caller` asked for a batch. A refused one leaves it as it was.
pub open spec fn batch_state(state: State, now: u64, caller: Address, size: u32) -> State {
    if batch_refusal(state.config, caller) is Some {
        state
    } else {
        upgraded(state, now, size)
    }
}

/// What a batch asks of the host, in order.
pub open spec fn batch_actions(state: State, now: u64, caller: Address, size: u32) -> Seq<
    HostAction,
> {
    let cursor = batch_cursor(state, size);
    match batch_refusal(state.config, caller) {
        Some(MigrationError::NotInitialized) => seq![],
        Some(_) => seq![HostAction::RequireAuth(caller)],
        None => seq![HostAction::RequireAuth(caller)] + upgrade_actions(
            state,
            state.position(),
            cursor,
            now,
        ) + seq![
            HostAction::Store(Entry::MigrationCursor(cursor)),
            HostAction::Store(Entry::MigrationStatus(batch_status(cursor, state.count()))),
            HostAction::PublishStorageMigrated { cursor },
        ],
    }
}

} // verus!
