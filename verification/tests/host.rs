//! What the contract asks of the host, and what it reads.
use token_migration::contract::TokenMigrationContract;
use token_migration::error::MigrationError;
use token_migration::ledger::{Entry, HostAction, Ledger};
use token_migration::plan;
use token_migration::types::{
    Address, AddressKind, DataKey, Durability, MigrationConfig, MigrationStatus, UserRecordV1,
    UserRecordV2, VersionedUserRecord,
};

fn account(n: u128) -> Address {
    Address { kind: AddressKind::Account, hi: n, lo: n }
}

const ADMIN: u128 = 1;
const OLD: u128 = 2;
const NEW: u128 = 3;

fn terms() -> MigrationConfig {
    MigrationConfig {
        admin: account(ADMIN),
        old_token: account(OLD),
        new_token: account(NEW),
        ratio_new_per_old: 10,
        deadline: 500,
    }
}

/// A ledger that holds what an initialized contract has stored, and asks nothing yet.
fn initialized() -> Ledger {
    let mut ledger = Ledger::new();
    ledger.load(Entry::Config(terms()));
    ledger.load(Entry::TotalMigrated(0));
    ledger.load(Entry::UserCount(0));
    ledger.load(Entry::MigrationCursor(0));
    ledger.load(Entry::MigrationStatus(MigrationStatus::NotStarted));
    ledger
}

fn kept_alive(key: DataKey) -> HostAction {
    HostAction::ExtendTtl { key, threshold: 100_000, extend_to: 100_000 }
}

fn v1(amount: i128) -> VersionedUserRecord {
    VersionedUserRecord::V1(UserRecordV1 { amount })
}

fn v2(amount: i128, migrated_at: u64) -> VersionedUserRecord {
    VersionedUserRecord::V2(UserRecordV2 { amount, migrated_at })
}

#[test]
fn initialization_stores_the_terms_and_the_counters() {
    let mut ledger = Ledger::new();
    let result = TokenMigrationContract::initialize(
        &mut ledger,
        account(ADMIN),
        account(OLD),
        account(NEW),
        10,
        500,
    );
    assert_eq!(result, Ok(()));
    assert_eq!(
        ledger.actions(),
        &vec![
            HostAction::Store(Entry::Config(terms())),
            HostAction::Store(Entry::TotalMigrated(0)),
            HostAction::Store(Entry::UserCount(0)),
            HostAction::Store(Entry::MigrationCursor(0)),
            HostAction::Store(Entry::MigrationStatus(MigrationStatus::NotStarted)),
            HostAction::ExtendInstanceTtl { threshold: 100_000, extend_to: 100_000 },
        ]
    );
}

#[test]
fn a_first_migration_swaps_the_tokens_and_joins_the_index() {
    let mut ledger = initialized();
    let user = account(7);
    assert_eq!(TokenMigrationContract::migrate(&mut ledger, 500, user, 25), Ok(()));
    assert_eq!(
        ledger.actions(),
        &vec![
            HostAction::RequireAuth(user),
            HostAction::TransferFrom { token: account(OLD), from: user, amount: 25 },
            HostAction::Mint { token: account(NEW), to: user, amount: 250 },
            HostAction::Store(Entry::UserMigrated(user, 25)),
            kept_alive(DataKey::UserMigrated(user)),
            HostAction::Store(Entry::UserRecord(user, v1(25))),
            kept_alive(DataKey::UserRecord(user)),
            HostAction::Store(Entry::UserIndex(0, user)),
            HostAction::Store(Entry::UserCount(1)),
            HostAction::Store(Entry::MigrationStatus(MigrationStatus::InProgress)),
            HostAction::Store(Entry::TotalMigrated(25)),
            HostAction::PublishMigrated { user, amount: 25, new_amount: 250 },
        ]
    );
}

#[test]
fn a_further_migration_leaves_the_index_alone() {
    let mut ledger = initialized();
    let user = account(7);
    ledger.load(Entry::TotalMigrated(40));
    ledger.load(Entry::UserCount(3));
    ledger.load(Entry::UserMigrated(user, 40));
    ledger.load(Entry::UserRecord(user, v2(40, 9)));
    assert_eq!(TokenMigrationContract::migrate(&mut ledger, 10, user, 2), Ok(()));
    assert_eq!(
        ledger.actions(),
        &vec![
            HostAction::RequireAuth(user),
            HostAction::TransferFrom { token: account(OLD), from: user, amount: 2 },
            HostAction::Mint { token: account(NEW), to: user, amount: 20 },
            HostAction::Store(Entry::UserMigrated(user, 42)),
            kept_alive(DataKey::UserMigrated(user)),
            HostAction::Store(Entry::UserRecord(user, v1(42))),
            kept_alive(DataKey::UserRecord(user)),
            HostAction::Store(Entry::TotalMigrated(42)),
            HostAction::PublishMigrated { user, amount: 2, new_amount: 20 },
        ]
    );
}

#[test]
fn a_refused_migration_writes_nothing() {
    let user = account(7);

    let mut late = initialized();
    assert_eq!(
        TokenMigrationContract::migrate(&mut late, 501, user, 25),
        Err(MigrationError::MigrationEnded)
    );
    assert_eq!(late.actions(), &vec![HostAction::RequireAuth(user)]);

    let swap = |amount: i128| {
        vec![
            HostAction::RequireAuth(user),
            HostAction::TransferFrom { token: account(OLD), from: user, amount },
            HostAction::Mint { token: account(NEW), to: user, amount: amount * 10 },
        ]
    };

    let mut rich = initialized();
    rich.load(Entry::UserMigrated(user, i128::MAX));
    assert_eq!(
        TokenMigrationContract::migrate(&mut rich, 0, user, 1),
        Err(MigrationError::UserAmountOverflow)
    );
    assert_eq!(rich.actions(), &swap(1));
    assert_eq!(TokenMigrationContract::get_user_migrated(&rich, &user), i128::MAX);

    let mut full = initialized();
    full.load(Entry::TotalMigrated(i128::MAX - 4));
    assert_eq!(
        TokenMigrationContract::migrate(&mut full, 0, user, 5),
        Err(MigrationError::TotalAmountOverflow)
    );
    assert_eq!(full.actions(), &swap(5));
    assert_eq!(TokenMigrationContract::get_user_migrated(&full, &user), 0);
    assert_eq!(TokenMigrationContract::user_count(&full), 0);
    assert_eq!(TokenMigrationContract::migrate(&mut full, 0, user, 4), Ok(()));

    let mut crowded = initialized();
    crowded.load(Entry::UserCount(u32::MAX));
    assert_eq!(
        TokenMigrationContract::migrate(&mut crowded, 0, user, 5),
        Err(MigrationError::UserCountOverflow)
    );
    // A user who is there already takes no further position.
    crowded.load(Entry::UserRecord(user, v1(0)));
    assert_eq!(TokenMigrationContract::migrate(&mut crowded, 0, user, 5), Ok(()));

    let mut huge = initialized();
    assert_eq!(
        TokenMigrationContract::migrate(&mut huge, 0, user, i128::MAX),
        Err(MigrationError::AmountOverflow)
    );
    assert_eq!(huge.actions(), &vec![HostAction::RequireAuth(user)]);

    let mut broken = Ledger::new();
    broken.load(Entry::Config(terms()));
    assert_eq!(
        TokenMigrationContract::migrate(&mut broken, 0, user, 5),
        Err(MigrationError::NotInitialized)
    );
    assert_eq!(broken.actions(), &swap(5));
}

#[test]
fn a_withdrawal_sends_what_is_left_to_the_admin() {
    let auth = HostAction::RequireAuth(account(ADMIN));
    let payout = HostAction::Transfer { token: account(OLD), to: account(ADMIN), amount: 12 };
    for (balance, kept) in [(12, vec![auth, payout]), (0, vec![auth]), (-3, vec![auth])] {
        let mut ledger = initialized();
        let withdrawal = TokenMigrationContract::withdraw_legacy(&mut ledger, 501).unwrap();
        assert_eq!(withdrawal.token(), account(OLD));
        assert_eq!(withdrawal.to(), account(ADMIN));
        assert_eq!(ledger.actions(), &vec![auth]);
        TokenMigrationContract::withdraw_balance(&mut ledger, withdrawal, balance);
        assert_eq!(ledger.actions(), &kept);
    }
}

#[test]
fn over_a_history_legacy_tokens_leave_for_the_admin_alone() {
    let mut ledger = Ledger::new();
    let mut kept: Vec<HostAction> = Vec::new();
    for (now, balance) in [(0, 5), (500, 6), (501, 0), (501, 7), (900, 8)] {
        if let Ok(withdrawal) = TokenMigrationContract::withdraw_legacy(&mut ledger, now) {
            TokenMigrationContract::withdraw_balance(&mut ledger, withdrawal, balance);
        }
        let _ = TokenMigrationContract::initialize(
            &mut ledger,
            account(ADMIN),
            account(OLD),
            account(NEW),
            10,
            500,
        );
        let _ = TokenMigrationContract::migrate(&mut ledger, now, account(7), 3);
        let _ =
            TokenMigrationContract::migrate_storage_batch(&mut ledger, now, account(ADMIN), 1);
    }
    let actions = ledger.actions();
    for (i, action) in actions.iter().enumerate() {
        if matches!(action, HostAction::Transfer { .. }) {
            assert_eq!(actions[i - 1], HostAction::RequireAuth(account(ADMIN)));
            kept.push(*action);
        }
    }
    let payout =
        |amount| HostAction::Transfer { token: account(OLD), to: account(ADMIN), amount };
    assert_eq!(kept, vec![payout(7), payout(8)]);
}

#[test]
fn a_question_runs_on_the_one_entry_that_it_reads() {
    let user = account(7);
    let alone = |entry: Entry| {
        let mut ledger = Ledger::new();
        ledger.load(entry);
        ledger
    };
    let amount = alone(Entry::UserMigrated(user, 15));
    assert_eq!(TokenMigrationContract::get_user_migrated(&amount, &user), 15);
    let record = alone(Entry::UserRecord(user, v2(15, 3)));
    assert_eq!(TokenMigrationContract::get_user_record(&record, &user), Some(v2(15, 3)));
    let config = alone(Entry::Config(terms()));
    assert_eq!(TokenMigrationContract::get_config(&config), Ok(terms()));
    let total = alone(Entry::TotalMigrated(40));
    assert_eq!(TokenMigrationContract::get_total_migrated(&total), Ok(40));
    let status = alone(Entry::MigrationStatus(MigrationStatus::Completed));
    assert_eq!(TokenMigrationContract::migration_status(&status), MigrationStatus::Completed);
    let count = alone(Entry::UserCount(6));
    assert_eq!(TokenMigrationContract::user_count(&count), 6);
    let mut terms_alone = alone(Entry::Config(terms()));
    let withdrawal = TokenMigrationContract::withdraw_legacy(&mut terms_alone, 501).unwrap();
    assert_eq!(withdrawal.to(), account(ADMIN));
}

#[test]
fn an_early_withdrawal_still_asks_who_it_is() {
    let mut ledger = initialized();
    assert_eq!(
        TokenMigrationContract::withdraw_legacy(&mut ledger, 500),
        Err(MigrationError::WithdrawBeforeDeadline)
    );
    assert_eq!(ledger.actions(), &vec![HostAction::RequireAuth(account(ADMIN))]);
}

#[test]
fn a_batch_rewrites_first_schema_records_alone() {
    let mut ledger = initialized();
    ledger.load(Entry::UserCount(5));
    ledger.load(Entry::MigrationCursor(1));
    for i in 0..5u32 {
        if i != 3 {
            ledger.load(Entry::UserIndex(i, account(10 + i as u128)));
        }
    }
    ledger.load(Entry::UserRecord(account(10), v1(1)));
    ledger.load(Entry::UserRecord(account(11), v1(2)));
    ledger.load(Entry::UserRecord(account(12), v2(3, 8)));
    ledger.load(Entry::UserRecord(account(14), v1(4)));
    let result =
        TokenMigrationContract::migrate_storage_batch(&mut ledger, 77, account(ADMIN), 4);
    assert_eq!(result, Ok(5));
    assert_eq!(
        ledger.actions(),
        &vec![
            HostAction::RequireAuth(account(ADMIN)),
            HostAction::Store(Entry::UserRecord(account(11), v2(2, 77))),
            HostAction::Store(Entry::UserRecord(account(14), v2(4, 77))),
            HostAction::Store(Entry::MigrationCursor(5)),
            HostAction::Store(Entry::MigrationStatus(MigrationStatus::Completed)),
            HostAction::PublishStorageMigrated { cursor: 5 },
        ]
    );
    // A position without a user is passed over.
    assert_eq!(
        TokenMigrationContract::list_users(&ledger, 2, 3),
        vec![account(12), account(14)]
    );
}

#[test]
fn a_batch_by_someone_else_is_refused() {
    let mut ledger = initialized();
    assert_eq!(
        TokenMigrationContract::migrate_storage_batch(&mut ledger, 0, account(7), 4),
        Err(MigrationError::NotAdmin)
    );
    assert_eq!(ledger.actions(), &vec![HostAction::RequireAuth(account(7))]);
}

#[test]
fn carrying_out_the_actions_gives_the_same_storage() {
    let mut ledger = Ledger::new();
    let admin = account(ADMIN);
    TokenMigrationContract::initialize(&mut ledger, admin, account(OLD), account(NEW), 10, 500)
        .unwrap();
    for n in 0..4u128 {
        TokenMigrationContract::migrate(&mut ledger, 3, account(20 + n), 5 + n as i128).unwrap();
    }
    TokenMigrationContract::migrate_storage_batch(&mut ledger, 4, admin, 3).unwrap();

    let mut stored = Ledger::new();
    for action in ledger.actions().iter() {
        if let HostAction::Store(entry) = action {
            stored.load(*entry);
        }
    }
    assert_eq!(stored.config(), ledger.config());
    assert_eq!(stored.total_migrated(), Some(26));
    assert_eq!(stored.count(), 4);
    assert_eq!(stored.position(), 3);
    assert_eq!(stored.status(), Some(MigrationStatus::InProgress));
    for n in 0..4u128 {
        let user = account(20 + n);
        assert_eq!(stored.migrated_by(&user), 5 + n as i128);
        assert_eq!(stored.record(&user), ledger.record(&user));
        assert_eq!(stored.user_at(n as u32), Some(user));
    }
}

#[test]
fn a_batch_runs_on_the_entries_that_it_reads() {
    let whole = {
        let mut ledger = initialized();
        ledger.load(Entry::UserCount(6));
        for i in 0..6u32 {
            let user = account(30 + i as u128);
            ledger.load(Entry::UserIndex(i, user));
            ledger.load(Entry::UserMigrated(user, 1));
            ledger.load(Entry::UserRecord(user, v1(1)));
        }
        ledger.load(Entry::MigrationCursor(2));
        ledger
    };
    let mut part = initialized();
    part.load(Entry::UserCount(6));
    part.load(Entry::MigrationCursor(2));
    let start = part.position();
    let end = TokenMigrationContract::batch_cursor(&part, 2);
    assert_eq!((start, end), (2, 4));
    let index = plan::list_index_keys(start, end);
    assert_eq!(index, vec![DataKey::UserIndex(2), DataKey::UserIndex(3)]);
    part.load(Entry::UserIndex(2, whole.user_at(2).unwrap()));
    part.load(Entry::UserIndex(3, whole.user_at(3).unwrap()));
    let records = plan::list_record_keys(&part, start, end);
    assert_eq!(
        records,
        vec![DataKey::UserRecord(account(32)), DataKey::UserRecord(account(33))]
    );
    part.load(Entry::UserRecord(account(32), whole.record(&account(32)).unwrap()));
    part.load(Entry::UserRecord(account(33), whole.record(&account(33)).unwrap()));

    let mut whole = whole;
    let admin = account(ADMIN);
    let one = TokenMigrationContract::migrate_storage_batch(&mut whole, 9, admin, 2);
    let two = TokenMigrationContract::migrate_storage_batch(&mut part, 9, admin, 2);
    assert_eq!(one, two);
    assert_eq!(whole.actions(), part.actions());
}

#[test]
fn keys_know_their_store() {
    assert_eq!(
        plan::list_contract_keys(),
        vec![
            DataKey::Config,
            DataKey::TotalMigrated,
            DataKey::UserCount,
            DataKey::MigrationCursor,
            DataKey::MigrationStatus,
        ]
    );
    for key in plan::list_contract_keys() {
        assert_eq!(key.durability(), Durability::Instance);
    }
    let user = account(7);
    assert_eq!(
        plan::list_user_keys(user),
        vec![DataKey::UserMigrated(user), DataKey::UserRecord(user)]
    );
    for key in plan::list_user_keys(user) {
        assert_eq!(key.durability(), Durability::Persistent);
    }
    assert_eq!(DataKey::UserIndex(4).durability(), Durability::Persistent);
    assert_eq!(plan::list_index_keys(5, 5), vec![]);
    assert_eq!(plan::list_index_keys(6, 5), vec![]);
    assert_eq!(Entry::UserIndex(4, user).key(), DataKey::UserIndex(4));
    assert_eq!(Entry::UserMigrated(user, 1).key(), DataKey::UserMigrated(user));
    assert_eq!(Entry::Config(terms()).key(), DataKey::Config);
}

#[test]
fn refusals_have_their_texts() {
    let texts = [
        (MigrationError::AlreadyInitialized, "Already initialized"),
        (MigrationError::NotInitialized, "Not initialized"),
        (MigrationError::MigrationEnded, "Migration period has ended"),
        (MigrationError::AmountNotPositive, "Amount must be positive"),
        (MigrationError::AmountOverflow, "Amount overflow"),
        (MigrationError::UserAmountOverflow, "User amount overflow"),
        (MigrationError::UserCountOverflow, "User count overflow"),
        (MigrationError::TotalAmountOverflow, "Total amount overflow"),
        (MigrationError::WithdrawBeforeDeadline, "Cannot withdraw before deadline"),
        (MigrationError::NotAdmin, "Only admin can run storage migration"),
    ];
    for (error, text) in texts {
        assert_eq!(error.message(), text);
    }
}

#[test]
fn a_migration_runs_on_the_entries_that_it_reads() {
    let user = account(7);
    let mut part = initialized();
    part.load(Entry::TotalMigrated(40));
    part.load(Entry::UserCount(2));
    part.load(Entry::UserMigrated(user, 15));
    part.load(Entry::UserRecord(user, v1(15)));
    let mut whole = initialized();
    whole.load(Entry::TotalMigrated(40));
    whole.load(Entry::UserCount(2));
    for (i, who, amount) in [(0u32, account(6), 25), (1u32, user, 15)] {
        whole.load(Entry::UserIndex(i, who));
        whole.load(Entry::UserMigrated(who, amount));
        whole.load(Entry::UserRecord(who, v1(amount)));
    }
    let one = TokenMigrationContract::migrate(&mut part, 3, user, 8);
    let two = TokenMigrationContract::migrate(&mut whole, 3, user, 8);
    assert_eq!(one, two);
    assert_eq!(part.actions(), whole.actions());
}

#[test]
fn a_page_and_an_initialization_run_on_the_entries_that_they_read() {
    let mut part = initialized();
    part.load(Entry::UserCount(4));
    let mut whole = initialized();
    whole.load(Entry::UserCount(4));
    for i in 0..4u32 {
        whole.load(Entry::UserIndex(i, account(i as u128)));
        whole.load(Entry::UserMigrated(account(i as u128), 1));
    }
    for key in plan::list_index_keys(1, TokenMigrationContract::window_end(4, 1, 2)) {
        if let DataKey::UserIndex(i) = key {
            part.load(Entry::UserIndex(i, whole.user_at(i).unwrap()));
        }
    }
    assert_eq!(
        TokenMigrationContract::list_users(&part, 1, 2),
        TokenMigrationContract::list_users(&whole, 1, 2)
    );
    assert_eq!(TokenMigrationContract::list_users(&part, 1, 2), vec![account(1), account(2)]);
    let one = TokenMigrationContract::initialize(&mut part, account(9), account(9), account(9), 1, 1);
    let two = TokenMigrationContract::initialize(&mut whole, account(9), account(9), account(9), 1, 1);
    assert_eq!(one, Err(MigrationError::AlreadyInitialized));
    assert_eq!(one, two);
}

#[test]
fn over_a_history_the_new_tokens_are_the_multiple_of_the_old() {
    let mut ledger = initialized();
    let mut kept: Vec<HostAction> = Vec::new();
    for (now, user, amount) in [(1, 7, 5), (2, 8, 6), (600, 7, 9), (3, 7, -4), (4, 7, 11)] {
        let before = ledger.actions().len();
        if TokenMigrationContract::migrate(&mut ledger, now, account(user), amount).is_ok() {
            kept.extend(ledger.actions()[before..].iter());
        }
        let before = ledger.actions().len();
        TokenMigrationContract::migrate_storage_batch(&mut ledger, now, account(ADMIN), 1).unwrap();
        kept.extend(ledger.actions()[before..].iter());
    }
    let mut taken_in: i128 = 0;
    let mut minted: i128 = 0;
    for action in kept {
        match action {
            HostAction::TransferFrom { amount, .. } => taken_in += amount,
            HostAction::Mint { amount, .. } => minted += amount,
            _ => {}
        }
    }
    assert_eq!(TokenMigrationContract::get_total_migrated(&ledger), Ok(22));
    assert_eq!(taken_in, 22);
    assert_eq!(minted, 220);
}

#[test]
fn a_write_is_read_back_and_changes_nothing_else() {
    let mut ledger = Ledger::new();
    let (user, other) = (account(7), account(8));
    ledger.load(Entry::UserMigrated(other, 1));
    ledger.perform(HostAction::Store(Entry::UserMigrated(user, 2)));
    ledger.perform(HostAction::Store(Entry::UserMigrated(user, 3)));
    ledger.perform(HostAction::RequireAuth(user));
    assert_eq!(ledger.migrated_by(&user), 3);
    assert_eq!(ledger.migrated_by(&other), 1);
    assert_eq!(ledger.record(&user), None);
    assert_eq!(ledger.user_at(0), None);
    assert_eq!(ledger.config(), None);
    assert_eq!(ledger.total_migrated(), None);
    assert_eq!(ledger.actions().len(), 3);
}

#[test]
fn events_bear_their_topics() {
    let mut ledger = initialized();
    let user = account(7);
    TokenMigrationContract::migrate(&mut ledger, 0, user, 25).unwrap();
    let migrated: Vec<Option<&str>> = ledger.actions().iter().map(|a| a.topic()).collect();
    assert_eq!(migrated.len(), 12);
    assert_eq!(migrated[11], Some("migrated"));
    assert!(migrated[..11].iter().all(|topic| topic.is_none()));
    TokenMigrationContract::migrate_storage_batch(&mut ledger, 0, account(ADMIN), 1).unwrap();
    let all: Vec<Option<&str>> = ledger.actions().iter().map(|a| a.topic()).collect();
    assert_eq!(all.last(), Some(&Some("storage_migrated")));
    assert!(all[12..all.len() - 1].iter().all(|topic| topic.is_none()));
}
