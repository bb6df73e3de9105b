//! The contract as its users and its admin see it.
use token_migration::contract::TokenMigrationContract;
use token_migration::error::MigrationError;
use token_migration::ledger::Ledger;
use token_migration::types::{
    Address, AddressKind, MigrationConfig, MigrationStatus, UserRecordV1, UserRecordV2,
    VersionedUserRecord,
};

/// A deployed contract with a clock.
struct Client {
    ledger: Ledger,
    now: u64,
}

impl Client {
    fn initialize(
        &mut self,
        admin: Address,
        old_token: Address,
        new_token: Address,
        ratio: u32,
        deadline: u64,
    ) {
        let ledger = &mut self.ledger;
        expect(TokenMigrationContract::initialize(
            ledger, admin, old_token, new_token, ratio, deadline,
        ))
    }

    fn migrate(&mut self, caller: Address, amount: i128) {
        expect(TokenMigrationContract::migrate(&mut self.ledger, self.now, caller, amount))
    }

    fn migrate_storage_batch(&mut self, caller: Address, batch_size: u32) -> u32 {
        let ledger = &mut self.ledger;
        expect(TokenMigrationContract::migrate_storage_batch(ledger, self.now, caller, batch_size))
    }

    fn get_config(&self) -> MigrationConfig {
        expect(TokenMigrationContract::get_config(&self.ledger))
    }

    fn get_user_migrated(&self, user: Address) -> i128 {
        TokenMigrationContract::get_user_migrated(&self.ledger, &user)
    }

    fn get_total_migrated(&self) -> i128 {
        expect(TokenMigrationContract::get_total_migrated(&self.ledger))
    }

    fn migration_status(&self) -> MigrationStatus {
        TokenMigrationContract::migration_status(&self.ledger)
    }

    fn user_count(&self) -> u32 {
        TokenMigrationContract::user_count(&self.ledger)
    }

    fn list_users(&self, start: u32, limit: u32) -> Vec<Address> {
        TokenMigrationContract::list_users(&self.ledger, start, limit)
    }

    fn get_user_record(&self, user: Address) -> Option<VersionedUserRecord> {
        TokenMigrationContract::get_user_record(&self.ledger, &user)
    }
}

/// A refusal aborts the transaction with its text.
fn expect<T>(result: Result<T, MigrationError>) -> T {
    match result {
        Ok(value) => value,
        Err(e) => panic!("{}", e.message()),
    }
}

fn contract(n: u128) -> Address {
    Address { kind: AddressKind::Contract, hi: 0, lo: n }
}

fn setup() -> (Client, Address, Address, Address, Address) {
    setup_with_ratio(1)
}

fn setup_with_ratio(ratio: u32) -> (Client, Address, Address, Address, Address) {
    let mut client = Client { ledger: Ledger::new(), now: 0 };
    let admin = contract(1);
    let user = contract(2);
    let old_token = contract(3);
    let new_token = contract(4);
    let deadline = client.now + 1000;
    client.initialize(admin, old_token, new_token, ratio, deadline);
    (client, admin, user, old_token, new_token)
}

#[test]
fn initialize_and_migrate() {
    let (mut client, _, user, _, _) = setup();

    client.migrate(user, 100);
    assert_eq!(client.get_user_migrated(user), 100);
    assert_eq!(client.get_total_migrated(), 100);
}

#[test]
#[should_panic(expected = "Amount must be positive")]
fn migrate_zero_panics() {
    let (mut client, _, user, _, _) = setup();
    client.migrate(user, 0);
}

#[test]
#[should_panic(expected = "Already initialized")]
fn double_initialize_panics() {
    let (mut client, admin, old, new, _) = setup();
    client.initialize(admin, old, new, 1, 2);
}

#[test]
fn config_exposes_ratio() {
    let (client, _, _, _, _) = setup();
    let cfg = client.get_config();
    assert_eq!(cfg.ratio_new_per_old, 1);
    assert!(cfg.deadline > client.now);
}

#[test]
fn migration_status_flag_tracks_lifecycle() {
    let (mut client, _, user, _, _) = setup();

    assert_eq!(client.migration_status(), MigrationStatus::NotStarted);
    client.migrate(user, 100);
    assert_eq!(client.migration_status(), MigrationStatus::InProgress);
}

#[test]
fn storage_keys_are_iterable() {
    let (mut client, _, user, _, _) = setup();

    let user2 = contract(5);
    client.migrate(user, 10);
    client.migrate(user2, 20);

    assert_eq!(client.user_count(), 2);
    let page = client.list_users(0, 10);
    assert_eq!(page.len(), 2);

    // Paginated cursor iteration should also work with a small page size.
    let first_page = client.list_users(0, 1);
    assert_eq!(first_page.len(), 1);
}

#[test]
fn cursor_batch_migrates_storage_v1_to_v2_without_data_loss() {
    let (mut client, admin, user, _, _) = setup();

    let user2 = contract(5);
    let user3 = contract(6);
    client.migrate(user, 10);
    client.migrate(user2, 20);
    client.migrate(user3, 30);

    // New records start life in the legacy v1 schema.
    match client.get_user_record(user).unwrap() {
        VersionedUserRecord::V1(r) => assert_eq!(r.amount, 10),
        VersionedUserRecord::V2(_) => panic!("expected v1 record before migration"),
    }

    // Migrate in small paginated batches to stay under per-tx CPU limits.
    let cursor1 = client.migrate_storage_batch(admin, 2);
    assert_eq!(cursor1, 2);
    assert_eq!(client.migration_status(), MigrationStatus::InProgress);

    let cursor2 = client.migrate_storage_batch(admin, 2);
    assert_eq!(cursor2, 3);
    assert_eq!(client.migration_status(), MigrationStatus::Completed);

    // All records now carry the v2 schema with no data loss.
    for (addr, amount) in [(user, 10i128), (user2, 20i128), (user3, 30i128)] {
        match client.get_user_record(addr).unwrap() {
            VersionedUserRecord::V2(r) => {
                assert_eq!(r.amount, amount);
                assert!(r.migrated_at > 0 || client.now == 0);
            }
            VersionedUserRecord::V1(_) => panic!("record should have been migrated to v2"),
        }
    }
}

#[test]
#[should_panic(expected = "Only admin can run storage migration")]
fn cursor_batch_requires_admin() {
    let (mut client, _admin, user, _, _) = setup();
    client.migrate(user, 10);
    client.migrate_storage_batch(user, 10);
}

#[test]
fn initialization_fixes_the_terms() {
    let (client, admin, _, old_token, new_token) = setup_with_ratio(7);
    assert_eq!(
        client.get_config(),
        MigrationConfig { admin, old_token, new_token, ratio_new_per_old: 7, deadline: 1000 }
    );
    assert_eq!(client.get_total_migrated(), 0);
    assert_eq!(client.user_count(), 0);
    assert_eq!(client.list_users(0, 10), vec![]);
}

#[test]
fn second_initialization_changes_nothing() {
    let (mut client, admin, user, old_token, new_token) = setup();
    client.migrate(user, 5);
    let asked = client.ledger.actions().clone();
    assert_eq!(
        TokenMigrationContract::initialize(&mut client.ledger, user, user, user, 9, 9),
        Err(MigrationError::AlreadyInitialized)
    );
    assert_eq!(
        client.get_config(),
        MigrationConfig { admin, old_token, new_token, ratio_new_per_old: 1, deadline: 1000 }
    );
    assert_eq!(client.get_total_migrated(), 5);
    assert_eq!(client.ledger.actions(), &asked);
}

#[test]
fn nothing_works_before_initialization() {
    let mut ledger = Ledger::new();
    let user = contract(2);
    assert_eq!(
        TokenMigrationContract::get_config(&ledger),
        Err(MigrationError::NotInitialized)
    );
    assert_eq!(
        TokenMigrationContract::get_total_migrated(&ledger),
        Err(MigrationError::NotInitialized)
    );
    assert_eq!(
        TokenMigrationContract::migrate(&mut ledger, 0, user, 5),
        Err(MigrationError::NotInitialized)
    );
    assert_eq!(
        TokenMigrationContract::withdraw_legacy(&mut ledger, 0),
        Err(MigrationError::NotInitialized)
    );
    assert_eq!(
        TokenMigrationContract::migrate_storage_batch(&mut ledger, 0, user, 5),
        Err(MigrationError::NotInitialized)
    );
    assert_eq!(TokenMigrationContract::get_user_migrated(&ledger, &user), 0);
    assert_eq!(TokenMigrationContract::get_user_record(&ledger, &user), None);
    assert_eq!(TokenMigrationContract::migration_status(&ledger), MigrationStatus::NotStarted);
    assert_eq!(TokenMigrationContract::user_count(&ledger), 0);
    assert_eq!(TokenMigrationContract::list_users(&ledger, 0, 10), vec![]);
}

#[test]
fn amounts_of_a_user_add_up() {
    let (mut client, _, user, _, _) = setup();
    let other = contract(5);
    client.migrate(user, 100);
    client.migrate(other, 7);
    client.migrate(user, 23);
    assert_eq!(client.get_user_migrated(user), 123);
    assert_eq!(client.get_user_migrated(other), 7);
    assert_eq!(client.get_total_migrated(), 130);
    assert_eq!(client.user_count(), 2);
    assert_eq!(client.list_users(0, 10), vec![user, other]);
    assert_eq!(
        client.get_user_record(user),
        Some(VersionedUserRecord::V1(UserRecordV1 { amount: 123 }))
    );
}

#[test]
fn an_account_and_a_contract_with_the_same_bits_are_two_users() {
    let (mut client, _, user, _, _) = setup();
    let twin = Address { kind: AddressKind::Account, ..user };
    client.migrate(user, 1);
    client.migrate(twin, 2);
    assert_eq!(client.get_user_migrated(user), 1);
    assert_eq!(client.get_user_migrated(twin), 2);
    assert_eq!(client.user_count(), 2);
}

#[test]
fn migration_is_open_up_to_the_deadline() {
    let (mut client, _, user, _, _) = setup();
    client.now = 1000;
    client.migrate(user, 1);
    assert_eq!(client.get_total_migrated(), 1);
    assert_eq!(
        TokenMigrationContract::migrate(&mut client.ledger, 1001, user, 1),
        Err(MigrationError::MigrationEnded)
    );
    // The deadline is looked at before the amount.
    assert_eq!(
        TokenMigrationContract::migrate(&mut client.ledger, 1001, user, 0),
        Err(MigrationError::MigrationEnded)
    );
    assert_eq!(client.get_total_migrated(), 1);
}

#[test]
fn withdrawal_is_open_after_the_deadline() {
    let (mut client, admin, _, old_token, _) = setup();
    assert_eq!(
        TokenMigrationContract::withdraw_legacy(&mut client.ledger, 1000),
        Err(MigrationError::WithdrawBeforeDeadline)
    );
    let withdrawal =
        TokenMigrationContract::withdraw_legacy(&mut client.ledger, 1001).unwrap();
    assert_eq!(withdrawal.token(), old_token);
    assert_eq!(withdrawal.to(), admin);
}

#[test]
fn negative_amounts_are_refused() {
    let (mut client, _, user, _, _) = setup();
    assert_eq!(
        TokenMigrationContract::migrate(&mut client.ledger, 0, user, -1),
        Err(MigrationError::AmountNotPositive)
    );
}

#[test]
fn quotes_are_multiples_of_the_ratio() {
    let (client, _, _, _, _) = setup_with_ratio(10);
    let config = Some(client.get_config());
    assert_eq!(TokenMigrationContract::quote(&config, 0, 25), Ok(250));
    assert_eq!(TokenMigrationContract::quote(&config, 0, 10), Ok(100));
    assert_eq!(TokenMigrationContract::quote(&config, 0, 15), Ok(150));
    assert_eq!(TokenMigrationContract::quote(&config, 0, i128::MAX / 10), Ok(i128::MAX / 10 * 10));
    assert_eq!(
        TokenMigrationContract::quote(&config, 0, i128::MAX / 10 + 1),
        Err(MigrationError::AmountOverflow)
    );
    assert_eq!(
        TokenMigrationContract::quote(&None, 0, 1),
        Err(MigrationError::NotInitialized)
    );
    let (free, _, _, _, _) = setup_with_ratio(0);
    assert_eq!(TokenMigrationContract::quote(&Some(free.get_config()), 0, i128::MAX), Ok(0));
}

#[test]
fn batches_stamp_the_time_and_keep_older_stamps() {
    let (mut client, admin, user, _, _) = setup();
    let user2 = contract(5);
    client.migrate(user, 10);
    client.now = 50;
    assert_eq!(client.migrate_storage_batch(admin, 10), 1);
    assert_eq!(client.migration_status(), MigrationStatus::Completed);
    client.migrate(user2, 20);
    assert_eq!(client.migration_status(), MigrationStatus::InProgress);
    client.now = 60;
    assert_eq!(client.migrate_storage_batch(admin, 10), 2);
    assert_eq!(client.migration_status(), MigrationStatus::Completed);
    assert_eq!(
        client.get_user_record(user),
        Some(VersionedUserRecord::V2(UserRecordV2 { amount: 10, migrated_at: 50 }))
    );
    assert_eq!(
        client.get_user_record(user2),
        Some(VersionedUserRecord::V2(UserRecordV2 { amount: 20, migrated_at: 60 }))
    );
}

#[test]
fn a_batch_over_nobody_is_in_progress() {
    let (mut client, admin, _, _, _) = setup();
    assert_eq!(client.migrate_storage_batch(admin, 10), 0);
    assert_eq!(client.migration_status(), MigrationStatus::InProgress);
}

#[test]
fn an_empty_batch_moves_nothing() {
    let (mut client, admin, user, _, _) = setup();
    client.migrate(user, 10);
    assert_eq!(client.migrate_storage_batch(admin, 0), 0);
    assert_eq!(client.migration_status(), MigrationStatus::InProgress);
    assert_eq!(
        client.get_user_record(user),
        Some(VersionedUserRecord::V1(UserRecordV1 { amount: 10 }))
    );
}

#[test]
fn the_largest_batch_ends_at_the_last_user() {
    let (mut client, admin, user, _, _) = setup();
    client.migrate(user, 10);
    client.migrate(contract(5), 10);
    assert_eq!(client.migrate_storage_batch(admin, 1), 1);
    assert_eq!(client.migrate_storage_batch(admin, u32::MAX), 2);
    assert_eq!(client.migration_status(), MigrationStatus::Completed);
    assert_eq!(client.migrate_storage_batch(admin, u32::MAX), 2);
    assert_eq!(client.migration_status(), MigrationStatus::Completed);
}

#[test]
fn migrating_again_writes_a_first_schema_record() {
    let (mut client, admin, user, _, _) = setup();
    client.migrate(user, 10);
    client.migrate_storage_batch(admin, 1);
    client.migrate(user, 5);
    assert_eq!(
        client.get_user_record(user),
        Some(VersionedUserRecord::V1(UserRecordV1 { amount: 15 }))
    );
    assert_eq!(client.user_count(), 1);
    assert_eq!(client.migration_status(), MigrationStatus::Completed);
}

#[test]
fn two_batches_do_what_one_does() {
    let (mut one, admin, user, _, _) = setup();
    let (mut two, _, _, _, _) = setup();
    let users = [user, contract(5), contract(6), contract(7), contract(8)];
    for u in users {
        one.migrate(u, 3);
        two.migrate(u, 3);
    }
    assert_eq!(one.migrate_storage_batch(admin, 4), 4);
    assert_eq!(two.migrate_storage_batch(admin, 1), 1);
    assert_eq!(two.migrate_storage_batch(admin, 3), 4);
    for u in users {
        assert_eq!(one.get_user_record(u), two.get_user_record(u));
    }
    assert_eq!(one.migration_status(), two.migration_status());
}

#[test]
fn pages_join_up() {
    let (mut client, _, user, _, _) = setup();
    let users = vec![user, contract(5), contract(6), contract(7)];
    for u in users.iter() {
        client.migrate(*u, 1);
    }
    let mut pages = client.list_users(0, 3);
    assert_eq!(pages, users[0..3].to_vec());
    pages.extend(client.list_users(3, 3));
    assert_eq!(pages, users);
    assert_eq!(client.list_users(0, u32::MAX), users);
    assert_eq!(client.list_users(2, u32::MAX), users[2..4].to_vec());
    assert_eq!(client.list_users(4, 1), vec![]);
    assert_eq!(client.list_users(u32::MAX, u32::MAX), vec![]);
    assert_eq!(client.list_users(1, 0), vec![]);
}

#[test]
fn completion_leaves_what_lies_behind_the_cursor() {
    let (mut client, admin, user, _, _) = setup();
    let (user2, user3) = (contract(5), contract(6));
    client.migrate(user, 10);
    client.migrate(user2, 20);
    client.migrate_storage_batch(admin, 2);
    // This user's record goes back to the first schema, behind the cursor.
    client.migrate(user, 1);
    client.migrate(user3, 30);
    client.now = 40;
    assert_eq!(client.migrate_storage_batch(admin, 5), 3);
    assert_eq!(client.migration_status(), MigrationStatus::Completed);
    assert_eq!(
        client.get_user_record(user),
        Some(VersionedUserRecord::V1(UserRecordV1 { amount: 11 }))
    );
    assert_eq!(
        client.get_user_record(user2),
        Some(VersionedUserRecord::V2(UserRecordV2 { amount: 20, migrated_at: 0 }))
    );
    assert_eq!(
        client.get_user_record(user3),
        Some(VersionedUserRecord::V2(UserRecordV2 { amount: 30, migrated_at: 40 }))
    );
    assert_eq!(client.get_total_migrated(), 61);
    assert_eq!(client.list_users(0, 10), vec![user, user2, user3]);
}

#[test]
fn an_amount_can_be_migrated_in_two_parts() {
    let (mut one, _, user, _, _) = setup();
    let (mut two, _, _, _, _) = setup();
    one.migrate(user, 30);
    two.migrate(user, 10);
    two.migrate(user, 20);
    assert_eq!(one.get_user_migrated(user), two.get_user_migrated(user));
    assert_eq!(one.get_user_record(user), two.get_user_record(user));
    assert_eq!(one.get_total_migrated(), two.get_total_migrated());
    assert_eq!(one.user_count(), two.user_count());
}

#[test]
fn users_keep_their_positions() {
    let (mut client, admin, user, _, _) = setup();
    client.migrate(user, 1);
    client.migrate(contract(5), 1);
    let before = client.list_users(0, 2);
    client.migrate(contract(6), 1);
    client.migrate(user, 1);
    client.migrate_storage_batch(admin, 2);
    assert_eq!(client.list_users(0, 2), before);
    assert_eq!(client.user_count(), 3);
}

#[test]
fn the_first_initialization_sets_the_terms() {
    let mut ledger = Ledger::new();
    let (first, second) = (contract(1), contract(9));
    assert!(TokenMigrationContract::migrate(&mut ledger, 0, contract(2), 5).is_err());
    assert!(TokenMigrationContract::migrate_storage_batch(&mut ledger, 0, first, 5).is_err());
    assert!(TokenMigrationContract::withdraw_legacy(&mut ledger, u64::MAX).is_err());
    assert_eq!(ledger.config(), None);
    assert_eq!(ledger.total_migrated(), None);
    assert_eq!(ledger.status(), None);
    assert_eq!(ledger.user_at(0), None);
    for admin in [first, second] {
        let _ = TokenMigrationContract::initialize(
            &mut ledger, admin, contract(3), contract(4), 2, 50,
        );
        assert_eq!(ledger.config().unwrap().admin, first);
        assert_eq!(ledger.status(), Some(MigrationStatus::NotStarted));
    }
    assert!(TokenMigrationContract::migrate(&mut ledger, 51, contract(2), 5).is_err());
    assert_eq!(ledger.status(), Some(MigrationStatus::NotStarted));
    assert!(TokenMigrationContract::migrate(&mut ledger, 50, contract(2), 5).is_ok());
    assert_eq!(ledger.status(), Some(MigrationStatus::InProgress));
}

#[test]
fn users_are_found_in_whatever_order_they_came() {
    let (mut client, admin, _, _, _) = setup();
    let bits = [(3u128, 5u128), (0, 9), (3, 4), (1, u128::MAX), (0, 0), (2, 7), (u128::MAX, 1)];
    let mut users: Vec<Address> = Vec::new();
    for (hi, lo) in bits {
        for kind in [AddressKind::Contract, AddressKind::Account] {
            users.push(Address { kind, hi, lo });
        }
    }
    for (i, user) in users.iter().enumerate() {
        client.migrate(*user, 1 + i as i128);
    }
    client.migrate(users[4], 100);
    assert_eq!(client.list_users(0, 100), users);
    assert_eq!(client.user_count(), 14);
    for (i, user) in users.iter().enumerate() {
        let amount = 1 + i as i128 + if i == 4 { 100 } else { 0 };
        assert_eq!(client.get_user_migrated(*user), amount);
        assert_eq!(
            client.get_user_record(*user),
            Some(VersionedUserRecord::V1(UserRecordV1 { amount }))
        );
    }
    let stranger = Address { kind: AddressKind::Account, hi: 2, lo: 8 };
    assert_eq!(client.get_user_migrated(stranger), 0);
    assert_eq!(client.get_user_record(stranger), None);
    assert_eq!(client.migrate_storage_batch(admin, 100), 14);
    assert_eq!(
        client.get_user_record(users[13]),
        Some(VersionedUserRecord::V2(UserRecordV2 { amount: 14, migrated_at: 0 }))
    );
}
