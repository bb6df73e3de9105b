//! What the actions of an operation do once the host carries them out, and which entries
//! the operation depends on.
use crate::ledger::{self, Entry, HostAction, State};
use crate::plan;
use crate::rules;
use crate::types::{Address, DataKey, MigrationConfig};
use vstd::prelude::*;

verus! {

/// Carrying out what initialization asks for gives the storage that it says.
pub proof fn law_initialize_is_carried_out(state: State, config: MigrationConfig)
    ensures
        state.after_all(rules::initialize_actions(state, config)) == rules::initialize_state(
            state,
            config,
        ),
{
    reveal_with_fuel(State::after_all, 7);
}

/// Carrying out what a migration asks for gives the storage that it says.
pub proof fn law_migrate_is_carried_out(state: State, now: u64, user: Address, amount: i128)
    ensures
        state.after_all(rules::migrate_actions(state, now, user, amount)) == rules::migrate_state(
            state,
            now,
            user,
            amount,
        ),
{
    reveal_with_fuel(State::after_all, 13);
}

/// Carrying out the writes of a window brings its records to the second schema.
proof fn lemma_upgrade_is_carried_out(state: State, start: u32, end: u32, now: u64)
    requires
        start <= end,
    ensures
        state.after_all(rules::upgrade_actions(state, start, end, now)) == (State {
            records: rules::upgraded_records(state, start, end, now),
            ..state
        }),
    decreases end,
{
    if start == end {
        assert(rules::upgraded_records(state, start, end, now) =~= state.records);
    } else {
        let last = (end - 1) as u32;
        let before = rules::upgrade_actions(state, start, last, now);
        let all = rules::upgrade_actions(state, start, end, now);
        lemma_upgrade_is_carried_out(state, start, last, now);
        rules::lemma_window_grows(state, start, last);
        if all.len() > before.len() {
            assert(all.drop_last() =~= before);
        }
        assert(state.after_all(all).records =~= rules::upgraded_records(state, start, end, now));
    }
}

/// Carrying out what a batch asks for gives the storage that it says.
pub proof fn law_batch_is_carried_out(state: State, now: u64, caller: Address, size: u32)
    ensures
        state.after_all(rules::batch_actions(state, now, caller, size)) == rules::batch_state(
            state,
            now,
            caller,
            size,
        ),
{
    reveal_with_fuel(State::after_all, 4);
    if rules::batch_refusal(state.config, caller) is None {
        let cursor = rules::batch_cursor(state, size);
        let auth = seq![HostAction::RequireAuth(caller)];
        let writes = rules::upgrade_actions(state, state.position(), cursor, now);
        let actions = rules::batch_actions(state, now, caller, size);
        let closing = actions.subrange(actions.len() - 3, actions.len() as int);
        assert(actions =~= auth + writes + closing);
        ledger::law_after_all_concatenation(state, auth + writes, closing);
        ledger::law_after_all_concatenation(state, auth, writes);
        lemma_upgrade_is_carried_out(state, state.position(), cursor, now);
    }
}

/// What is asked of the host besides writes, in order.
pub open spec fn besides_writes(actions: Seq<HostAction>) -> Seq<HostAction>
    decreases actions.len(),
{
    if actions.len() == 0 {
        seq![]
    } else if actions.last() is Store {
        besides_writes(actions.drop_last())
    } else {
        besides_writes(actions.drop_last()).push(actions.last())
    }
}

/// What two lists ask besides writes is what they ask one after the other.
proof fn lemma_besides_writes_concatenation(first: Seq<HostAction>, second: Seq<HostAction>)
    ensures
        besides_writes(first + second) == besides_writes(first) + besides_writes(second),
    decreases second.len(),
{
    if second.len() == 0 {
        assert(first + second =~= first);
        assert(besides_writes(first) + besides_writes(second) =~= besides_writes(first));
    } else {
        lemma_besides_writes_concatenation(first, second.drop_last());
        assert((first + second).drop_last() =~= first + second.drop_last());
        assert(besides_writes(first + second) =~= besides_writes(first) + besides_writes(second));
    }
}

/// A list of writes asks for nothing besides.
proof fn lemma_writes_alone(actions: Seq<HostAction>)
    requires
        forall|i: int| 0 <= i < actions.len() ==> #[trigger] actions[i] is Store,
    ensures
        besides_writes(actions) == Seq::<HostAction>::empty(),
    decreases actions.len(),
{
    if actions.len() > 0 {
        lemma_writes_alone(actions.drop_last());
    }
}

/// The entry under `key` is kept alive for another 100,000 ledgers.
pub open spec fn kept_alive(key: DataKey) -> HostAction {
    HostAction::ExtendTtl { key, threshold: 100_000, extend_to: 100_000 }
}

/// Besides its writes, initialization keeps the contract's instance alive, and a refused one
/// asks for nothing at all.
pub proof fn law_initialize_keeps_the_instance_alive(state: State, config: MigrationConfig)
    ensures
        state.config is Some ==> rules::initialize_actions(state, config).len() == 0,
        state.config is None ==> besides_writes(rules::initialize_actions(state, config)) == seq![
            HostAction::ExtendInstanceTtl { threshold: 100_000, extend_to: 100_000 },
        ],
{
    if state.config is None {
        let actions = rules::initialize_actions(state, config);
        lemma_writes_alone(actions.drop_last());
        assert(besides_writes(actions) =~= seq![actions.last()]);
    }
}

/// Besides its writes, an accepted migration asks for its user's authorisation, takes in the
/// amount of old tokens, mints its multiple in new ones, keeps the user's two entries alive
/// and tells of both amounts, in this order. One that is not quoted asks for the authorisation
/// alone, and one that cannot be booked for the tokens besides.
pub proof fn law_migrate_asks_for_the_swap(state: State, now: u64, user: Address, amount: i128)
    ensures
        ({
            let config = state.config->Some_0;
            let result = rules::migrate_result(state, now, user, amount);
            let multiple = amount * config.ratio_new_per_old;
            let new_amount = multiple as i128;
            let quoted = state.config is Some && now <= config.deadline && amount > 0 && multiple
                <= i128::MAX;
            let auth = seq![HostAction::RequireAuth(user)];
            let swap = seq![
                HostAction::TransferFrom { token: config.old_token, from: user, amount },
                HostAction::Mint { token: config.new_token, to: user, amount: new_amount },
            ];
            besides_writes(rules::migrate_actions(state, now, user, amount)) == if result is Ok {
                auth + swap + seq![
                    kept_alive(DataKey::UserMigrated(user)),
                    kept_alive(DataKey::UserRecord(user)),
                    HostAction::PublishMigrated { user, amount, new_amount },
                ]
            } else if quoted {
                auth + swap
            } else {
                auth
            }
        }),
{
    let config = state.config->Some_0;
    let new_amount = (amount * config.ratio_new_per_old) as i128;
    let actions = rules::migrate_actions(state, now, user, amount);
    let auth = seq![HostAction::RequireAuth(user)];
    assert(besides_writes(auth) =~= auth) by {
        reveal_with_fuel(besides_writes, 2);
    }
    if rules::quote(state.config, now, amount) is Ok {
        assert(rules::quote(state.config, now, amount)->Ok_0 == new_amount);
        let swap = rules::exchange_actions(config, user, amount, new_amount);
        assert(besides_writes(swap) =~= swap) by {
            reveal_with_fuel(besides_writes, 3);
        }
        lemma_besides_writes_concatenation(auth, swap);
        if rules::booking_refusal(state, user, amount) is Some {
            assert(actions =~= auth + swap);
        } else {
            let booking = rules::booking_actions(state, user, amount, new_amount);
            let head = booking.take(4);
            let tail = booking.skip(4);
            assert(booking =~= head + tail);
            assert(besides_writes(head) =~= seq![
                kept_alive(DataKey::UserMigrated(user)),
                kept_alive(DataKey::UserRecord(user)),
            ]) by {
                reveal_with_fuel(besides_writes, 5);
            }
            lemma_writes_alone(tail.drop_last());
            assert(besides_writes(tail) =~= seq![
                HostAction::PublishMigrated { user, amount, new_amount },
            ]);
            lemma_besides_writes_concatenation(head, tail);
            lemma_besides_writes_concatenation(auth + swap, booking);
            assert(actions =~= (auth + swap) + booking);
        }
    } else {
        assert(actions =~= auth);
    }
}

/// Besides its writes, an accepted batch asks for its caller's authorisation and tells where
/// the storage migration is now. A refused one tells nothing.
pub proof fn law_batch_tells_the_cursor(state: State, now: u64, caller: Address, size: u32)
    ensures
        ({
            let asked = besides_writes(rules::batch_actions(state, now, caller, size));
            let auth = HostAction::RequireAuth(caller);
            match state.config {
                None => asked.len() == 0,
                Some(config) => if caller == config.admin {
                    asked == seq![
                        auth,
                        HostAction::PublishStorageMigrated {
                            cursor: rules::batch_state(state, now, caller, size).cursor->Some_0,
                        },
                    ]
                } else {
                    asked == seq![auth]
                },
            }
        }),
{
    let actions = rules::batch_actions(state, now, caller, size);
    let auth = seq![HostAction::RequireAuth(caller)];
    assert(besides_writes(auth) =~= auth) by {
        reveal_with_fuel(besides_writes, 2);
    }
    if state.config is Some && caller == state.config->Some_0.admin {
        let rest = actions.skip(1);
        let cursor = rules::batch_cursor(state, size);
        lemma_upgrade_is_writes(state, state.position(), cursor, now);
        assert(actions =~= auth + rest);
        assert forall|i: int| 0 <= i < rest.drop_last().len() implies #[trigger] rest.drop_last()[i] is Store by {
            let writes = rules::upgrade_actions(state, state.position(), cursor, now);
            if i < writes.len() {
                assert(rest[i] == writes[i]);
            }
        }
        lemma_writes_alone(rest.drop_last());
        lemma_besides_writes_concatenation(auth, rest);
        assert(besides_writes(actions) =~= seq![
            HostAction::RequireAuth(caller),
            HostAction::PublishStorageMigrated { cursor },
        ]);
    }
}

/// A window is brought to the second schema by writes alone, each of the upgraded record of
/// a user there.
pub proof fn lemma_upgrade_is_writes(state: State, start: u32, end: u32, now: u64)
    ensures
        forall|i: int|
            0 <= i < rules::upgrade_actions(state, start, end, now).len() ==> (
            #[trigger] rules::upgrade_actions(state, start, end, now)[i] matches HostAction::Store(
                entry,
            ) && entry matches Entry::UserRecord(user, record) && rules::indexed_within(
                state,
                start,
                end,
                user,
            ) && state.records.contains_key(user) && record == state.records[user].upgraded(now)),
    decreases end,
{
    if start < end {
        let last = (end - 1) as u32;
        let all = rules::upgrade_actions(state, start, end, now);
        let before = rules::upgrade_actions(state, start, last, now);
        lemma_upgrade_is_writes(state, start, last, now);
        rules::lemma_window_grows(state, start, last);
        assert forall|i: int| 0 <= i < all.len() implies (
        #[trigger] all[i] matches HostAction::Store(entry) && entry matches Entry::UserRecord(
            user,
            record,
        ) && rules::indexed_within(state, start, end, user) && state.records.contains_key(user)
            && record == state.records[user].upgraded(now)) by {
            if i < before.len() {
                assert(all[i] == before[i]);
            } else {
                assert(rules::indexed_within(state, start, end, state.index[last]));
            }
        }
    }
}

/// Whether each write among the actions is of what `after` holds.
pub open spec fn writes_hold(actions: Seq<HostAction>, after: State) -> bool {
    forall|i: int|
        0 <= i < actions.len() ==> match #[trigger] actions[i] {
            HostAction::Store(entry) => after.at(entry.data_key()) == Some(entry),
            _ => true,
        }
}

/// Whatever an operation writes, it writes once and for all: each of its writes is of what
/// the storage holds when it is done.
pub proof fn law_writes_are_lasting(
    state: State,
    config: MigrationConfig,
    now: u64,
    user: Address,
    amount: i128,
    size: u32,
)
    ensures
        writes_hold(
            rules::initialize_actions(state, config),
            rules::initialize_state(state, config),
        ),
        writes_hold(
            rules::migrate_actions(state, now, user, amount),
            rules::migrate_state(state, now, user, amount),
        ),
        writes_hold(
            rules::batch_actions(state, now, user, size),
            rules::batch_state(state, now, user, size),
        ),
{
    let actions = rules::batch_actions(state, now, user, size);
    let after = rules::batch_state(state, now, user, size);
    let cursor = rules::batch_cursor(state, size);
    let writes = rules::upgrade_actions(state, state.position(), cursor, now);
    lemma_upgrade_is_writes(state, state.position(), cursor, now);
    assert forall|i: int| 0 <= i < actions.len() implies match #[trigger] actions[i] {
        HostAction::Store(entry) => after.at(entry.data_key()) == Some(entry),
        _ => true,
    } by {
        if 1 <= i < 1 + writes.len() {
            assert(rules::batch_refusal(state.config, user) is None ==> actions[i] == writes[i - 1]);
        }
    }
}

/// The two storages hold the same under each of the keys.
pub open spec fn agree(one: State, two: State, keys: Seq<DataKey>) -> bool {
    forall|i: int| 0 <= i < keys.len() ==> one.at(#[trigger] keys[i]) == two.at(keys[i])
}

/// What the keys of the contract hold is enough to tell the contract's own values.
proof fn lemma_contract_keys(one: State, two: State)
    requires
        agree(one, two, plan::contract_keys()),
    ensures
        one.config == two.config,
        one.total_migrated == two.total_migrated,
        one.user_count == two.user_count,
        one.cursor == two.cursor,
        one.status == two.status,
{
    let keys = plan::contract_keys();
    assert(keys[0] == DataKey::Config && keys[1] == DataKey::TotalMigrated);
    assert(keys[2] == DataKey::UserCount && keys[3] == DataKey::MigrationCursor);
    assert(keys[4] == DataKey::MigrationStatus);
    assert(one.at(keys[0]) == two.at(keys[0]) && one.at(keys[1]) == two.at(keys[1]));
    assert(one.at(keys[2]) == two.at(keys[2]) && one.at(keys[3]) == two.at(keys[3]));
    assert(one.at(keys[4]) == two.at(keys[4]));
}

/// What the keys of the index hold is enough to tell who is at its positions.
proof fn lemma_index_keys(one: State, two: State, start: u32, end: u32)
    requires
        agree(one, two, plan::index_keys(start, end)),
    ensures
        forall|i: u32|
            #![trigger one.index.contains_key(i)]
            #![trigger two.index.contains_key(i)]
            #![trigger one.index[i]]
            #![trigger two.index[i]]
            start <= i < end ==> one.index.contains_key(i) == two.index.contains_key(i) && (
            one.index.contains_key(i) ==> one.index[i] == two.index[i]),
{
    let keys = plan::index_keys(start, end);
    assert forall|i: u32|
        #![trigger one.index.contains_key(i)]
        #![trigger two.index.contains_key(i)]
        #![trigger one.index[i]]
        #![trigger two.index[i]]
        start <= i < end implies one.index.contains_key(i) == two.index.contains_key(i) && (
    one.index.contains_key(i) ==> one.index[i] == two.index[i]) by {
        assert(keys[i - start] == DataKey::UserIndex(i));
        assert(one.at(keys[i - start]) == two.at(keys[i - start]));
    }
}

/// Initialization depends on nothing but the terms that are set already.
pub proof fn law_initialize_reads_the_terms(one: State, two: State, config: MigrationConfig)
    requires
        one.at(DataKey::Config) == two.at(DataKey::Config),
    ensures
        rules::initialize_result(one) == rules::initialize_result(two),
        rules::initialize_actions(one, config) == rules::initialize_actions(two, config),
{
}

/// A withdrawal depends on nothing but the terms, the time and the balance.
pub proof fn law_withdrawal_reads_the_terms(one: State, two: State, now: u64, balance: i128)
    requires
        one.at(DataKey::Config) == two.at(DataKey::Config),
    ensures
        rules::withdraw_refusal(one.config, now) == rules::withdraw_refusal(two.config, now),
        one.config is Some ==> rules::withdraw_actions(one.config->Some_0, balance)
            == rules::withdraw_actions(two.config->Some_0, balance),
{
}

/// Each question about a single value depends on nothing but the key of that value.
pub proof fn law_questions_read_one_key(one: State, two: State, user: Address)
    ensures
        one.at(DataKey::Config) == two.at(DataKey::Config) ==> one.config == two.config,
        one.at(DataKey::TotalMigrated) == two.at(DataKey::TotalMigrated) ==> one.total_migrated
            == two.total_migrated,
        one.at(DataKey::MigrationStatus) == two.at(DataKey::MigrationStatus) ==> one.status
            == two.status,
        one.at(DataKey::UserCount) == two.at(DataKey::UserCount) ==> one.count() == two.count(),
        one.at(DataKey::UserMigrated(user)) == two.at(DataKey::UserMigrated(user))
            ==> one.migrated_by(user) == two.migrated_by(user),
        one.at(DataKey::UserRecord(user)) == two.at(DataKey::UserRecord(user)) ==> {
            &&& one.records.contains_key(user) == two.records.contains_key(user)
            &&& one.records.contains_key(user) ==> one.records[user] == two.records[user]
        },
{
}

/// A migration depends on nothing but the contract's keys and its user's.
pub proof fn law_migrate_reads_user_keys(
    one: State,
    two: State,
    now: u64,
    user: Address,
    amount: i128,
)
    requires
        agree(one, two, plan::contract_keys() + plan::user_keys(user)),
    ensures
        rules::migrate_result(one, now, user, amount) == rules::migrate_result(
            two,
            now,
            user,
            amount,
        ),
        rules::migrate_actions(one, now, user, amount) == rules::migrate_actions(
            two,
            now,
            user,
            amount,
        ),
{
    let keys = plan::contract_keys() + plan::user_keys(user);
    assert forall|i: int| 0 <= i < plan::contract_keys().len() implies one.at(
        #[trigger] plan::contract_keys()[i],
    ) == two.at(plan::contract_keys()[i]) by {
        assert(keys[i] == plan::contract_keys()[i]);
    }
    lemma_contract_keys(one, two);
    assert(keys[5] == DataKey::UserMigrated(user) && keys[6] == DataKey::UserRecord(user));
    assert(one.at(keys[5]) == two.at(keys[5]) && one.at(keys[6]) == two.at(keys[6]));
}

/// Who is listed depends on nothing but the positions.
proof fn lemma_listed_reads_index_keys(one: State, two: State, start: u32, end: u32)
    requires
        agree(one, two, plan::index_keys(start, end)),
    ensures
        rules::listed(one, start, end) == rules::listed(two, start, end),
    decreases end,
{
    if start < end {
        let last = (end - 1) as u32;
        let keys = plan::index_keys(start, end);
        assert forall|i: int| 0 <= i < plan::index_keys(start, last).len() implies one.at(
            #[trigger] plan::index_keys(start, last)[i],
        ) == two.at(plan::index_keys(start, last)[i]) by {
            assert(keys[i] == plan::index_keys(start, last)[i]);
        }
        lemma_listed_reads_index_keys(one, two, start, last);
        lemma_index_keys(one, two, start, end);
    }
}

/// A page depends on nothing but the number of users and the positions that it covers.
pub proof fn law_page_reads_index_keys(one: State, two: State, start: u32, limit: u32)
    requires
        one.at(DataKey::UserCount) == two.at(DataKey::UserCount),
        agree(
            one,
            two,
            plan::index_keys(start, rules::window_end(one.count(), start, limit)),
        ),
    ensures
        rules::listed(one, start, rules::window_end(one.count(), start, limit)) == rules::listed(
            two,
            start,
            rules::window_end(two.count(), start, limit),
        ),
{
    lemma_listed_reads_index_keys(one, two, start, rules::window_end(one.count(), start, limit));
}

/// The writes of a window depend on nothing but its positions and the records of the
/// users there.
proof fn lemma_upgrade_reads_records(one: State, two: State, start: u32, end: u32, now: u64)
    requires
        agree(one, two, plan::index_keys(start, end)),
        agree(one, two, plan::record_keys(rules::listed(one, start, end))),
    ensures
        rules::upgrade_actions(one, start, end, now) == rules::upgrade_actions(
            two,
            start,
            end,
            now,
        ),
    decreases end,
{
    if start < end {
        let last = (end - 1) as u32;
        let users = rules::listed(one, start, end);
        let fewer = rules::listed(one, start, last);
        let positions = plan::index_keys(start, end);
        assert forall|i: int| 0 <= i < plan::index_keys(start, last).len() implies one.at(
            #[trigger] plan::index_keys(start, last)[i],
        ) == two.at(plan::index_keys(start, last)[i]) by {
            assert(positions[i] == plan::index_keys(start, last)[i]);
        }
        assert forall|i: int| 0 <= i < plan::record_keys(fewer).len() implies one.at(
            #[trigger] plan::record_keys(fewer)[i],
        ) == two.at(plan::record_keys(fewer)[i]) by {
            assert(plan::record_keys(users)[i] == plan::record_keys(fewer)[i]);
        }
        lemma_upgrade_reads_records(one, two, start, last, now);
        lemma_index_keys(one, two, start, end);
        if one.index.contains_key(last) {
            let user = one.index[last];
            let keys = plan::record_keys(users);
            assert(keys[users.len() - 1] == DataKey::UserRecord(user));
            assert(one.at(keys[users.len() - 1]) == two.at(keys[users.len() - 1]));
            assert(rules::indexed_within(one, start, last, user) == rules::indexed_within(
                two,
                start,
                last,
                user,
            )) by {
                if rules::indexed_within(one, start, last, user) {
                    let i = choose|i: u32|
                        start <= i < last && #[trigger] one.index.contains_key(i) && one.index[i]
                            == user;
                    assert(two.index.contains_key(i));
                }
                if rules::indexed_within(two, start, last, user) {
                    let i = choose|i: u32|
                        start <= i < last && #[trigger] two.index.contains_key(i) && two.index[i]
                            == user;
                    assert(one.index.contains_key(i));
                }
            }
        } else {
            assert(!two.index.contains_key(last));
        }
    }
}

/// A batch depends on nothing but the contract's keys, the positions that it covers and
/// the records of the users there.
pub proof fn law_batch_reads_record_keys(
    one: State,
    two: State,
    now: u64,
    caller: Address,
    size: u32,
)
    requires
        agree(one, two, plan::contract_keys()),
        agree(one, two, plan::index_keys(one.position(), rules::batch_cursor(one, size))),
        agree(
            one,
            two,
            plan::record_keys(
                rules::listed(one, one.position(), rules::batch_cursor(one, size)),
            ),
        ),
    ensures
        rules::batch_refusal(one.config, caller) == rules::batch_refusal(two.config, caller),
        rules::batch_cursor(one, size) == rules::batch_cursor(two, size),
        rules::batch_actions(one, now, caller, size) == rules::batch_actions(
            two,
            now,
            caller,
            size,
        ),
{
    lemma_contract_keys(one, two);
    lemma_upgrade_reads_records(
        one,
        two,
        one.position(),
        rules::batch_cursor(one, size),
        now,
    );
}

} // verus!
