//! What holds of the contract as a whole.
use crate::error::MigrationError;
use crate::ledger::{HostAction, State};
use crate::rules;
use crate::types::{
    Address, MigrationConfig, MigrationStatus, UserRecordV2, VersionedUserRecord,
};
use vstd::prelude::*;

verus! {

/// What the users at the first `n` positions of the index have migrated together.
pub open spec fn sum_migrated(state: State, n: nat) -> int
    decreases n,
{
    if n == 0 {
        0
    } else {
        sum_migrated(state, (n - 1) as nat) + state.migrated_by(state.index[(n - 1) as u32])
    }
}

/// The positions of the index are taken without a gap, by users who come once each and
/// are exactly those with a record.
pub open spec fn index_consistent(state: State) -> bool {
    &&& forall|i: u32| #[trigger] state.index.contains_key(i) <==> i < state.count()
    &&& forall|i: u32, j: u32|
        i < j < state.count() ==> #[trigger] state.index[i] != #[trigger] state.index[j]
    &&& forall|i: u32| i < state.count() ==> state.records.contains_key(#[trigger] state.index[i])
    &&& forall|user: Address| #[trigger]
        state.records.contains_key(user) ==> rules::indexed_within(state, 0, state.count(), user)
}

/// A user's record tells the amount that the user has migrated, which is positive.
pub open spec fn records_consistent(state: State) -> bool {
    &&& forall|user: Address|
        #![trigger state.records.contains_key(user)]
        #![trigger state.migrated.contains_key(user)]
        state.records.contains_key(user) <==> state.migrated.contains_key(user)
    &&& forall|user: Address| #[trigger]
        state.records.contains_key(user) ==> state.records[user].amount() == state.migrated[user]
            && state.migrated[user] > 0
}

/// The storage migration is within the index, has not touched what lies ahead of it,
/// and is completed exactly when it has come to the end of a non-empty index.
pub open spec fn progress_consistent(state: State) -> bool {
    &&& state.position() <= state.count()
    &&& forall|i: u32|
        state.position() <= i < state.count() ==> state.records[#[trigger] state.index[i]] is V1
    &&& state.status == Some(MigrationStatus::Completed) <==> (state.count() > 0
        && state.position() == state.count())
    &&& state.status == Some(MigrationStatus::NotStarted) ==> state.count() == 0
}

/// What holds of the storage from initialization on.
pub open spec fn consistent(state: State) -> bool {
    &&& state.config is Some
    &&& state.user_count is Some
    &&& state.cursor is Some
    &&& state.status is Some
    &&& index_consistent(state)
    &&& records_consistent(state)
    &&& progress_consistent(state)
    &&& state.total_migrated is Some
    &&& state.total_migrated->Some_0 == sum_migrated(state, state.count() as nat)
}

/// Two storages in which the first `n` indexed users have migrated the same have the
/// same sum.
proof fn lemma_sum_same(before: State, after: State, n: nat)
    requires
        n <= u32::MAX,
        forall|i: u32|
            i < n ==> #[trigger] after.index[i] == before.index[i] && after.migrated_by(
                after.index[i],
            ) == before.migrated_by(before.index[i]),
    ensures
        sum_migrated(after, n) == sum_migrated(before, n),
    decreases n,
{
    if n > 0 {
        lemma_sum_same(before, after, (n - 1) as nat);
        assert(after.index[(n - 1) as u32] == before.index[(n - 1) as u32]);
    }
}

/// If one of the first `n` indexed users has migrated `amount` more, so has their sum.
proof fn lemma_sum_raised(before: State, after: State, n: nat, at: u32, amount: int)
    requires
        at < n <= u32::MAX,
        forall|i: u32| i < n ==> #[trigger] after.index[i] == before.index[i],
        forall|i: u32|
            i < n && i != at ==> after.migrated_by(#[trigger] after.index[i])
                == before.migrated_by(before.index[i]),
        after.migrated_by(after.index[at]) == before.migrated_by(before.index[at]) + amount,
    ensures
        sum_migrated(after, n) == sum_migrated(before, n) + amount,
    decreases n,
{
    let last = (n - 1) as u32;
    assert(after.index[last] == before.index[last]);
    if at == last {
        lemma_sum_same(before, after, (n - 1) as nat);
    } else {
        lemma_sum_raised(before, after, (n - 1) as nat, at, amount);
    }
}

/// Initialization of a contract without users makes the storage consistent.
pub proof fn law_initialization_is_consistent(state: State, config: MigrationConfig)
    requires
        state.migrated == Map::<Address, i128>::empty(),
        state.records == State::empty().records,
        state.index == Map::<u32, Address>::empty(),
    ensures
        consistent(rules::initialized(state, config)),
{
}

/// A migration, refused or not, keeps the storage consistent: in particular the running
/// total is always the sum of what the users have migrated.
pub proof fn law_migrate_keeps_consistent(state: State, now: u64, user: Address, amount: i128)
    requires
        consistent(state),
    ensures
        consistent(rules::migrate_state(state, now, user, amount)),
{
    if rules::migrate_result(state, now, user, amount) is Ok {
        let after = rules::booked(state, user, amount);
        let n = state.count();
        if state.records.contains_key(user) {
            let at = choose|i: u32|
                0 <= i < n && #[trigger] state.index.contains_key(i) && state.index[i] == user;
            lemma_sum_raised(state, after, n as nat, at, amount as int);
        } else {
            lemma_sum_same(state, after, n as nat);
            assert(after.index[n] == user);
            assert(after.index.contains_key(n));
        }
        assert forall|who: Address| #[trigger] after.records.contains_key(who) implies
            rules::indexed_within(after, 0, after.count(), who) by {
            if who == user && !state.records.contains_key(user) {
                assert(after.index.contains_key(n) && after.index[n] == user);
            } else {
                assert(state.records.contains_key(who));
                let at = choose|i: u32|
                    0 <= i < n && #[trigger] state.index.contains_key(i) && state.index[i] == who;
                assert(after.index.contains_key(at) && after.index[at] == who);
            }
        }
        assert(index_consistent(after));
        assert(records_consistent(after));
        assert(progress_consistent(after));
    }
}

/// A batch, refused or not, keeps the storage consistent.
pub proof fn law_batch_keeps_consistent(state: State, now: u64, caller: Address, size: u32)
    requires
        consistent(state),
    ensures
        consistent(rules::batch_state(state, now, caller, size)),
{
    let after = rules::batch_state(state, now, caller, size);
    let n = state.count();
    lemma_sum_same(state, after, n as nat);
    assert forall|who: Address| #[trigger] after.records.contains_key(who) implies
        rules::indexed_within(after, 0, n, who) by {
        assert(state.records.contains_key(who));
        let at = choose|i: u32|
            0 <= i < n && #[trigger] state.index.contains_key(i) && state.index[i] == who;
        assert(after.index.contains_key(at) && after.index[at] == who);
    }
    assert(index_consistent(after));
    assert(records_consistent(after));
    assert forall|i: u32| after.position() <= i < n implies after.records[#[trigger] after.index[i]] is V1 by {
        let who = state.index[i];
        assert(state.records[who] is V1);
        if rules::batch_refusal(state.config, caller) is None && rules::indexed_within(
            state,
            state.position(),
            after.position(),
            who,
        ) {
            let j = choose|j: u32|
                state.position() <= j < after.position() && #[trigger] state.index.contains_key(j)
                    && state.index[j] == who;
            assert(state.index[j] != state.index[i]);
        }
    }
}

/// A contract takes terms as long as it has none. It then starts with nothing migrated, no
/// users, the storage migration at the start, and the users' entries as they were. A second
/// initialization changes nothing.
pub proof fn law_initialization_starts_from_nothing(state: State, config: MigrationConfig)
    ensures
        ({
            let result = rules::initialize_result(state);
            let after = rules::initialize_state(state, config);
            match state.config {
                Some(_) => result == Err::<(), _>(MigrationError::AlreadyInitialized) && after
                    == state,
                None => {
                    &&& result == Ok::<(), MigrationError>(())
                    &&& after.config == Some(config)
                    &&& after.total_migrated == Some(0i128)
                    &&& after.user_count == Some(0u32)
                    &&& after.cursor == Some(0u32)
                    &&& after.status == Some(MigrationStatus::NotStarted)
                    &&& after.migrated == state.migrated
                    &&& after.records == state.records
                    &&& after.index == state.index
                },
            }
        }),
{
}

/// Once set, the terms of the migration stay: a second initialization is refused and
/// changes nothing, and neither a migration nor a batch changes the terms.
pub proof fn law_terms_are_fixed(
    state: State,
    other: MigrationConfig,
    now: u64,
    user: Address,
    amount: i128,
    size: u32,
)
    requires
        state.config is Some,
    ensures
        rules::initialize_result(state) == Err::<(), _>(MigrationError::AlreadyInitialized),
        rules::initialize_state(state, other) == state,
        rules::initialize_actions(state, other).len() == 0,
        rules::migrate_state(state, now, user, amount).config == state.config,
        rules::batch_state(state, now, user, size).config == state.config,
{
}

/// A migration is accepted if and only if the contract has terms and a running total, the
/// deadline has not passed, the amount is positive, the new tokens and both sums fit, and a
/// user without a record still finds a place in the index.
pub proof fn law_migration_is_accepted_if_it_fits(
    state: State,
    now: u64,
    user: Address,
    amount: i128,
)
    ensures
        rules::migrate_result(state, now, user, amount) == Ok::<(), MigrationError>(()) <==> {
            &&& state.config is Some
            &&& state.total_migrated is Some
            &&& now <= state.config->Some_0.deadline
            &&& 0 < amount
            &&& amount * state.config->Some_0.ratio_new_per_old <= i128::MAX
            &&& state.migrated.contains_key(user) ==> state.migrated[user] + amount <= i128::MAX
            &&& state.total_migrated->Some_0 + amount <= i128::MAX
            &&& state.records.contains_key(user) || state.user_count != Some(u32::MAX)
        },
{
}

/// A refused migration says why: of the things that stand in its way it names the first, in
/// the order terms, deadline, amount, new tokens, the user's sum, the index, the total.
pub proof fn law_migration_refusal_names_the_first_obstacle(
    state: State,
    now: u64,
    user: Address,
    amount: i128,
)
    ensures
        ({
            let result = rules::migrate_result(state, now, user, amount);
            let config = state.config->Some_0;
            let in_time = now <= config.deadline;
            let minted_fits = amount * config.ratio_new_per_old <= i128::MAX;
            let sum_fits = state.migrated.contains_key(user) ==> state.migrated[user] + amount
                <= i128::MAX;
            let has_place = state.records.contains_key(user) || state.user_count != Some(u32::MAX);
            let has_total = state.total_migrated is Some;
            let quoted = state.config is Some && in_time && amount > 0 && minted_fits;
            let placed = quoted && sum_fits && has_place;
            &&& result == Err::<(), _>(MigrationError::NotInitialized) <==> (state.config is None
                || (placed && !has_total))
            &&& result == Err::<(), _>(MigrationError::MigrationEnded) <==> (state.config is Some
                && !in_time)
            &&& result == Err::<(), _>(MigrationError::AmountNotPositive) <==> (
            state.config is Some && in_time && amount <= 0)
            &&& result == Err::<(), _>(MigrationError::AmountOverflow) <==> (state.config is Some
                && in_time && amount > 0 && !minted_fits)
            &&& result == Err::<(), _>(MigrationError::UserAmountOverflow) <==> (quoted
                && !sum_fits)
            &&& result == Err::<(), _>(MigrationError::UserCountOverflow) <==> (quoted && sum_fits
                && !has_place)
            &&& result == Err::<(), _>(MigrationError::TotalAmountOverflow) <==> (placed
                && has_total && state.total_migrated->Some_0 + amount > i128::MAX)
        }),
{
}

/// New tokens are quoted if and only if the contract has terms, the deadline has not passed,
/// the amount is positive and its multiple fits; the quote is that multiple. A refusal names
/// the first of these that fails.
pub proof fn law_quote_is_the_multiple(
    config: Option<MigrationConfig>,
    now: u64,
    amount: i128,
)
    ensures
        ({
            let result = rules::quote(config, now, amount);
            let in_time = now <= config->Some_0.deadline;
            let multiple = amount * config->Some_0.ratio_new_per_old;
            &&& result is Ok <==> (config is Some && in_time && amount > 0 && multiple
                <= i128::MAX)
            &&& result is Ok ==> result->Ok_0 == multiple
            &&& config is None ==> result == Err::<i128, _>(MigrationError::NotInitialized)
            &&& config is Some && !in_time ==> result == Err::<i128, _>(
                MigrationError::MigrationEnded,
            )
            &&& config is Some && in_time && amount <= 0 ==> result == Err::<i128, _>(
                MigrationError::AmountNotPositive,
            )
            &&& config is Some && in_time && amount > 0 && multiple > i128::MAX ==> result == Err::<
                i128,
                _,
            >(MigrationError::AmountOverflow)
        }),
{
    if config is Some && amount > 0 {
        let ratio = config->Some_0.ratio_new_per_old as int;
        assert(amount * ratio >= 0) by (nonlinear_arith)
            requires
                amount > 0,
                ratio >= 0,
        ;
    }
}

/// A migration, refused or not, leaves the storage migration where it is, and the terms as
/// they are.
pub proof fn law_migration_leaves_the_cursor(state: State, now: u64, user: Address, amount: i128)
    ensures
        rules::migrate_state(state, now, user, amount).cursor == state.cursor,
        rules::migrate_state(state, now, user, amount).config == state.config,
{
}

/// An accepted migration changes what is stored of its user and the total, and, for a user
/// who had no record, puts them behind the last user of the index and the storage migration
/// in progress. It changes nothing else, and a refused one changes nothing at all.
pub proof fn law_migration_changes_its_user_alone(
    state: State,
    now: u64,
    user: Address,
    amount: i128,
)
    ensures
        ({
            let after = rules::migrate_state(state, now, user, amount);
            let known = state.records.contains_key(user);
            let had: int = if state.migrated.contains_key(user) {
                state.migrated[user] as int
            } else {
                0
            };
            let last: int = match state.user_count {
                Some(count) => count as int,
                None => 0,
            };
            if rules::migrate_result(state, now, user, amount) is Err {
                after == state
            } else {
                &&& after.migrated.contains_key(user)
                &&& after.migrated[user] == had + amount
                &&& after.migrated.remove(user) == state.migrated.remove(user)
                &&& after.records.contains_key(user)
                &&& after.records[user] is V1
                &&& after.records[user]->V1_0.amount == had + amount
                &&& after.records.remove(user) == state.records.remove(user)
                &&& after.config == state.config
                &&& after.cursor == state.cursor
                &&& after.total_migrated is Some
                &&& after.total_migrated->Some_0 == state.total_migrated->Some_0 + amount
                &&& known ==> after.index == state.index
                &&& known ==> after.user_count == state.user_count
                &&& known ==> after.status == state.status
                &&& !known ==> after.index == state.index.insert(last as u32, user)
                &&& !known ==> after.user_count is Some && after.user_count->Some_0 == last + 1
                &&& !known ==> after.status == Some(MigrationStatus::InProgress)
            }
        }),
{
    let after = rules::migrate_state(state, now, user, amount);
    assert(after.migrated.remove(user) =~= state.migrated.remove(user));
    assert(after.records.remove(user) =~= state.records.remove(user));
}

/// An accepted migration adds its amount to what its user has migrated and to the
/// total, writes the user's new sum into a first-schema record, and leaves every other
/// user as they were.
pub proof fn law_migrate_adds_up(
    state: State,
    now: u64,
    user: Address,
    amount: i128,
    other: Address,
)
    requires
        rules::migrate_result(state, now, user, amount) is Ok,
        other != user,
    ensures
        ({
            let after = rules::migrate_state(state, now, user, amount);
            &&& after.migrated_by(user) == state.migrated_by(user) + amount
            &&& after.total_migrated == Some((state.total_migrated->Some_0 + amount) as i128)
            &&& after.total_migrated->Some_0 == state.total_migrated->Some_0 + amount
            &&& after.records.contains_key(user)
            &&& after.records[user] is V1
            &&& after.records[user].amount() == after.migrated_by(user)
            &&& after.migrated_by(other) == state.migrated_by(other)
            &&& after.records.contains_key(other) == state.records.contains_key(other)
            &&& after.records.contains_key(other) ==> after.records[other] == state.records[other]
        }),
{
    assert(amount > 0);
}

/// A user joins the index with their first migration, behind everyone who is there, and
/// not again. Joining puts the storage migration in progress.
pub proof fn law_users_join_once(state: State, now: u64, user: Address, amount: i128)
    requires
        consistent(state),
        rules::migrate_result(state, now, user, amount) is Ok,
    ensures
        ({
            let after = rules::migrate_state(state, now, user, amount);
            if state.migrated_by(user) == 0 {
                &&& after.count() == state.count() + 1
                &&& after.index == state.index.insert(state.count(), user)
                &&& after.status == Some(MigrationStatus::InProgress)
            } else {
                &&& after.count() == state.count()
                &&& after.index == state.index
                &&& after.status == state.status
            }
        }),
{
    assert(state.records.contains_key(user) <==> state.migrated.contains_key(user));
}

/// A refused migration writes nothing: the storage is as it was, and no action that it
/// asked for is a write.
pub proof fn law_refused_migration_writes_nothing(
    state: State,
    now: u64,
    user: Address,
    amount: i128,
)
    requires
        rules::migrate_result(state, now, user, amount) is Err,
    ensures
        rules::migrate_state(state, now, user, amount) == state,
        forall|i: int|
            0 <= i < rules::migrate_actions(state, now, user, amount).len() ==> !(
            #[trigger] rules::migrate_actions(state, now, user, amount)[i] is Store),
{
}

/// A migration is authorised by its user before anything else, and an accepted one takes
/// in exactly its amount of old tokens from the user and mints the user the ratio's
/// multiple of it in new ones.
pub proof fn law_swap_is_at_the_ratio(
    state: State,
    now: u64,
    user: Address,
    amount: i128,
    new_amount: i128,
)
    requires
        rules::migrate_result(state, now, user, amount) is Ok,
        new_amount == amount * state.config->Some_0.ratio_new_per_old,
    ensures
        ({
            let config = state.config->Some_0;
            let actions = rules::migrate_actions(state, now, user, amount);
            &&& actions.len() >= 3
            &&& actions[0] == HostAction::RequireAuth(user)
            &&& actions[1] == HostAction::TransferFrom {
                token: config.old_token,
                from: user,
                amount,
            }
            &&& actions[2] == HostAction::Mint {
                token: config.new_token,
                to: user,
                amount: new_amount,
            }
            &&& actions.last() == HostAction::PublishMigrated { user, amount, new_amount }
            &&& forall|i: int|
                3 <= i < actions.len() ==> !(#[trigger] actions[i] is Mint)
                    && !(actions[i] is TransferFrom) && !(actions[i] is Transfer)
        }),
{
    let actions = rules::migrate_actions(state, now, user, amount);
    assert(rules::quote(state.config, now, amount) == Ok::<i128, MigrationError>(new_amount));
    let booking = rules::booking_actions(state, user, amount, new_amount);
    assert(actions.last() == booking.last());
}

/// It makes no difference to the new tokens whether an amount is migrated at once or in
/// two parts.
pub proof fn law_quotes_add_up(config: Option<MigrationConfig>, now: u64, first: i128, second: i128)
    requires
        first > 0,
        second > 0,
        first + second <= i128::MAX,
        rules::quote(config, now, (first + second) as i128) is Ok,
    ensures
        rules::quote(config, now, first) is Ok,
        rules::quote(config, now, second) is Ok,
        rules::quote(config, now, (first + second) as i128)->Ok_0 == rules::quote(
            config,
            now,
            first,
        )->Ok_0 + rules::quote(config, now, second)->Ok_0,
{
    let ratio = config->Some_0.ratio_new_per_old as int;
    assert((first + second) * ratio == first * ratio + second * ratio) by (nonlinear_arith);
    assert(first * ratio >= 0) by (nonlinear_arith)
        requires
            first > 0,
            ratio >= 0,
    ;
    assert(second * ratio >= 0) by (nonlinear_arith)
        requires
            second > 0,
            ratio >= 0,
    ;
}

/// It makes no difference to the storage whether an amount is migrated at once or in two
/// parts, one right after the other.
pub proof fn law_migrations_split(state: State, now: u64, user: Address, first: i128, second: i128)
    requires
        first > 0,
        second > 0,
        first + second <= i128::MAX,
        rules::migrate_result(state, now, user, (first + second) as i128) is Ok,
    ensures
        ({
            let middle = rules::migrate_state(state, now, user, first);
            &&& rules::migrate_result(state, now, user, first) is Ok
            &&& rules::migrate_result(middle, now, user, second) is Ok
            &&& rules::migrate_state(middle, now, user, second) == rules::migrate_state(
                state,
                now,
                user,
                (first + second) as i128,
            )
        }),
{
    let both = (first + second) as i128;
    law_quotes_add_up(state.config, now, first, second);
    let middle = rules::migrate_state(state, now, user, first);
    let twice = rules::migrate_state(middle, now, user, second);
    let once = rules::migrate_state(state, now, user, both);
    assert(twice.migrated =~= once.migrated);
    assert(twice.records =~= once.records);
    assert(twice.index =~= once.index);
}

/// Migrations are possible up to the deadline and withdrawals after it: at no time is
/// the one in its period and the other too, and at every time one of them is.
pub proof fn law_periods_do_not_overlap(config: MigrationConfig, now: u64, amount: i128)
    ensures
        rules::quote(Some(config), now, amount) == Err::<i128, _>(MigrationError::MigrationEnded)
            <==> rules::withdraw_refusal(Some(config), now) is None,
{
}

/// It is the deadline that ends migrations and opens withdrawals: up to it, and at it, no
/// migration is refused as late and every withdrawal as early, and after it the other way
/// round, whatever the deadline, the time and the amount.
pub proof fn law_deadline_separates_the_periods(config: MigrationConfig, now: u64, amount: i128)
    ensures
        rules::quote(Some(config), now, amount) == Err::<i128, _>(MigrationError::MigrationEnded)
            <==> now > config.deadline,
        rules::withdraw_refusal(Some(config), now) is None <==> now > config.deadline,
        rules::withdraw_refusal(Some(config), now) == Some(MigrationError::WithdrawBeforeDeadline)
            <==> now <= config.deadline,
        rules::withdraw_refusal(None, now) == Some(MigrationError::NotInitialized),
{
}

/// A withdrawal pays out all that the contract holds: a balance above zero is transferred
/// in full, as the last step, after the admin's authorisation, and nothing else is asked.
/// Without a balance nothing is transferred.
pub proof fn law_withdrawal_pays_the_balance(config: MigrationConfig, balance: i128)
    ensures
        ({
            let actions = rules::withdraw_actions(config, balance);
            &&& actions.len() == (if balance > 0 {
                2
            } else {
                1int
            })
            &&& actions[0] == HostAction::RequireAuth(config.admin)
            &&& balance > 0 ==> actions.last() == (HostAction::Transfer {
                token: config.old_token,
                to: config.admin,
                amount: balance,
            })
        }),
{
}

/// What ends a withdrawal is one transfer of the whole balance if it is above zero, and
/// nothing otherwise, whichever the token and whoever is paid.
pub proof fn law_payout_is_the_whole_balance(token: Address, to: Address, balance: i128)
    ensures
        balance > 0 ==> rules::payout_actions(token, to, balance) == seq![
            HostAction::Transfer { token, to, amount: balance },
        ],
        balance <= 0 ==> rules::payout_actions(token, to, balance).len() == 0,
{
}

/// The two storages tell the same of who has migrated what: they differ at most in the
/// schema of the records and in where the storage migration is.
pub open spec fn keeps_data(before: State, after: State) -> bool {
    &&& after.config == before.config
    &&& after.total_migrated == before.total_migrated
    &&& after.user_count == before.user_count
    &&& after.migrated == before.migrated
    &&& after.index == before.index
    &&& forall|user: Address| #[trigger]
        after.records.contains_key(user) <==> before.records.contains_key(user)
    &&& forall|user: Address| #[trigger]
        after.records.contains_key(user) ==> after.records[user].amount()
            == before.records[user].amount()
}

/// Bringing records to the second schema loses nothing: a batch keeps who has a record,
/// every record's amount, what everyone has migrated, the total and the index, and leaves
/// a second-schema record as it is.
pub proof fn law_batch_loses_no_data(state: State, now: u64, caller: Address, size: u32)
    ensures
        keeps_data(state, rules::batch_state(state, now, caller, size)),
        forall|user: Address| #[trigger]
            state.records.contains_key(user) && state.records[user] is V2 ==> rules::batch_state(
                state,
                now,
                caller,
                size,
            ).records[user] == state.records[user],
{
}

/// After a batch every record that it passed is in the second schema and bears its time;
/// the records behind it and ahead of it are as they were.
pub proof fn law_batch_upgrades_what_it_passes(
    state: State,
    now: u64,
    caller: Address,
    size: u32,
    i: u32,
)
    requires
        consistent(state),
        rules::batch_refusal(state.config, caller) is None,
        i < state.count(),
    ensures
        ({
            let after = rules::batch_state(state, now, caller, size);
            let user = state.index[i];
            if state.position() <= i < after.position() {
                after.records[user] == VersionedUserRecord::V2(
                    UserRecordV2 {
                        amount: state.records[user].amount(),
                        migrated_at: now,
                    },
                )
            } else {
                after.records[user] == state.records[user]
            }
        }),
{
    let after = rules::batch_state(state, now, caller, size);
    let user = state.index[i];
    assert(state.records.contains_key(user));
    assert(state.index.contains_key(i));
    if state.position() <= i < after.position() {
        assert(state.records[user] is V1);
    } else {
        assert(!rules::indexed_within(state, state.position(), after.position(), user)) by {
            if rules::indexed_within(state, state.position(), after.position(), user) {
                let j = choose|j: u32|
                    state.position() <= j < after.position()
                        && #[trigger] state.index.contains_key(j) && state.index[j] == user;
                assert(state.index[j] != state.index[i]);
            }
        }
    }
}

/// A batch is accepted if and only if the admin asks for it. It then moves the cursor on by
/// `size`, or by as many users as there are ahead, says where the cursor is now, and that the
/// storage migration is completed if and only if there are users and none of them is ahead.
/// A refused one changes nothing.
pub proof fn law_batch_moves_the_cursor(state: State, now: u64, caller: Address, size: u32)
    ensures
        ({
            let refusal = rules::batch_refusal(state.config, caller);
            let after = rules::batch_state(state, now, caller, size);
            let count: int = match state.user_count {
                Some(count) => count as int,
                None => 0,
            };
            let from: int = match state.cursor {
                Some(cursor) => cursor as int,
                None => 0,
            };
            let to = rules::batch_cursor(state, size);
            &&& refusal is None <==> (state.config is Some && caller == state.config->Some_0.admin)
            &&& refusal == Some(MigrationError::NotInitialized) <==> state.config is None
            &&& refusal == Some(MigrationError::NotAdmin) <==> (state.config is Some && caller
                != state.config->Some_0.admin)
            &&& from <= count ==> from <= to <= count
            &&& from <= count && size <= count - from ==> to == from + size
            &&& from <= count && size > count - from ==> to == count
            &&& from > count ==> to == from
            &&& if refusal is Some {
                after == state
            } else {
                &&& after.cursor == Some(to)
                &&& after.status is Some
                &&& after.status->Some_0 is Completed <==> (count > 0 && to >= count)
                &&& after.status->Some_0 is InProgress <==> (count == 0 || to < count)
                &&& after.config == state.config
                &&& after.total_migrated == state.total_migrated
                &&& after.user_count == state.user_count
                &&& after.migrated == state.migrated
                &&& after.index == state.index
            }
        }),
{
}

/// A batch brings the record of every user whom the cursor passed, and of nobody else, from
/// the first schema to the second: the amount stays, and the time is that of the batch. All
/// other records, and who has one, are as before.
pub proof fn law_batch_stamps_whom_it_passes(
    state: State,
    now: u64,
    caller: Address,
    size: u32,
    user: Address,
)
    requires
        state.config is Some,
        caller == state.config->Some_0.admin,
    ensures
        ({
            let after = rules::batch_state(state, now, caller, size);
            let from: u32 = match state.cursor {
                Some(cursor) => cursor,
                None => 0,
            };
            let passed = exists|i: u32|
                from <= i < after.cursor->Some_0 && #[trigger] state.index.contains_key(i)
                    && state.index[i] == user;
            &&& after.records.dom() == state.records.dom()
            &&& state.records.contains_key(user) ==> match state.records[user] {
                VersionedUserRecord::V1(record) if passed => after.records[user]
                    == VersionedUserRecord::V2(
                    UserRecordV2 { amount: record.amount, migrated_at: now },
                ),
                _ => after.records[user] == state.records[user],
            }
        }),
{
    let after = rules::batch_state(state, now, caller, size);
    assert(after.records.dom() =~= state.records.dom());
}

/// A batch moves the cursor over at most `size` users, never back and never past the
/// end, and by as many as there are.
pub proof fn law_batch_is_bounded(state: State, now: u64, caller: Address, size: u32)
    requires
        consistent(state),
        rules::batch_refusal(state.config, caller) is None,
    ensures
        ({
            let after = rules::batch_state(state, now, caller, size);
            &&& state.position() <= after.position() <= state.count()
            &&& after.position() - state.position() <= size
            &&& after.position() - state.position() == size || after.position() == state.count()
        }),
{
}

/// Two batches at one time do what one batch of both sizes does.
pub proof fn law_batches_compose(state: State, now: u64, first: u32, second: u32)
    requires
        state.position() <= state.count(),
        first + second <= u32::MAX,
    ensures
        rules::upgraded(rules::upgraded(state, now, first), now, second) == rules::upgraded(
            state,
            now,
            (first + second) as u32,
        ),
{
    let middle = rules::upgraded(state, now, first);
    let twice = rules::upgraded(middle, now, second);
    let once = rules::upgraded(state, now, (first + second) as u32);
    let a = state.position();
    let b = middle.position();
    let c = once.position();
    assert(twice.position() == c);
    assert forall|user: Address| #[trigger] rules::indexed_within(state, a, c, user) <==> (
    rules::indexed_within(state, a, b, user) || rules::indexed_within(middle, b, c, user)) by {
        if rules::indexed_within(state, a, c, user) {
            let i = choose|i: u32|
                a <= i < c && #[trigger] state.index.contains_key(i) && state.index[i] == user;
            assert(middle.index.contains_key(i));
        }
        if rules::indexed_within(state, a, b, user) {
            let i = choose|i: u32|
                a <= i < b && #[trigger] state.index.contains_key(i) && state.index[i] == user;
            assert(a <= i < c);
        }
        if rules::indexed_within(middle, b, c, user) {
            let i = choose|i: u32|
                b <= i < c && #[trigger] middle.index.contains_key(i) && middle.index[i] == user;
            assert(state.index.contains_key(i));
        }
    }
    assert forall|user: Address| twice.records.contains_key(user) implies #[trigger] twice.records[user]
        == once.records[user] by {
        assert(rules::indexed_within(state, a, c, user) <==> (rules::indexed_within(
            state,
            a,
            b,
            user,
        ) || rules::indexed_within(middle, b, c, user)));
    }
    assert(twice.records =~= once.records);
}

/// The storage after one batch of `size` users at each of the `times`, in order.
pub open spec fn after_batches(state: State, times: Seq<u64>, size: u32) -> State
    decreases times.len(),
{
    if times.len() == 0 {
        state
    } else {
        rules::upgraded(after_batches(state, times.drop_last(), size), times.last(), size)
    }
}

/// Batches, run often enough, complete the storage migration: once they cover the users
/// ahead of the cursor, the status is completed and every record that lay ahead is in the
/// second schema. The records behind the cursor are as they were, so that all records are
/// in the second schema if those were. No data is lost: the index, who has a record, every
/// amount and the total are unchanged.
pub proof fn law_batches_complete(state: State, times: Seq<u64>, size: u32)
    requires
        consistent(state),
        state.count() > 0,
        times.len() * size >= state.count() - state.position(),
    ensures
        ({
            let after = after_batches(state, times, size);
            &&& after.status == Some(MigrationStatus::Completed)
            &&& after.cursor == state.user_count
            &&& keeps_data(state, after)
            &&& forall|i: u32|
                state.position() <= i < state.count() ==> after.records[#[trigger] state.index[i]] is V2
            &&& forall|i: u32|
                i < state.position() ==> after.records[#[trigger] state.index[i]]
                    == state.records[state.index[i]]
            &&& (forall|i: u32|
                i < state.position() ==> state.records[#[trigger] state.index[i]] is V2) ==> (
            forall|user: Address| #[trigger]
                after.records.contains_key(user) ==> after.records[user] is V2)
        }),
{
    lemma_after_batches(state, times, size);
    let after = after_batches(state, times, size);
    if forall|i: u32| i < state.position() ==> state.records[#[trigger] state.index[i]] is V2 {
        assert forall|user: Address| #[trigger]
            after.records.contains_key(user) implies after.records[user] is V2 by {
            assert(state.records.contains_key(user));
            let i = choose|i: u32|
                0 <= i < state.count() && #[trigger] state.index.contains_key(i) && state.index[i]
                    == user;
            assert(after.records[state.index[i]] is V2);
        }
    }
}

/// What a run of batches does, whether or not it comes to the end.
proof fn lemma_after_batches(state: State, times: Seq<u64>, size: u32)
    requires
        consistent(state),
    ensures
        ({
            let after = after_batches(state, times, size);
            &&& consistent(after)
            &&& keeps_data(state, after)
            &&& after.position() == if times.len() * size >= state.count() - state.position() {
                state.count() as int
            } else {
                state.position() + times.len() * size
            }
            &&& forall|i: u32|
                state.position() <= i < after.position()
                    ==> after.records[#[trigger] state.index[i]] is V2
            &&& forall|i: u32|
                i < state.position() ==> after.records[#[trigger] state.index[i]]
                    == state.records[state.index[i]]
        }),
    decreases times.len(),
{
    if times.len() > 0 {
        let before = after_batches(state, times.drop_last(), size);
        let now = times.last();
        let admin = state.config->Some_0.admin;
        let after = after_batches(state, times, size);
        lemma_after_batches(state, times.drop_last(), size);
        law_batch_keeps_consistent(before, now, admin, size);
        assert(after == rules::batch_state(before, now, admin, size));
        assert(times.len() * size == (times.len() - 1) * size + size) by (nonlinear_arith)
            requires
                times.len() > 0,
        ;
        assert forall|i: u32|
            state.position() <= i < after.position() implies after.records[#[trigger] state.index[i]] is V2 by {
            law_batch_upgrades_what_it_passes(before, now, admin, size, i);
            if i < before.position() {
                assert(before.records[state.index[i]] is V2);
            }
        }
        assert forall|i: u32| i < state.position() implies after.records[#[trigger] state.index[i]]
            == state.records[state.index[i]] by {
            law_batch_upgrades_what_it_passes(before, now, admin, size, i);
        }
    } else {
        assert(times.len() * size == 0) by (nonlinear_arith)
            requires
                times.len() == 0,
        ;
    }
}

/// Pages of the index join up: the page from `start` to `end` is the page up to any
/// position between, followed by the page from there.
pub proof fn law_pages_join_up(state: State, start: u32, middle: u32, end: u32)
    requires
        start <= middle <= end,
    ensures
        rules::listed(state, start, end) == rules::listed(state, start, middle) + rules::listed(
            state,
            middle,
            end,
        ),
    decreases end,
{
    if middle < end {
        law_pages_join_up(state, start, middle, (end - 1) as u32);
    }
    assert(rules::listed(state, start, end) =~= rules::listed(state, start, middle)
        + rules::listed(state, middle, end));
}

/// The window of `size` positions from `start` ends `size` further on, or where the
/// positions end if that comes first.
pub proof fn law_window_ends_with_its_size_or_the_index(count: u32, start: u32, size: u32)
    ensures
        start + size <= count ==> rules::window_end(count, start, size) == start + size,
        start + size > count ==> rules::window_end(count, start, size) == count,
{
}

/// At a single position there is the user who is stored there, or nobody; a stretch that
/// does not begin before its end is empty.
pub proof fn law_position_lists_its_user(state: State, start: u32, end: u32)
    ensures
        end <= start ==> rules::listed(state, start, end).len() == 0,
        end == start + 1 ==> rules::listed(state, start, end) == (if state.index.contains_key(
            start,
        ) {
            seq![state.index[start]]
        } else {
            seq![]
        }),
{
    reveal_with_fuel(rules::listed, 2);
}

/// The page of at most `limit` users from position `start`.
pub open spec fn page(state: State, start: u32, limit: u32) -> Seq<Address> {
    rules::listed(state, start, rules::window_end(state.count(), start, limit))
}

/// Whoever walks the index page by page meets everyone: a page of `first` users and the page
/// of `second` users behind it are the page of both.
pub proof fn law_consecutive_pages_join_up(state: State, start: u32, first: u32, second: u32)
    requires
        start + first <= u32::MAX,
        first + second <= u32::MAX,
    ensures
        page(state, start, first) + page(state, (start + first) as u32, second) == page(
            state,
            start,
            (first + second) as u32,
        ),
{
    let count = state.count();
    let middle = (start + first) as u32;
    let end = rules::window_end(count, start, (first + second) as u32);
    if middle <= end {
        law_pages_join_up(state, start, middle, end);
    } else {
        assert(page(state, middle, second) =~= seq![]);
        assert(page(state, start, first) + page(state, middle, second) =~= page(
            state,
            start,
            (first + second) as u32,
        ));
    }
}

/// A page has as many users as the limit allows and the index holds from `start` on: they
/// are those at the positions from `start`, in order, and none of them comes twice.
pub proof fn law_page_is_a_stretch_of_the_index(state: State, start: u32, limit: u32)
    requires
        consistent(state),
    ensures
        ({
            let end = rules::window_end(state.count(), start, limit);
            let page = rules::listed(state, start, end);
            let count = state.user_count->Some_0;
            &&& page.len() == (if start <= end {
                end - start
            } else {
                0
            })
            &&& page.len() == (if start > count {
                0
            } else if limit <= count - start {
                limit as int
            } else {
                count - start
            })
            &&& page.len() <= limit
            &&& forall|i: int|
                0 <= i < page.len() ==> #[trigger] page[i] == state.index[(start + i) as u32]
            &&& page.no_duplicates()
        }),
{
    let end = rules::window_end(state.count(), start, limit);
    let page = rules::listed(state, start, end);
    lemma_listed(state, start, end);
    assert forall|i: int, j: int| 0 <= i < j < page.len() implies page[i] != page[j] by {
        assert(state.index[(start + i) as u32] != state.index[(start + j) as u32]);
    }
}

/// In a consistent storage the users listed are those at the positions, one by one.
pub proof fn lemma_listed(state: State, start: u32, end: u32)
    requires
        consistent(state),
        end <= state.count(),
    ensures
        rules::listed(state, start, end).len() == (if start <= end {
            end - start
        } else {
            0
        }),
        forall|i: int|
            0 <= i < rules::listed(state, start, end).len() ==> #[trigger] rules::listed(
                state,
                start,
                end,
            )[i] == state.index[(start + i) as u32],
    decreases end,
{
    if start < end {
        lemma_listed(state, start, (end - 1) as u32);
        assert(state.index.contains_key((end - 1) as u32));
    }
}

/// The pages of the whole index list exactly the users who have migrated.
pub proof fn law_pages_list_everyone(state: State, user: Address)
    requires
        consistent(state),
    ensures
        rules::listed(state, 0, state.count()).contains(user) <==> state.migrated_by(user) > 0,
{
    let page = rules::listed(state, 0, state.count());
    lemma_listed(state, 0, state.count());
    assert(state.records.contains_key(user) <==> state.migrated.contains_key(user));
    if state.records.contains_key(user) {
        let i = choose|i: u32|
            0 <= i < state.count() && #[trigger] state.index.contains_key(i) && state.index[i]
                == user;
        assert(page[i as int] == user);
    }
    if page.contains(user) {
        let i = choose|i: int| 0 <= i < page.len() && page[i] == user;
        assert(state.index[i as u32] == user);
    }
}

} // verus!
