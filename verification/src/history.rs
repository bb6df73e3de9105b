//! What holds over a whole history of invocations.
use crate::execution;
use crate::laws;
use crate::ledger::{self, HostAction, State};
use crate::rules;
use crate::types::{
    Address, MigrationConfig, MigrationStatus, UserRecordV1, UserRecordV2, VersionedUserRecord,
};
use vstd::prelude::*;

verus! {

/// An invocation of the contract that may change its storage or move tokens.
pub enum Operation {
    Initialize { config: MigrationConfig },
    Migrate { now: u64, user: Address, amount: i128 },
    WithdrawLegacy { now: u64, balance: i128 },
    MigrateStorageBatch { now: u64, caller: Address, size: u32 },
}

impl Operation {
    /// Whether the contract accepts the invocation.
    pub open spec fn accepted(self, state: State) -> bool {
        match self {
            Operation::Initialize { config } => rules::initialize_result(state) is Ok,
            Operation::Migrate { now, user, amount } => rules::migrate_result(
                state,
                now,
                user,
                amount,
            ) is Ok,
            Operation::WithdrawLegacy { now, balance } => rules::withdraw_refusal(
                state.config,
                now,
            ) is None,
            Operation::MigrateStorageBatch { now, caller, size } => rules::batch_refusal(
                state.config,
                caller,
            ) is None,
        }
    }

    /// The storage after the invocation.
    pub open spec fn outcome(self, state: State) -> State {
        match self {
            Operation::Initialize { config } => rules::initialize_state(state, config),
            Operation::Migrate { now, user, amount } => rules::migrate_state(
                state,
                now,
                user,
                amount,
            ),
            Operation::WithdrawLegacy { now, balance } => state,
            Operation::MigrateStorageBatch { now, caller, size } => rules::batch_state(
                state,
                now,
                caller,
                size,
            ),
        }
    }

    /// What the host carries out for the invocation and keeps. A refused invocation is
    /// undone.
    pub open spec fn kept_actions(self, state: State) -> Seq<HostAction> {
        if !self.accepted(state) {
            seq![]
        } else {
            match self {
                Operation::Initialize { config } => rules::initialize_actions(state, config),
                Operation::Migrate { now, user, amount } => rules::migrate_actions(
                    state,
                    now,
                    user,
                    amount,
                ),
                Operation::WithdrawLegacy { now, balance } => rules::withdraw_actions(
                    state.config->Some_0,
                    balance,
                ),
                Operation::MigrateStorageBatch { now, caller, size } => rules::batch_actions(
                    state,
                    now,
                    caller,
                    size,
                ),
            }
        }
    }
}

/// The storage after the invocations, oldest first.
pub open spec fn run(state: State, operations: Seq<Operation>) -> State
    decreases operations.len(),
{
    if operations.len() == 0 {
        state
    } else {
        operations.last().outcome(run(state, operations.drop_last()))
    }
}

/// What the host carries out for the invocations and keeps, oldest first.
pub open spec fn run_actions(state: State, operations: Seq<Operation>) -> Seq<HostAction>
    decreases operations.len(),
{
    if operations.len() == 0 {
        seq![]
    } else {
        let before = operations.drop_last();
        run_actions(state, before) + operations.last().kept_actions(run(state, before))
    }
}

/// How many old tokens an action takes in.
pub open spec fn taken_in_by(action: HostAction) -> int {
    match action {
        HostAction::TransferFrom { token, from, amount } => amount as int,
        _ => 0,
    }
}

/// How many new tokens an action mints.
pub open spec fn minted_by(action: HostAction) -> int {
    match action {
        HostAction::Mint { token, to, amount } => amount as int,
        _ => 0,
    }
}

/// How many old tokens the actions take in.
pub open spec fn taken_in(actions: Seq<HostAction>) -> int
    decreases actions.len(),
{
    if actions.len() == 0 {
        0
    } else {
        taken_in(actions.drop_last()) + taken_in_by(actions.last())
    }
}

/// How many new tokens the actions mint.
pub open spec fn minted(actions: Seq<HostAction>) -> int
    decreases actions.len(),
{
    if actions.len() == 0 {
        0
    } else {
        minted(actions.drop_last()) + minted_by(actions.last())
    }
}

/// The tokens of two lists of actions are those of both.
proof fn lemma_tokens_concatenation(first: Seq<HostAction>, second: Seq<HostAction>)
    ensures
        taken_in(first + second) == taken_in(first) + taken_in(second),
        minted(first + second) == minted(first) + minted(second),
    decreases second.len(),
{
    if second.len() == 0 {
        assert(first + second =~= first);
    } else {
        lemma_tokens_concatenation(first, second.drop_last());
        assert((first + second).drop_last() =~= first + second.drop_last());
    }
}

/// Actions none of which takes in or mints leave the tokens alone.
proof fn lemma_no_tokens(actions: Seq<HostAction>)
    requires
        forall|i: int|
            0 <= i < actions.len() ==> !(#[trigger] actions[i] is TransferFrom) && !(
            actions[i] is Mint),
    ensures
        taken_in(actions) == 0,
        minted(actions) == 0,
    decreases actions.len(),
{
    if actions.len() > 0 {
        lemma_no_tokens(actions.drop_last());
    }
}

/// A window is brought to the second schema by writes alone.
proof fn lemma_upgrade_only_writes(state: State, start: u32, end: u32, now: u64)
    ensures
        forall|i: int|
            0 <= i < rules::upgrade_actions(state, start, end, now).len()
                ==> #[trigger] rules::upgrade_actions(state, start, end, now)[i] is Store,
{
    execution::lemma_upgrade_is_writes(state, start, end, now);
}

/// Nothing has been written yet, or the storage is consistent.
pub open spec fn fresh_or_consistent(state: State) -> bool {
    state == State::empty() || laws::consistent(state)
}

/// Whatever is invoked on a contract, fresh or initialized, its storage stays empty or is
/// consistent, and the terms, once set, are the same ever after.
pub proof fn law_history_is_consistent(state: State, operations: Seq<Operation>)
    requires
        fresh_or_consistent(state),
    ensures
        fresh_or_consistent(run(state, operations)),
        state.config is Some ==> run(state, operations).config == state.config,
    decreases operations.len(),
{
    if operations.len() > 0 {
        law_history_is_consistent(state, operations.drop_last());
        let before = run(state, operations.drop_last());
        match operations.last() {
            Operation::Initialize { config } => {
                laws::law_initialization_is_consistent(State::empty(), config);
            },
            Operation::Migrate { now, user, amount } => {
                if laws::consistent(before) {
                    laws::law_migrate_keeps_consistent(before, now, user, amount);
                }
            },
            Operation::MigrateStorageBatch { now, caller, size } => {
                if laws::consistent(before) {
                    laws::law_batch_keeps_consistent(before, now, caller, size);
                }
            },
            Operation::WithdrawLegacy { now, balance } => {},
        }
    }
}

/// The terms that the first initialization among the invocations asks for.
pub open spec fn first_terms(operations: Seq<Operation>) -> Option<MigrationConfig>
    decreases operations.len(),
{
    if operations.len() == 0 {
        None
    } else {
        match (first_terms(operations.drop_last()), operations.last()) {
            (None, Operation::Initialize { config }) => Some(config),
            (earlier, _) => earlier,
        }
    }
}

/// A fresh contract takes its terms from the first initialization, whatever else is
/// invoked. Before it the storage stays empty, and from it on the storage is consistent.
pub proof fn law_first_initialization_sets_the_terms(operations: Seq<Operation>)
    ensures
        ({
            let after = run(State::empty(), operations);
            &&& after.config == first_terms(operations)
            &&& after == State::empty() || laws::consistent(after)
            &&& after == State::empty() <==> first_terms(operations) is None
        }),
    decreases operations.len(),
{
    law_history_is_consistent(State::empty(), operations);
    if operations.len() > 0 {
        law_first_initialization_sets_the_terms(operations.drop_last());
    }
}

/// What the host has carried out is what the contract's storage says.
pub proof fn law_history_is_carried_out(state: State, operations: Seq<Operation>)
    ensures
        state.after_all(run_actions(state, operations)) == run(state, operations),
    decreases operations.len(),
{
    if operations.len() > 0 {
        let before = run(state, operations.drop_last());
        let operation = operations.last();
        law_history_is_carried_out(state, operations.drop_last());
        ledger::law_after_all_concatenation(
            state,
            run_actions(state, operations.drop_last()),
            operation.kept_actions(before),
        );
        assert(before.after_all(operation.kept_actions(before)) == operation.outcome(before)) by {
            reveal_with_fuel(State::after_all, 3);
            match operation {
                Operation::Initialize { config } => {
                    execution::law_initialize_is_carried_out(before, config);
                },
                Operation::Migrate { now, user, amount } => {
                    execution::law_migrate_is_carried_out(before, now, user, amount);
                },
                Operation::MigrateStorageBatch { now, caller, size } => {
                    execution::law_batch_is_carried_out(before, now, caller, size);
                },
                Operation::WithdrawLegacy { now, balance } => {},
            }
        }
    }
}

/// The swap is at the fixed ratio over the whole history of a contract: the old tokens
/// taken in are the total migrated, and the new tokens minted are the ratio's multiple of
/// it. Before the terms are set no tokens move.
pub proof fn law_history_swaps_at_the_ratio(operations: Seq<Operation>)
    ensures
        ({
            let after = run(State::empty(), operations);
            let actions = run_actions(State::empty(), operations);
            match after.config {
                None => taken_in(actions) == 0 && minted(actions) == 0,
                Some(config) => {
                    &&& after.total_migrated is Some
                    &&& taken_in(actions) == after.total_migrated->Some_0
                    &&& minted(actions) == after.total_migrated->Some_0 * config.ratio_new_per_old
                },
            }
        }),
    decreases operations.len(),
{
    let start = State::empty();
    if operations.len() > 0 {
        let before = run(start, operations.drop_last());
        let operation = operations.last();
        let kept = operation.kept_actions(before);
        law_history_swaps_at_the_ratio(operations.drop_last());
        law_history_is_consistent(start, operations.drop_last());
        lemma_tokens_concatenation(run_actions(start, operations.drop_last()), kept);
        match operation {
            Operation::Migrate { now, user, amount } if operation.accepted(before) => {
                let config = before.config->Some_0;
                let ratio = config.ratio_new_per_old;
                let new_amount = rules::quote(before.config, now, amount)->Ok_0;
                let auth = seq![HostAction::RequireAuth(user)];
                let swap = rules::exchange_actions(config, user, amount, new_amount);
                let booking = rules::booking_actions(before, user, amount, new_amount);
                assert(kept =~= auth + (swap + booking));
                lemma_tokens_concatenation(auth, swap + booking);
                lemma_tokens_concatenation(swap, booking);
                lemma_no_tokens(auth);
                lemma_no_tokens(booking);
                assert(taken_in(swap) == amount && minted(swap) == new_amount) by {
                    reveal_with_fuel(taken_in, 3);
                    reveal_with_fuel(minted, 3);
                }
                let total = before.total_migrated->Some_0 as int;
                assert((total + amount) * ratio == total * ratio + amount * ratio)
                    by (nonlinear_arith);
            },
            Operation::MigrateStorageBatch { now, caller, size } => {
                lemma_upgrade_only_writes(
                    before,
                    before.position(),
                    rules::batch_cursor(before, size),
                    now,
                );
                lemma_no_tokens(kept);
            },
            Operation::Initialize { config } => {
                lemma_no_tokens(kept);
                assert(0 * config.ratio_new_per_old == 0);
            },
            _ => {
                lemma_no_tokens(kept);
            },
        }
    }
}

/// Whether `action` pays out `config`'s legacy tokens to its admin, as one of the
/// `operations` asked after its deadline.
pub open spec fn paid_to_admin_after_deadline(
    config: Option<MigrationConfig>,
    operations: Seq<Operation>,
    action: HostAction,
) -> bool {
    match (config, action) {
        (Some(config), HostAction::Transfer { token, to, amount }) => {
            &&& token == config.old_token
            &&& to == config.admin
            &&& amount > 0
            &&& exists|k: int|
                0 <= k < operations.len() && #[trigger] is_late_withdrawal(
                    operations[k],
                    config,
                    amount,
                )
        },
        _ => false,
    }
}

/// Whether the operation withdraws `amount` after the deadline.
pub open spec fn is_late_withdrawal(
    operation: Operation,
    config: MigrationConfig,
    amount: i128,
) -> bool {
    match operation {
        Operation::WithdrawLegacy { now, balance } => now > config.deadline && balance == amount,
        _ => false,
    }
}

/// The contract parts with tokens in one way only: every transfer out of it, over any
/// history, is of the legacy token, goes to the admin, was asked for by a withdrawal of
/// that amount after the deadline, and follows directly on the admin's authorization.
pub proof fn law_legacy_tokens_go_to_the_admin(state: State, operations: Seq<Operation>)
    ensures
        ({
            let actions = run_actions(state, operations);
            let config = run(state, operations).config;
            forall|i: int|
                0 <= i < actions.len() && (#[trigger] actions[i]) is Transfer ==> {
                    &&& paid_to_admin_after_deadline(config, operations, actions[i])
                    &&& i > 0
                    &&& actions[i - 1] == HostAction::RequireAuth(config->Some_0.admin)
                }
        }),
    decreases operations.len(),
{
    if operations.len() > 0 {
        let earlier = operations.drop_last();
        let before = run(state, earlier);
        let operation = operations.last();
        let past = run_actions(state, earlier);
        let kept = operation.kept_actions(before);
        let actions = run_actions(state, operations);
        let config = run(state, operations).config;
        law_legacy_tokens_go_to_the_admin(state, earlier);
        if let Operation::MigrateStorageBatch { now, caller, size } = operation {
            lemma_upgrade_only_writes(
                before,
                before.position(),
                rules::batch_cursor(before, size),
                now,
            );
        }
        assert forall|i: int|
            0 <= i < actions.len() && (#[trigger] actions[i]) is Transfer implies {
            &&& paid_to_admin_after_deadline(config, operations, actions[i])
            &&& i > 0
            &&& actions[i - 1] == HostAction::RequireAuth(config->Some_0.admin)
        } by {
            if i < past.len() {
                assert(past[i] == actions[i]);
                assert(paid_to_admin_after_deadline(before.config, earlier, past[i]));
                let amount = past[i]->Transfer_amount;
                let k = choose|k: int|
                    0 <= k < earlier.len() && #[trigger] is_late_withdrawal(
                        earlier[k],
                        before.config->Some_0,
                        amount,
                    );
                assert(is_late_withdrawal(operations[k], config->Some_0, amount));
            } else {
                assert(actions[i] == kept[i - past.len()]);
                assert(is_late_withdrawal(
                    operations[operations.len() - 1],
                    config->Some_0,
                    actions[i]->Transfer_amount,
                ));
            }
        }
    }
}

/// Every accepted migration and every accepted batch publishes one event, as its last
/// action, under its own topic; nothing else publishes any.
pub proof fn law_events_are_published_once(state: State, operation: Operation)
    requires
        operation.accepted(state),
    ensures
        ({
            let actions = operation.kept_actions(state);
            let topic = match operation {
                Operation::Migrate { .. } => Some("migrated"@),
                Operation::MigrateStorageBatch { .. } => Some("storage_migrated"@),
                _ => None,
            };
            &&& actions.len() > 0
            &&& actions.last().topic_text() == topic
            &&& forall|i: int|
                0 <= i < actions.len() - 1 ==> (#[trigger] actions[i]).topic_text() is None
        }),
{
    let actions = operation.kept_actions(state);
    match operation {
        Operation::Migrate { now, user, amount } => {
            let new_amount = rules::quote(state.config, now, amount)->Ok_0;
            let booking = rules::booking_actions(state, user, amount, new_amount);
            assert(actions.last() == booking.last());
        },
        Operation::MigrateStorageBatch { now, caller, size } => {
            lemma_upgrade_only_writes(
                state,
                state.position(),
                rules::batch_cursor(state, size),
                now,
            );
        },
        _ => {},
    }
}

/// The index only grows at its end: whatever is invoked, a user keeps their position, and
/// the users listed before are the first of those listed after.
pub proof fn law_index_is_append_only(state: State, operations: Seq<Operation>)
    requires
        fresh_or_consistent(state),
    ensures
        ({
            let after = run(state, operations);
            &&& state.count() <= after.count()
            &&& forall|i: u32|
                i < state.count() ==> #[trigger] after.index.contains_key(i) && after.index[i]
                    == state.index[i]
            &&& rules::listed(after, 0, state.count()) == rules::listed(state, 0, state.count())
        }),
    decreases operations.len(),
{
    let after = run(state, operations);
    law_history_is_consistent(state, operations);
    if operations.len() > 0 {
        let before = run(state, operations.drop_last());
        law_index_is_append_only(state, operations.drop_last());
        law_history_is_consistent(state, operations.drop_last());
        assert forall|i: u32| i < state.count() implies #[trigger] after.index.contains_key(i)
            && after.index[i] == state.index[i] by {
            assert(before.index.contains_key(i));
        }
    }
    if state.count() > 0 {
        laws::lemma_listed(state, 0, state.count());
        laws::lemma_listed(after, 0, state.count());
        assert forall|i: int| 0 <= i < state.count() implies #[trigger] rules::listed(
            after,
            0,
            state.count(),
        )[i] == rules::listed(state, 0, state.count())[i] by {
            assert(after.index.contains_key(i as u32));
        }
    }
    assert(rules::listed(after, 0, state.count()) =~= rules::listed(state, 0, state.count()));
}

/// The status is "not started" exactly as long as the storage is as initialization left
/// it.
pub proof fn law_not_started_means_untouched(operations: Seq<Operation>)
    ensures
        ({
            let after = run(State::empty(), operations);
            after.status == Some(MigrationStatus::NotStarted) <==> {
                &&& after.config is Some
                &&& after == rules::initialized(State::empty(), after.config->Some_0)
            }
        }),
    decreases operations.len(),
{
    if operations.len() > 0 {
        law_not_started_means_untouched(operations.drop_last());
        law_history_is_consistent(State::empty(), operations.drop_last());
    }
}

/// Whether the invocation at `k` is an accepted migration by `user`.
pub open spec fn migrates(operations: Seq<Operation>, k: int, user: Address) -> bool {
    &&& 0 <= k < operations.len()
    &&& operations[k] is Migrate
    &&& operations[k]->Migrate_user == user
    &&& operations[k].accepted(run(State::empty(), operations.take(k)))
}

/// Whether the invocation at `k` is an accepted batch that moves the cursor over position
/// `i`, where `user` has joined by then.
pub open spec fn passes(operations: Seq<Operation>, k: int, i: u32, user: Address) -> bool {
    let before = run(State::empty(), operations.take(k));
    let after = run(State::empty(), operations.take(k + 1));
    &&& 0 <= k < operations.len()
    &&& operations[k] is MigrateStorageBatch
    &&& operations[k].accepted(before)
    &&& before.position() <= i < after.position()
    &&& before.index.contains_key(i)
    &&& before.index[i] == user
}

/// Whether `user` has migrated again after the invocation at `k`.
pub open spec fn migrates_after(operations: Seq<Operation>, k: int, user: Address) -> bool {
    exists|m: int| k < m && #[trigger] migrates(operations, m, user)
}

/// Whether the batch at `k` has passed the user at position `i`, whose record bears the time
/// of the batch in the second schema, or is in the first because they have migrated since.
/// Either way it tells what the user has migrated.
pub open spec fn passed_for_good(operations: Seq<Operation>, k: int, i: u32) -> bool {
    let after = run(State::empty(), operations);
    let user = after.index[i];
    let amount = after.migrated[user];
    &&& passes(operations, k, i, user)
    &&& after.records[user] == if migrates_after(operations, k, user) {
        VersionedUserRecord::V1(UserRecordV1 { amount })
    } else {
        VersionedUserRecord::V2(
            UserRecordV2 { amount, migrated_at: operations[k]->MigrateStorageBatch_now },
        )
    }
}

/// What an invocation did is not changed by the one that comes last.
proof fn lemma_earlier_invocation(operations: Seq<Operation>, k: int, i: u32, user: Address)
    requires
        k < operations.len() - 1,
    ensures
        migrates(operations, k, user) == migrates(operations.drop_last(), k, user),
        passes(operations, k, i, user) == passes(operations.drop_last(), k, i, user),
{
    if 0 <= k {
        assert(operations.drop_last().take(k) =~= operations.take(k));
        assert(operations.drop_last().take(k + 1) =~= operations.take(k + 1));
    }
}

/// No user is left out: everyone behind the cursor was passed, after they joined, by an
/// accepted batch. Their record is in the second schema and bears the time of that batch,
/// unless they have migrated again since.
pub proof fn law_nobody_is_left_out(operations: Seq<Operation>, i: u32)
    requires
        i < run(State::empty(), operations).position(),
    ensures
        exists|k: int| #[trigger] passed_for_good(operations, k, i),
    decreases operations.len(),
{
    let n = operations.len() - 1;
    let earlier = operations.drop_last();
    let operation = operations.last();
    let before = run(State::empty(), earlier);
    let after = run(State::empty(), operations);
    let user = after.index[i];
    law_history_is_consistent(State::empty(), operations);
    law_history_is_consistent(State::empty(), earlier);
    assert(operations.take(n) =~= earlier);
    assert(operations.take(n + 1) =~= operations);
    assert(laws::consistent(before));
    assert(before.index.contains_key(i));
    assert(before.index[i] == user);
    assert(before.records.contains_key(user));
    if let Operation::MigrateStorageBatch { now, caller, size } = operation {
        if operation.accepted(before) {
            laws::law_batch_upgrades_what_it_passes(before, now, caller, size, i);
        }
    }
    if i < before.position() {
        law_nobody_is_left_out(earlier, i);
        let k = choose|k: int| #[trigger] passed_for_good(earlier, k, i);
        lemma_earlier_invocation(operations, k, i, user);
        if migrates_after(earlier, k, user) {
            let m = choose|m: int| k < m && #[trigger] migrates(earlier, m, user);
            lemma_earlier_invocation(operations, m, i, user);
            assert(migrates(operations, m, user));
        }
        if migrates_after(operations, k, user) {
            let m = choose|m: int| k < m && #[trigger] migrates(operations, m, user);
            if m < n {
                lemma_earlier_invocation(operations, m, i, user);
                assert(migrates(earlier, m, user));
            }
        }
        assert(migrates(operations, n, user) ==> migrates_after(operations, k, user));
        assert(passed_for_good(operations, k, i));
    } else {
        assert(passed_for_good(operations, n, i));
    }
}

/// As long as no user migrates again after a batch has passed them, every record behind the
/// cursor is in the second schema; and once the storage migration is completed, every
/// record there is.
pub proof fn law_completion_upgrades_everyone(operations: Seq<Operation>)
    requires
        forall|k: int, m: int, i: u32, user: Address|
            k < m && #[trigger] passes(operations, k, i, user) ==> !#[trigger] migrates(
                operations,
                m,
                user,
            ),
    ensures
        ({
            let after = run(State::empty(), operations);
            &&& forall|i: u32|
                i < after.position() ==> after.records[#[trigger] after.index[i]] is V2
            &&& after.status == Some(MigrationStatus::Completed) ==> forall|user: Address|
                #[trigger] after.records.contains_key(user) ==> after.records[user] is V2
        }),
{
    let after = run(State::empty(), operations);
    law_history_is_consistent(State::empty(), operations);
    assert forall|i: u32| i < after.position() implies after.records[#[trigger] after.index[i]] is V2 by {
        law_nobody_is_left_out(operations, i);
    }
    if after.status == Some(MigrationStatus::Completed) {
        assert forall|user: Address| #[trigger]
            after.records.contains_key(user) implies after.records[user] is V2 by {
            let i = choose|i: u32|
                0 <= i < after.count() && #[trigger] after.index.contains_key(i) && after.index[i]
                    == user;
            assert(after.records[after.index[i]] is V2);
        }
    }
}

/// What `user` has migrated in the accepted ones of the invocations, added up.
pub open spec fn migrated_over(operations: Seq<Operation>, user: Address) -> int
    decreases operations.len(),
{
    if operations.len() == 0 {
        0
    } else {
        migrated_over(operations.drop_last(), user) + if migrates(
            operations,
            operations.len() - 1,
            user,
        ) {
            operations.last()->Migrate_amount as int
        } else {
            0
        }
    }
}

/// Over any history, what is booked for a user is what their accepted migrations add up to.
/// They are listed, and have a record that tells this amount, if and only if there was one.
pub proof fn law_users_have_what_they_migrated(operations: Seq<Operation>, user: Address)
    ensures
        ({
            let after = run(State::empty(), operations);
            let sum = migrated_over(operations, user);
            &&& after.migrated_by(user) == sum
            &&& after.records.contains_key(user) <==> sum > 0
            &&& after.records.contains_key(user) ==> after.records[user].amount() == sum
            &&& rules::listed(after, 0, after.count()).contains(user) <==> sum > 0
        }),
    decreases operations.len(),
{
    let after = run(State::empty(), operations);
    law_history_is_consistent(State::empty(), operations);
    if operations.len() > 0 {
        let n = operations.len() - 1;
        law_users_have_what_they_migrated(operations.drop_last(), user);
        assert(operations.take(n) =~= operations.drop_last());
    }
    if laws::consistent(after) {
        laws::law_pages_list_everyone(after, user);
        assert(after.records.contains_key(user) <==> after.migrated.contains_key(user));
    }
}

/// Whether the actions before `i` are its user's authorisation and, right before it, the
/// taking in of that user's old tokens, whose multiple the action at `i` mints in new ones.
pub open spec fn is_paid_for(config: MigrationConfig, actions: Seq<HostAction>, i: int) -> bool {
    &&& 2 <= i < actions.len()
    &&& actions[i] is Mint
    &&& actions[i]->Mint_token == config.new_token
    &&& actions[i - 1] is TransferFrom
    &&& actions[i - 1]->TransferFrom_token == config.old_token
    &&& actions[i - 1]->from == actions[i]->Mint_to
    &&& actions[i]->Mint_amount == actions[i - 1]->TransferFrom_amount * config.ratio_new_per_old
    &&& actions[i - 1]->TransferFrom_amount > 0
    &&& actions[i - 2] == HostAction::RequireAuth(actions[i]->Mint_to)
}

/// New tokens are minted for old ones alone, and old ones taken in for new ones alone: over
/// any history, every mint follows directly on the taking in of its price from the same user,
/// whom the invocation has asked for authorisation, and every taking in is followed by its
/// mint.
pub proof fn law_every_mint_is_paid_for(state: State, operations: Seq<Operation>)
    ensures
        ({
            let actions = run_actions(state, operations);
            let config = run(state, operations).config;
            forall|i: int| #![trigger actions[i]]
                0 <= i < actions.len() ==> {
                    &&& actions[i] is Mint ==> config is Some && is_paid_for(
                        config->Some_0,
                        actions,
                        i,
                    )
                    &&& actions[i] is TransferFrom ==> config is Some && is_paid_for(
                        config->Some_0,
                        actions,
                        i + 1,
                    )
                }
        }),
    decreases operations.len(),
{
    if operations.len() > 0 {
        let earlier = operations.drop_last();
        let before = run(state, earlier);
        let operation = operations.last();
        let past = run_actions(state, earlier);
        let kept = operation.kept_actions(before);
        let actions = run_actions(state, operations);
        let config = run(state, operations).config;
        let n = past.len() as int;
        law_every_mint_is_paid_for(state, earlier);
        if let Operation::MigrateStorageBatch { now, caller, size } = operation {
            lemma_upgrade_only_writes(
                before,
                before.position(),
                rules::batch_cursor(before, size),
                now,
            );
        }
        if let Operation::Migrate { now, user, amount } = operation {
            if operation.accepted(before) {
                let multiple = amount * before.config->Some_0.ratio_new_per_old;
                laws::law_swap_is_at_the_ratio(before, now, user, amount, multiple as i128);
                assert(actions[n] == kept[0]);
                assert(actions[n + 1] == kept[1]);
                assert(actions[n + 2] == kept[2]);
            }
        }
        assert forall|i: int| #![trigger actions[i]] 0 <= i < actions.len() implies {
            &&& actions[i] is Mint ==> config is Some && is_paid_for(config->Some_0, actions, i)
            &&& actions[i] is TransferFrom ==> config is Some && is_paid_for(
                config->Some_0,
                actions,
                i + 1,
            )
        } by {
            if i < n {
                assert(actions[i] == past[i]);
                if past[i] is Mint {
                    assert(actions[i - 1] == past[i - 1] && actions[i - 2] == past[i - 2]);
                }
                if past[i] is TransferFrom {
                    assert(is_paid_for(before.config->Some_0, past, i + 1));
                    assert(actions[i + 1] == past[i + 1] && actions[i - 1] == past[i - 1]);
                }
            } else {
                assert(actions[i] == kept[i - n]);
            }
        }
    }
}

} // verus!
