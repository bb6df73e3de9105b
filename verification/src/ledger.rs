//! The contract's storage as one invocation sees it, and what the invocation asks of
//! the host.
use crate::table::Table;
use crate::types::{Address, DataKey, MigrationConfig, MigrationStatus, VersionedUserRecord};
use vstd::prelude::*;

verus! {

/// An entry of the contract's storage: a key with the value under it.
#[derive(Clone, Copy, Debug, PartialEq, Eq, Structural)]
pub enum Entry {
    Config(MigrationConfig),
    UserMigrated(Address, i128),
    TotalMigrated(i128),
    UserRecord(Address, VersionedUserRecord),
    UserIndex(u32, Address),
    UserCount(u32),
    MigrationCursor(u32),
    MigrationStatus(MigrationStatus),
}

impl Entry {
    /// The key that the entry is stored under.
    pub open spec fn data_key(self) -> DataKey {
        match self {
            Entry::Config(_) => DataKey::Config,
            Entry::UserMigrated(user, _) => DataKey::UserMigrated(user),
            Entry::TotalMigrated(_) => DataKey::TotalMigrated,
            Entry::UserRecord(user, _) => DataKey::UserRecord(user),
            Entry::UserIndex(position, _) => DataKey::UserIndex(position),
            Entry::UserCount(_) => DataKey::UserCount,
            Entry::MigrationCursor(_) => DataKey::MigrationCursor,
            Entry::MigrationStatus(_) => DataKey::MigrationStatus,
        }
    }

    /// The key that the entry is stored under.
    pub fn key(&self) -> (key: DataKey)
        ensures
            key == self.data_key(),
    {
        match *self {
            Entry::Config(_) => DataKey::Config,
            Entry::UserMigrated(user, _) => DataKey::UserMigrated(user),
            Entry::TotalMigrated(_) => DataKey::TotalMigrated,
            Entry::UserRecord(user, _) => DataKey::UserRecord(user),
            Entry::UserIndex(position, _) => DataKey::UserIndex(position),
            Entry::UserCount(_) => DataKey::UserCount,
            Entry::MigrationCursor(_) => DataKey::MigrationCursor,
            Entry::MigrationStatus(_) => DataKey::MigrationStatus,
        }
    }
}

/// A step that the host carries out for the contract. "The contract" is the one that
/// is being invoked.
#[derive(Clone, Copy, Debug, PartialEq, Eq, Structural)]
pub enum HostAction {
    /// The address must have authorised the invocation.
    RequireAuth(Address),
    /// `token` moves `amount` from `from` to the contract, out of the allowance that
    /// the contract has on `from`.
    TransferFrom { token: Address, from: Address, amount: i128 },
    /// `token` mints `amount` to `to`.
    Mint { token: Address, to: Address, amount: i128 },
    /// `token` moves `amount` from the contract to `to`.
    Transfer { token: Address, to: Address, amount: i128 },
    /// The entry is stored.
    Store(Entry),
    /// The time to live of the entry under `key` is raised to `extend_to` ledgers if
    /// it is below `threshold`.
    ExtendTtl { key: DataKey, threshold: u32, extend_to: u32 },
    /// The same for the contract's instance.
    ExtendInstanceTtl { threshold: u32, extend_to: u32 },
    /// The event of a migration.
    PublishMigrated { user: Address, amount: i128, new_amount: i128 },
    /// The event of a batch of upgraded records.
    PublishStorageMigrated { cursor: u32 },
}

impl HostAction {
    /// The text of an event's first topic, by which listeners find the event.
    pub open spec fn topic_text(self) -> Option<Seq<char>> {
        match self {
            HostAction::PublishMigrated { .. } => Some("migrated"@),
            HostAction::PublishStorageMigrated { .. } => Some("storage_migrated"@),
            _ => None,
        }
    }

    /// The text of an event's first topic, by which listeners find the event. An action
    /// that is not an event has none.
    pub fn topic(&self) -> (topic: Option<&'static str>)
        ensures
            match topic {
                Some(text) => self.topic_text() == Some(text@),
                None => self.topic_text() is None,
            },
    {
        match self {
            HostAction::PublishMigrated { .. } => Some("migrated"),
            HostAction::PublishStorageMigrated { .. } => Some("storage_migrated"),
            _ => None,
        }
    }
}

/// The contents of the contract's storage.
#[verifier::ext_equal]
pub struct State {
    pub config: Option<MigrationConfig>,
    pub total_migrated: Option<i128>,
    pub user_count: Option<u32>,
    pub cursor: Option<u32>,
    pub status: Option<MigrationStatus>,
    pub migrated: Map<Address, i128>,
    pub records: Map<Address, VersionedUserRecord>,
    pub index: Map<u32, Address>,
}

impl State {
    /// The storage of a contract that nothing was written to.
    pub open spec fn empty() -> State {
        State {
            config: None,
            total_migrated: None,
            user_count: None,
            cursor: None,
            status: None,
            migrated: Map::empty(),
            records: Map::empty(),
            index: Map::empty(),
        }
    }

    /// The storage after `entry` is stored.
    pub open spec fn with(self, entry: Entry) -> State {
        match entry {
            Entry::Config(config) => State { config: Some(config), ..self },
            Entry::UserMigrated(user, amount) => State {
                migrated: self.migrated.insert(user, amount),
                ..self
            },
            Entry::TotalMigrated(amount) => State { total_migrated: Some(amount), ..self },
            Entry::UserRecord(user, record) => State {
                records: self.records.insert(user, record),
                ..self
            },
            Entry::UserIndex(position, user) => State {
                index: self.index.insert(position, user),
                ..self
            },
            Entry::UserCount(count) => State { user_count: Some(count), ..self },
            Entry::MigrationCursor(cursor) => State { cursor: Some(cursor), ..self },
            Entry::MigrationStatus(status) => State { status: Some(status), ..self },
        }
    }

    /// The entry under `key`, if there is one.
    pub open spec fn at(self, key: DataKey) -> Option<Entry> {
        match key {
            DataKey::Config => match self.config {
                Some(config) => Some(Entry::Config(config)),
                None => None,
            },
            DataKey::UserMigrated(user) => if self.migrated.contains_key(user) {
                Some(Entry::UserMigrated(user, self.migrated[user]))
            } else {
                None
            },
            DataKey::TotalMigrated => match self.total_migrated {
                Some(amount) => Some(Entry::TotalMigrated(amount)),
                None => None,
            },
            DataKey::UserRecord(user) => if self.records.contains_key(user) {
                Some(Entry::UserRecord(user, self.records[user]))
            } else {
                None
            },
            DataKey::UserIndex(position) => if self.index.contains_key(position) {
                Some(Entry::UserIndex(position, self.index[position]))
            } else {
                None
            },
            DataKey::UserCount => match self.user_count {
                Some(count) => Some(Entry::UserCount(count)),
                None => None,
            },
            DataKey::MigrationCursor => match self.cursor {
                Some(cursor) => Some(Entry::MigrationCursor(cursor)),
                None => None,
            },
            DataKey::MigrationStatus => match self.status {
                Some(status) => Some(Entry::MigrationStatus(status)),
                None => None,
            },
        }
    }

    /// The storage after the host carried out `action`. Only a write changes it.
    pub open spec fn after(self, action: HostAction) -> State {
        match action {
            HostAction::Store(entry) => self.with(entry),
            _ => self,
        }
    }

    /// The storage after the host carried out `actions`, in order.
    pub open spec fn after_all(self, actions: Seq<HostAction>) -> State
        decreases actions.len(),
    {
        if actions.len() == 0 {
            self
        } else {
            self.after_all(actions.drop_last()).after(actions.last())
        }
    }

    /// The number of indexed users; none where nothing is stored.
    pub open spec fn count(self) -> u32 {
        match self.user_count {
            Some(count) => count,
            None => 0,
        }
    }

    /// The position of the storage migration; the start where nothing is stored.
    pub open spec fn position(self) -> u32 {
        match self.cursor {
            Some(cursor) => cursor,
            None => 0,
        }
    }

    /// What `user` has migrated; nothing where nothing is stored.
    pub open spec fn migrated_by(self, user: Address) -> i128 {
        if self.migrated.contains_key(user) {
            self.migrated[user]
        } else {
            0
        }
    }
}

/// Writing an entry changes what is under its key and under no other.
pub proof fn law_write_is_read_back(state: State, entry: Entry, key: DataKey)
    ensures
        state.with(entry).at(key) == (if key == entry.data_key() {
            Some(entry)
        } else {
            state.at(key)
        }),
{
}

/// Every entry has its own place in the storage: a write sets it to the value written, and
/// leaves the other places as they were.
pub proof fn law_write_sets_one_value(state: State, entry: Entry)
    ensures
        ({
            let after = state.with(entry);
            &&& after.config == match entry {
                Entry::Config(config) => Some(config),
                _ => state.config,
            }
            &&& after.total_migrated == match entry {
                Entry::TotalMigrated(total) => Some(total),
                _ => state.total_migrated,
            }
            &&& after.user_count == match entry {
                Entry::UserCount(count) => Some(count),
                _ => state.user_count,
            }
            &&& after.cursor == match entry {
                Entry::MigrationCursor(cursor) => Some(cursor),
                _ => state.cursor,
            }
            &&& after.status == match entry {
                Entry::MigrationStatus(status) => Some(status),
                _ => state.status,
            }
            &&& after.migrated == match entry {
                Entry::UserMigrated(user, amount) => state.migrated.insert(user, amount),
                _ => state.migrated,
            }
            &&& after.records == match entry {
                Entry::UserRecord(user, record) => state.records.insert(user, record),
                _ => state.records,
            }
            &&& after.index == match entry {
                Entry::UserIndex(position, user) => state.index.insert(position, user),
                _ => state.index,
            }
        }),
{
}

/// A step that the host carries out changes the storage if and only if it is a write, and
/// carrying out no steps changes nothing.
pub proof fn law_only_writes_change_the_storage(state: State, action: HostAction)
    ensures
        match action {
            HostAction::Store(entry) => state.after(action) == state.with(entry),
            _ => state.after(action) == state,
        },
        state.after_all(seq![]) == state,
        state.after_all(seq![action]) == state.after(action),
{
    assert(seq![action].drop_last() =~= seq![]);
    reveal_with_fuel(State::after_all, 2);
}

/// What is found under a key is what is stored there, and nothing where nothing is.
pub proof fn law_keys_lead_to_their_values(state: State, user: Address, position: u32)
    ensures
        match state.at(DataKey::Config) {
            Some(entry) => state.config is Some && entry == Entry::Config(state.config->Some_0),
            None => state.config is None,
        },
        match state.at(DataKey::TotalMigrated) {
            Some(entry) => state.total_migrated is Some && entry == Entry::TotalMigrated(
                state.total_migrated->Some_0,
            ),
            None => state.total_migrated is None,
        },
        match state.at(DataKey::UserCount) {
            Some(entry) => state.user_count is Some && entry == Entry::UserCount(
                state.user_count->Some_0,
            ),
            None => state.user_count is None,
        },
        match state.at(DataKey::MigrationCursor) {
            Some(entry) => state.cursor is Some && entry == Entry::MigrationCursor(
                state.cursor->Some_0,
            ),
            None => state.cursor is None,
        },
        match state.at(DataKey::MigrationStatus) {
            Some(entry) => state.status is Some && entry == Entry::MigrationStatus(
                state.status->Some_0,
            ),
            None => state.status is None,
        },
        match state.at(DataKey::UserMigrated(user)) {
            Some(entry) => state.migrated.contains_key(user) && entry == Entry::UserMigrated(
                user,
                state.migrated[user],
            ),
            None => !state.migrated.contains_key(user),
        },
        match state.at(DataKey::UserRecord(user)) {
            Some(entry) => state.records.contains_key(user) && entry == Entry::UserRecord(
                user,
                state.records[user],
            ),
            None => !state.records.contains_key(user),
        },
        match state.at(DataKey::UserIndex(position)) {
            Some(entry) => state.index.contains_key(position) && entry == Entry::UserIndex(
                position,
                state.index[position],
            ),
            None => !state.index.contains_key(position),
        },
{
}

/// An entry is stored under the key that names what it holds, and of whom.
pub proof fn law_entries_bear_their_keys(
    config: MigrationConfig,
    user: Address,
    amount: i128,
    record: VersionedUserRecord,
    number: u32,
    status: MigrationStatus,
)
    ensures
        Entry::Config(config).data_key() == DataKey::Config,
        Entry::UserMigrated(user, amount).data_key() == DataKey::UserMigrated(user),
        Entry::TotalMigrated(amount).data_key() == DataKey::TotalMigrated,
        Entry::UserRecord(user, record).data_key() == DataKey::UserRecord(user),
        Entry::UserIndex(number, user).data_key() == DataKey::UserIndex(number),
        Entry::UserCount(number).data_key() == DataKey::UserCount,
        Entry::MigrationCursor(number).data_key() == DataKey::MigrationCursor,
        Entry::MigrationStatus(status).data_key() == DataKey::MigrationStatus,
{
}

/// The number of users, the position of the storage migration and what a user has migrated
/// are read as they are stored; where nothing is stored they are zero.
pub proof fn law_numbers_are_read_as_stored(state: State, user: Address)
    ensures
        state.user_count is Some ==> state.count() == state.user_count->Some_0,
        state.user_count is None ==> state.count() == 0,
        state.cursor is Some ==> state.position() == state.cursor->Some_0,
        state.cursor is None ==> state.position() == 0,
        state.migrated.contains_key(user) ==> state.migrated_by(user) == state.migrated[user],
        !state.migrated.contains_key(user) ==> state.migrated_by(user) == 0,
{
}

/// Every event has its topic, whatever it tells, and nothing else has one.
pub proof fn law_topics_name_events(action: HostAction)
    ensures
        action is PublishMigrated <==> action.topic_text() == Some("migrated"@),
        action is PublishStorageMigrated <==> action.topic_text() == Some("storage_migrated"@),
        action.topic_text() is Some ==> action is PublishMigrated
            || action is PublishStorageMigrated,
{
    reveal_strlit("migrated");
    reveal_strlit("storage_migrated");
    assert("migrated"@.len() != "storage_migrated"@.len());
}

/// Carrying out two lists of actions one after the other is carrying out their
/// concatenation.
pub proof fn law_after_all_concatenation(
    state: State,
    first: Seq<HostAction>,
    second: Seq<HostAction>,
)
    ensures
        state.after_all(first + second) == state.after_all(first).after_all(second),
    decreases second.len(),
{
    if second.len() == 0 {
        assert(first + second =~= first);
    } else {
        law_after_all_concatenation(state, first, second.drop_last());
        assert((first + second).drop_last() =~= first + second.drop_last());
    }
}

/// The contract's storage as one invocation works on it, with the list of the actions
/// that the host is to carry out, oldest first.
pub struct Ledger {
    config: Option<MigrationConfig>,
    total_migrated: Option<i128>,
    user_count: Option<u32>,
    cursor: Option<u32>,
    status: Option<MigrationStatus>,
    migrated: Table<Address, i128>,
    records: Table<Address, VersionedUserRecord>,
    index: Table<u32, Address>,
    actions: Vec<HostAction>,
}

impl View for Ledger {
    type V = State;

    closed spec fn view(&self) -> State {
        State {
            config: self.config,
            total_migrated: self.total_migrated,
            user_count: self.user_count,
            cursor: self.cursor,
            status: self.status,
            migrated: self.migrated@,
            records: self.records@,
            index: self.index@,
        }
    }
}

impl Ledger {
    /// The actions asked of the host so far, oldest first.
    pub closed spec fn log(&self) -> Seq<HostAction> {
        self.actions@
    }

    /// A ledger without entries or actions.
    pub fn new() -> (ledger: Self)
        ensures
            ledger@ == State::empty(),
            ledger.log() == Seq::<HostAction>::empty(),
    {
        Ledger {
            config: None,
            total_migrated: None,
            user_count: None,
            cursor: None,
            status: None,
            migrated: Table::new(),
            records: Table::new(),
            index: Table::new(),
            actions: Vec::new(),
        }
    }

    /// Takes in an entry that the host has stored. This asks nothing of the host.
    pub fn load(&mut self, entry: Entry)
        ensures
            final(self)@ == old(self)@.with(entry),
            final(self).log() == old(self).log(),
    {
        match entry {
            Entry::Config(config) => {
                self.config = Some(config);
            },
            Entry::UserMigrated(user, amount) => {
                self.migrated.set(user, amount);
            },
            Entry::TotalMigrated(amount) => {
                self.total_migrated = Some(amount);
            },
            Entry::UserRecord(user, record) => {
                self.records.set(user, record);
            },
            Entry::UserIndex(position, user) => {
                self.index.set(position, user);
            },
            Entry::UserCount(count) => {
                self.user_count = Some(count);
            },
            Entry::MigrationCursor(cursor) => {
                self.cursor = Some(cursor);
            },
            Entry::MigrationStatus(status) => {
                self.status = Some(status);
            },
        }
    }

    /// Asks the host for `action`, and does to the working copy what it does to the
    /// storage.
    pub fn perform(&mut self, action: HostAction)
        ensures
            final(self)@ == old(self)@.after(action),
            final(self).log() == old(self).log().push(action),
    {
        if let HostAction::Store(entry) = action {
            self.load(entry);
        }
        self.actions.push(action);
    }

    /// The actions asked of the host so far, oldest first.
    pub fn actions(&self) -> (actions: &Vec<HostAction>)
        ensures
            actions@ == self.log(),
    {
        &self.actions
    }

    /// The configuration, once there is one.
    pub fn config(&self) -> (config: Option<MigrationConfig>)
        ensures
            config == self@.config,
    {
        self.config
    }

    /// The running total, once there is one.
    pub fn total_migrated(&self) -> (total: Option<i128>)
        ensures
            total == self@.total_migrated,
    {
        self.total_migrated
    }

    /// The number of indexed users; none where nothing is stored.
    pub fn count(&self) -> (count: u32)
        ensures
            count == self@.count(),
    {
        self.user_count.unwrap_or(0)
    }

    /// The position of the storage migration; the start where nothing is stored.
    pub fn position(&self) -> (cursor: u32)
        ensures
            cursor == self@.position(),
    {
        self.cursor.unwrap_or(0)
    }

    /// The stored status, if there is one.
    pub fn status(&self) -> (status: Option<MigrationStatus>)
        ensures
            status == self@.status,
    {
        self.status
    }

    /// What `user` has migrated; nothing where nothing is stored.
    pub fn migrated_by(&self, user: &Address) -> (amount: i128)
        ensures
            amount == self@.migrated_by(*user),
    {
        self.migrated.get(user).unwrap_or(0)
    }

    /// The record of `user`, if there is one.
    pub fn record(&self, user: &Address) -> (record: Option<VersionedUserRecord>)
        ensures
            record == (if self@.records.contains_key(*user) {
                Some(self@.records[*user])
            } else {
                None
            }),
    {
        self.records.get(user)
    }

    /// The user at `position` of the index, if there is one.
    pub fn user_at(&self, position: u32) -> (user: Option<Address>)
        ensures
            user == (if self@.index.contains_key(position) {
                Some(self@.index[position])
            } else {
                None
            }),
    {
        self.index.get(&position)
    }
}

} // verus!
