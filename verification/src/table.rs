//! A small map from copyable keys to copyable values, kept in the order of its keys.
use crate::types::{Address, AddressKind};
use vstd::prelude::*;

verus! {

/// Keys that stand in an order.
pub trait Key: Copy {
    /// The place of the key in the order.
    spec fn rank(self) -> int;

    /// No two keys have the same place.
    proof fn rank_tells_apart(one: Self, two: Self)
        requires
            one.rank() == two.rank(),
        ensures
            one == two,
    ;

    /// Whether the key comes before the other.
    fn before(&self, other: &Self) -> (before: bool)
        ensures
            before == (self.rank() < other.rank()),
    ;
}

impl Key for u32 {
    open spec fn rank(self) -> int {
        self as int
    }

    proof fn rank_tells_apart(one: Self, two: Self) {
    }

    fn before(&self, other: &Self) -> (before: bool) {
        *self < *other
    }
}

impl Key for Address {
    /// Accounts before contracts, and each kind by its bits.
    open spec fn rank(self) -> int {
        let bits = self.hi * 0x1_0000_0000_0000_0000_0000_0000_0000_0000 + self.lo;
        match self.kind {
            AddressKind::Account => bits
                - 0x1_0000_0000_0000_0000_0000_0000_0000_0000_0000_0000_0000_0000_0000_0000_0000_0000,
            AddressKind::Contract => bits,
        }
    }

    proof fn rank_tells_apart(one: Self, two: Self) {
    }

    fn before(&self, other: &Self) -> (before: bool) {
        match (self.kind, other.kind) {
            (AddressKind::Account, AddressKind::Contract) => true,
            (AddressKind::Contract, AddressKind::Account) => false,
            _ => self.hi < other.hi || (self.hi == other.hi && self.lo < other.lo),
        }
    }
}

/// What the first slot for `key` holds.
pub open spec fn lookup<K, V>(slots: Seq<(K, V)>, key: K) -> Option<V>
    decreases slots.len(),
{
    if slots.len() == 0 {
        None
    } else if slots[0].0 == key {
        Some(slots[0].1)
    } else {
        lookup(slots.drop_first(), key)
    }
}

/// The slots stand in the order of their keys, and no key has two.
pub open spec fn in_order<K: Key, V>(slots: Seq<(K, V)>) -> bool {
    forall|i: int, j: int|
        0 <= i < j < slots.len() ==> (#[trigger] slots[i]).0.rank() < (#[trigger] slots[j]).0.rank()
}

/// The first slot for `key` is the first one that bears it.
proof fn lemma_lookup_first<K, V>(slots: Seq<(K, V)>, key: K, at: int)
    requires
        0 <= at < slots.len(),
        slots[at].0 == key,
        forall|j: int| 0 <= j < at ==> slots[j].0 != key,
    ensures
        lookup(slots, key) == Some(slots[at].1),
    decreases slots.len(),
{
    if at > 0 {
        lemma_lookup_first(slots.drop_first(), key, at - 1);
    }
}

/// A key that no slot bears is not found.
proof fn lemma_lookup_none<K, V>(slots: Seq<(K, V)>, key: K)
    requires
        forall|j: int| 0 <= j < slots.len() ==> slots[j].0 != key,
    ensures
        lookup(slots, key) is None,
    decreases slots.len(),
{
    if slots.len() > 0 {
        lemma_lookup_none(slots.drop_first(), key);
    }
}

/// Overwriting the first slot for a key changes that key alone.
proof fn lemma_lookup_update<K, V>(slots: Seq<(K, V)>, key: K, value: V, at: int, other: K)
    requires
        0 <= at < slots.len(),
        slots[at].0 == key,
        forall|j: int| 0 <= j < at ==> slots[j].0 != key,
    ensures
        lookup(slots.update(at, (key, value)), other) == (if other == key {
            Some(value)
        } else {
            lookup(slots, other)
        }),
    decreases slots.len(),
{
    let after = slots.update(at, (key, value));
    if at > 0 {
        lemma_lookup_update(slots.drop_first(), key, value, at - 1, other);
        assert(after.drop_first() =~= slots.drop_first().update(at - 1, (key, value)));
    } else {
        assert(after.drop_first() =~= slots.drop_first());
    }
}

/// Inserting a slot for a key that none bears yet changes that key alone.
proof fn lemma_lookup_insert<K, V>(slots: Seq<(K, V)>, key: K, value: V, at: int, other: K)
    requires
        0 <= at <= slots.len(),
        forall|j: int| 0 <= j < slots.len() ==> slots[j].0 != key,
    ensures
        lookup(slots.insert(at, (key, value)), other) == (if other == key {
            Some(value)
        } else {
            lookup(slots, other)
        }),
    decreases slots.len(),
{
    let after = slots.insert(at, (key, value));
    if at > 0 {
        lemma_lookup_insert(slots.drop_first(), key, value, at - 1, other);
        assert(after.drop_first() =~= slots.drop_first().insert(at - 1, (key, value)));
    } else {
        assert(after.drop_first() =~= slots);
    }
}

/// A map held as a list of slots in the order of their keys.
pub struct Table<K: Key, V> {
    slots: Vec<(K, V)>,
}

impl<K: Key, V> View for Table<K, V> {
    type V = Map<K, V>;

    closed spec fn view(&self) -> Map<K, V> {
        Map::new(
            |key: K| lookup(self.slots@, key) is Some,
            |key: K| lookup(self.slots@, key)->Some_0,
        )
    }
}

/// Where the first slot that does not come before `key` is, or the number of slots where
/// there is none. The number of slots looked at grows with the logarithm of theirs.
fn position<K: Key, V>(slots: &Vec<(K, V)>, key: &K) -> (at: usize)
    requires
        in_order(slots@),
    ensures
        at <= slots@.len(),
        forall|j: int| 0 <= j < at ==> (#[trigger] slots@[j]).0.rank() < key.rank(),
        forall|j: int| at <= j < slots@.len() ==> key.rank() <= (#[trigger] slots@[j]).0.rank(),
{
    let mut low: usize = 0;
    let mut high: usize = slots.len();
    while low < high
        invariant
            low <= high <= slots@.len(),
            in_order(slots@),
            forall|j: int| 0 <= j < low ==> (#[trigger] slots@[j]).0.rank() < key.rank(),
            forall|j: int|
                high <= j < slots@.len() ==> key.rank() <= (#[trigger] slots@[j]).0.rank(),
        decreases high - low,
    {
        let middle: usize = low + (high - low) / 2;
        if slots[middle].0.before(key) {
            low = middle + 1;
        } else {
            high = middle;
        }
    }
    low
}

/// Whether the slot at `at`, where `key` belongs, is its own.
fn holds<K: Key, V>(slots: &Vec<(K, V)>, key: &K, at: usize) -> (yes: bool)
    requires
        in_order(slots@),
        at <= slots@.len(),
        forall|j: int| 0 <= j < at ==> (#[trigger] slots@[j]).0.rank() < key.rank(),
        forall|j: int| at <= j < slots@.len() ==> key.rank() <= (#[trigger] slots@[j]).0.rank(),
    ensures
        yes ==> at < slots@.len() && slots@[at as int].0 == *key,
        yes ==> forall|j: int| 0 <= j < at ==> (#[trigger] slots@[j]).0 != *key,
        !yes ==> forall|j: int| 0 <= j < slots@.len() ==> (#[trigger] slots@[j]).0 != *key,
        !yes ==> forall|j: int|
            at <= j < slots@.len() ==> key.rank() < (#[trigger] slots@[j]).0.rank(),
{
    if at < slots.len() && !key.before(&slots[at].0) {
        proof {
            K::rank_tells_apart(slots@[at as int].0, *key);
        }
        true
    } else {
        proof {
            assert forall|j: int| at <= j < slots@.len() implies key.rank() < (
            #[trigger] slots@[j]).0.rank() by {
                if j > at {
                    assert(slots@[at as int].0.rank() < slots@[j].0.rank());
                }
            }
        }
        false
    }
}

impl<K: Key, V> Table<K, V> {
    /// The slots of every table are in order.
    #[verifier::type_invariant]
    spec fn ordered(&self) -> bool {
        in_order(self.slots@)
    }
}

impl<K: Key, V: Copy> Table<K, V> {
    /// A table without entries.
    pub fn new() -> (table: Self)
        ensures
            table@ == Map::<K, V>::empty(),
    {
        let table = Table { slots: Vec::new() };
        assert(table@ =~= Map::<K, V>::empty());
        table
    }

    /// The value under `key`.
    pub fn get(&self, key: &K) -> (value: Option<V>)
        ensures
            value == (if self@.contains_key(*key) {
                Some(self@[*key])
            } else {
                None
            }),
    {
        proof {
            use_type_invariant(self);
        }
        let at = position(&self.slots, key);
        if holds(&self.slots, key, at) {
            proof {
                lemma_lookup_first(self.slots@, *key, at as int);
            }
            Some(self.slots[at].1)
        } else {
            proof {
                lemma_lookup_none(self.slots@, *key);
            }
            None
        }
    }

    /// Puts `value` under `key`, in place of what was there.
    pub fn set(&mut self, key: K, value: V)
        ensures
            final(self)@ == old(self)@.insert(key, value),
    {
        proof {
            use_type_invariant(&*self);
        }
        let mut slots: Vec<(K, V)> = Vec::new();
        std::mem::swap(&mut slots, &mut self.slots);
        let ghost before = slots@;
        let at = position(&slots, &key);
        if holds(&slots, &key, at) {
            slots.set(at, (key, value));
            proof {
                assert forall|other: K| #[trigger]
                    lookup(slots@, other) == (if other == key {
                        Some(value)
                    } else {
                        lookup(before, other)
                    }) by {
                    lemma_lookup_update(before, key, value, at as int, other);
                }
            }
        } else {
            slots.insert(at, (key, value));
            proof {
                assert forall|other: K| #[trigger]
                    lookup(slots@, other) == (if other == key {
                        Some(value)
                    } else {
                        lookup(before, other)
                    }) by {
                    lemma_lookup_insert(before, key, value, at as int, other);
                }
            }
        }
        assert(in_order(slots@));
        self.slots = slots;
        assert(self@ =~= old(self)@.insert(key, value));
    }
}

} // verus!
