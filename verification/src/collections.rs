//! Ordered maps and sets with deterministic iteration in key order.

use vstd::prelude::*;

use crate::primitives::{Address, B256, U256};

verus! {

/// A copyable key with a total order given by an injective integer rank.
pub trait OrderedKey: Copy {
    /// Position of the key in the total order.
    spec fn rank(self) -> int;

    /// Keys of the same rank are the same key.
    proof fn rank_injective(a: Self, b: Self)
        requires
            a.rank() == b.rank(),
        ensures
            a == b,
    ;

    /// Whether `self` orders strictly before `other`.
    fn before(self, other: Self) -> (r: bool)
        ensures
            r == (self.rank() < other.rank()),
    ;
}

impl OrderedKey for u64 {
    open spec fn rank(self) -> int {
        self as int
    }

    proof fn rank_injective(a: Self, b: Self) {
    }

    fn before(self, other: Self) -> (r: bool) {
        self < other
    }
}

impl OrderedKey for U256 {
    open spec fn rank(self) -> int {
        self@ as int
    }

    proof fn rank_injective(a: Self, b: Self) {
        crate::primitives::lemma_u256_inverse(a);
        crate::primitives::lemma_u256_inverse(b);
    }

    fn before(self, other: Self) -> (r: bool) {
        self.lt(other)
    }
}

impl OrderedKey for B256 {
    open spec fn rank(self) -> int {
        self@ as int
    }

    proof fn rank_injective(a: Self, b: Self) {
        crate::primitives::lemma_b256_inverse(a);
        crate::primitives::lemma_b256_inverse(b);
    }

    fn before(self, other: Self) -> (r: bool) {
        self.word().lt(other.word())
    }
}

impl OrderedKey for Address {
    open spec fn rank(self) -> int {
        self@ as int
    }

    proof fn rank_injective(a: Self, b: Self) {
        crate::primitives::lemma_address_inverse(a);
        crate::primitives::lemma_address_inverse(b);
    }

    fn before(self, other: Self) -> (r: bool) {
        self.lt(other)
    }
}

/// Index of the first element from `from` on that does not order before `key`.
pub open spec fn lower_bound_from<K: OrderedKey>(keys: Seq<K>, key: K, from: int) -> int
    decreases keys.len() - from,
{
    if from >= keys.len() {
        keys.len() as int
    } else if keys[from].rank() < key.rank() {
        lower_bound_from(keys, key, from + 1)
    } else {
        from
    }
}

/// Keys in strictly increasing order.
pub open spec fn strictly_increasing<K: OrderedKey>(keys: Seq<K>) -> bool {
    forall|i: int, j: int|
        0 <= i < j < keys.len() ==> #[trigger] keys[i].rank() < #[trigger] keys[j].rank()
}

/// Whether `key` is an element of an ordered sequence of keys.
pub open spec fn has_key<K: OrderedKey>(keys: Seq<K>, key: K) -> bool {
    let at = lower_bound_from(keys, key, 0);
    at < keys.len() && keys[at].rank() == key.rank()
}

/// An ordered sequence of keys with `key` added at its place.
pub open spec fn with_key<K: OrderedKey>(keys: Seq<K>, key: K) -> Seq<K> {
    let at = lower_bound_from(keys, key, 0);
    if at < keys.len() && keys[at].rank() == key.rank() {
        keys
    } else {
        keys.insert(at, key)
    }
}

/// Bounds of the insertion point, and where it divides an increasing sequence.
pub proof fn lemma_lower_bound<K: OrderedKey>(keys: Seq<K>, key: K, from: int)
    requires
        0 <= from <= keys.len(),
    ensures
        from <= lower_bound_from(keys, key, from) <= keys.len(),
        forall|i: int|
            from <= i < lower_bound_from(keys, key, from) ==> #[trigger] keys[i].rank()
                < key.rank(),
        lower_bound_from(keys, key, from) < keys.len() ==> keys[lower_bound_from(
            keys,
            key,
            from,
        )].rank() >= key.rank(),
    decreases keys.len() - from,
{
    if from < keys.len() && keys[from].rank() < key.rank() {
        lemma_lower_bound(keys, key, from + 1);
    }
}

/// In an increasing sequence, `has_key` is membership.
pub proof fn has_key_is_membership<K: OrderedKey>(keys: Seq<K>, key: K)
    requires
        strictly_increasing(keys),
    ensures
        has_key(keys, key) == keys.contains(key),
{
    lemma_lower_bound(keys, key, 0);
    let at = lower_bound_from(keys, key, 0);
    if has_key(keys, key) {
        K::rank_injective(keys[at], key);
    }
    if keys.contains(key) {
        let i = choose|i: int| 0 <= i < keys.len() && keys[i] == key;
        assert(i >= at);
        if i > at {
            assert(keys[at].rank() < keys[i].rank());
        }
    }
}

/// Adding a key keeps the order and makes exactly that key a member.
pub proof fn with_key_is_insertion<K: OrderedKey>(keys: Seq<K>, key: K)
    requires
        strictly_increasing(keys),
    ensures
        strictly_increasing(with_key(keys, key)),
        with_key(keys, key).to_set() == keys.to_set().insert(key),
{
    lemma_lower_bound(keys, key, 0);
    has_key_is_membership(keys, key);
    let at = lower_bound_from(keys, key, 0);
    let updated = with_key(keys, key);
    if !has_key(keys, key) {
        assert forall|i: int, j: int| 0 <= i < j < updated.len() implies #[trigger] updated[i].rank()
            < #[trigger] updated[j].rank() by {
            if at < keys.len() {
                assert(keys[at].rank() > key.rank());
            }
        }
        assert forall|k: K| updated.to_set().contains(k) == keys.to_set().insert(key).contains(
            k,
        ) by {
            if keys.contains(k) {
                let i = choose|i: int| 0 <= i < keys.len() && keys[i] == k;
                if i < at {
                    assert(updated[i] == k);
                } else {
                    assert(updated[i + 1] == k);
                }
            }
            if updated.contains(k) && k != key {
                let i = choose|i: int| 0 <= i < updated.len() && updated[i] == k;
                if i < at {
                    assert(keys[i] == k);
                } else {
                    assert(keys[i - 1] == k);
                }
            }
            assert(updated[at] == key);
        }
        assert(updated.to_set() =~= keys.to_set().insert(key));
    } else {
        assert(keys.to_set() =~= keys.to_set().insert(key));
    }
}

/// Ordered set of keys.
pub struct OrderedSet<K> {
    items: Vec<K>,
}

impl<K: OrderedKey> View for OrderedSet<K> {
    type V = Seq<K>;

    closed spec fn view(&self) -> Seq<K> {
        self.items@
    }
}

impl<K: OrderedKey> Clone for OrderedSet<K> {
    fn clone(&self) -> (r: Self)
        ensures
            r@ == self@,
    {
        let mut items: Vec<K> = Vec::new();
        let mut i: usize = 0;
        while i < self.items.len()
            invariant
                i <= self.items.len(),
                items@ == self.items@.subrange(0, i as int),
            decreases self.items.len() - i,
        {
            items.push(self.items[i]);
            i = i + 1;
        }
        assert(items@ =~= self.items@);
        OrderedSet { items }
    }
}

impl<K: OrderedKey> OrderedSet<K> {
    /// Whether the elements are in strictly increasing order.
    pub open spec fn wf(&self) -> bool {
        strictly_increasing(self@)
    }

    /// The empty set.
    pub fn new() -> (r: Self)
        ensures
            r@ == Seq::<K>::empty(),
            r.wf(),
    {
        OrderedSet { items: Vec::new() }
    }

    /// Number of elements.
    pub fn len(&self) -> (r: usize)
        ensures
            r == self@.len(),
    {
        self.items.len()
    }

    /// The element at `index` in key order.
    pub fn at(&self, index: usize) -> (r: K)
        requires
            index < self@.len(),
        ensures
            r == self@[index as int],
    {
        self.items[index]
    }

    fn find(&self, key: K) -> (at: usize)
        ensures
            at == lower_bound_from(self@, key, 0),
            at <= self@.len(),
    {
        let mut at: usize = 0;
        while at < self.items.len() && self.items[at].before(key)
            invariant
                at <= self.items.len(),
                lower_bound_from(self@, key, 0) == lower_bound_from(self@, key, at as int),
            decreases self.items.len() - at,
        {
            at = at + 1;
        }
        at
    }

    /// Whether `key` is an element.
    pub fn contains(&self, key: K) -> (r: bool)
        ensures
            r == has_key(self@, key),
    {
        let at: usize = self.find(key);
        at < self.items.len() && !key.before(self.items[at]) && !self.items[at].before(key)
    }

    /// Adds `key`; returns whether it was absent.
    pub fn insert(&mut self, key: K) -> (added: bool)
        ensures
            final(self)@ == with_key(old(self)@, key),
            added == !has_key(old(self)@, key),
            old(self).wf() ==> final(self).wf(),
    {
        proof {
            if self.wf() {
                with_key_is_insertion(self@, key);
            }
        }
        let at: usize = self.find(key);
        if at < self.items.len() && !key.before(self.items[at]) && !self.items[at].before(key) {
            false
        } else {
            self.items.insert(at, key);
            true
        }
    }

    /// Whether the two sets share no element.
    pub fn is_disjoint(&self, other: &Self) -> (r: bool)
        ensures
            r == (forall|i: int| 0 <= i < self@.len() ==> !#[trigger] has_key(other@, self@[i])),
    {
        let mut i: usize = 0;
        while i < self.items.len()
            invariant
                i <= self.items.len(),
                forall|j: int| 0 <= j < i ==> !#[trigger] has_key(other@, self@[j]),
            decreases self.items.len() - i,
        {
            if other.contains(self.items[i]) {
                assert(has_key(other@, self@[i as int]));
                return false;
            }
            i = i + 1;
        }
        true
    }

    /// Whether every element is an element of the other set.
    pub fn is_subset(&self, other: &Self) -> (r: bool)
        ensures
            r == (forall|i: int| 0 <= i < self@.len() ==> #[trigger] has_key(other@, self@[i])),
    {
        let mut i: usize = 0;
        while i < self.items.len()
            invariant
                i <= self.items.len(),
                forall|j: int| 0 <= j < i ==> #[trigger] has_key(other@, self@[j]),
            decreases self.items.len() - i,
        {
            if !other.contains(self.items[i]) {
                assert(!has_key(other@, self@[i as int]));
                return false;
            }
            i = i + 1;
        }
        true
    }
}

/// Index of the first entry from `from` on whose key does not order before `key`.
pub open spec fn entry_bound_from<K: OrderedKey, V>(
    entries: Seq<(K, V)>,
    key: K,
    from: int,
) -> int
    decreases entries.len() - from,
{
    if from >= entries.len() {
        entries.len() as int
    } else if entries[from].0.rank() < key.rank() {
        entry_bound_from(entries, key, from + 1)
    } else {
        from
    }
}

/// Value stored under `key`.
pub open spec fn value_of<K: OrderedKey, V>(entries: Seq<(K, V)>, key: K) -> Option<V> {
    let at = entry_bound_from(entries, key, 0);
    if at < entries.len() && entries[at].0.rank() == key.rank() {
        Some(entries[at].1)
    } else {
        None
    }
}

/// Entries with `value` stored under `key`.
pub open spec fn with_value<K: OrderedKey, V>(entries: Seq<(K, V)>, key: K, value: V) -> Seq<
    (K, V),
> {
    let at = entry_bound_from(entries, key, 0);
    if at < entries.len() && entries[at].0.rank() == key.rank() {
        entries.update(at, (key, value))
    } else {
        entries.insert(at, (key, value))
    }
}

/// Entries in strictly increasing key order.
pub open spec fn ordered_entries<K: OrderedKey, V>(entries: Seq<(K, V)>) -> bool {
    forall|i: int, j: int|
        0 <= i < j < entries.len() ==> #[trigger] entries[i].0.rank()
            < #[trigger] entries[j].0.rank()
}

/// Bounds of the insertion point among entries.
pub proof fn lemma_entry_bound<K: OrderedKey, V>(entries: Seq<(K, V)>, key: K, from: int)
    requires
        0 <= from <= entries.len(),
    ensures
        from <= entry_bound_from(entries, key, from) <= entries.len(),
        forall|i: int|
            from <= i < entry_bound_from(entries, key, from) ==> #[trigger] entries[i].0.rank()
                < key.rank(),
        entry_bound_from(entries, key, from) < entries.len() ==> entries[entry_bound_from(
            entries,
            key,
            from,
        )].0.rank() >= key.rank(),
    decreases entries.len() - from,
{
    if from < entries.len() && entries[from].0.rank() < key.rank() {
        lemma_entry_bound(entries, key, from + 1);
    }
}

/// The insertion point is the one index that divides the entries around `key`.
pub proof fn lemma_entry_bound_unique<K: OrderedKey, V>(entries: Seq<(K, V)>, key: K, at: int)
    requires
        0 <= at <= entries.len(),
        forall|i: int| 0 <= i < at ==> #[trigger] entries[i].0.rank() < key.rank(),
        at < entries.len() ==> entries[at].0.rank() >= key.rank(),
    ensures
        entry_bound_from(entries, key, 0) == at,
{
    lemma_entry_bound(entries, key, 0);
    let found = entry_bound_from(entries, key, 0);
    if found < at {
        assert(entries[found].0.rank() < key.rank());
    }
}

/// A stored value is found under its key, and every other key is unaffected.
pub proof fn value_of_with_value<K: OrderedKey, V>(
    entries: Seq<(K, V)>,
    key: K,
    value: V,
    other: K,
)
    requires
        ordered_entries(entries),
    ensures
        ordered_entries(with_value(entries, key, value)),
        value_of(with_value(entries, key, value), other) == (if other == key {
            Some(value)
        } else {
            value_of(entries, other)
        }),
{
    lemma_entry_bound(entries, key, 0);
    lemma_entry_bound(entries, other, 0);
    let at = entry_bound_from(entries, key, 0);
    let updated = with_value(entries, key, value);
    let present = at < entries.len() && entries[at].0.rank() == key.rank();
    if present {
        K::rank_injective(entries[at].0, key);
    }
    assert(ordered_entries(updated)) by {
        assert forall|i: int, j: int|
            0 <= i < j < updated.len() implies #[trigger] updated[i].0.rank()
            < #[trigger] updated[j].0.rank() by {
            if !present && at < entries.len() {
                assert(entries[at].0.rank() > key.rank());
            }
        }
    }
    let there = entry_bound_from(entries, other, 0);
    if other == key {
        lemma_entry_bound_unique(updated, key, at);
    } else {
        if other.rank() == key.rank() {
            K::rank_injective(other, key);
        }
        if present {
            assert forall|i: int| 0 <= i < updated.len() implies #[trigger] updated[i].0.rank()
                == entries[i].0.rank() by {
                assert(i == at || updated[i] == entries[i]);
            }
            lemma_entry_bound_unique(updated, other, there);
        } else if other.rank() < key.rank() {
            assert(there <= at) by {
                if there > at {
                    assert(entries[at].0.rank() < other.rank());
                }
            }
            assert forall|i: int| 0 <= i < there implies #[trigger] updated[i].0.rank()
                < other.rank() by {
                assert(updated[i] == entries[i]);
            }
            if there < at {
                assert(updated[there] == entries[there]);
            } else {
                assert(updated[there] == (key, value));
                if at < entries.len() {
                    assert(entries[at].0.rank() > key.rank());
                }
            }
            lemma_entry_bound_unique(updated, other, there);
        } else {
            assert(there >= at) by {
                if there < at {
                    assert(entries[there].0.rank() < key.rank());
                }
            }
            assert forall|i: int| 0 <= i < there + 1 implies #[trigger] updated[i].0.rank()
                < other.rank() by {
                if i > at {
                    assert(updated[i] == entries[i - 1]);
                } else if i < at {
                    assert(updated[i] == entries[i]);
                }
            }
            if there < entries.len() {
                assert(updated[there + 1] == entries[there]);
            }
            lemma_entry_bound_unique(updated, other, there + 1);
        }
    }
}

/// Ordered map.
pub struct OrderedMap<K, V> {
    items: Vec<(K, V)>,
}

impl<K: OrderedKey, V> View for OrderedMap<K, V> {
    type V = Seq<(K, V)>;

    closed spec fn view(&self) -> Seq<(K, V)> {
        self.items@
    }
}

impl<K: OrderedKey, V: Copy> Clone for OrderedMap<K, V> {
    fn clone(&self) -> (r: Self)
        ensures
            r@ == self@,
    {
        let mut items: Vec<(K, V)> = Vec::new();
        let mut i: usize = 0;
        while i < self.items.len()
            invariant
                i <= self.items.len(),
                items@ == self.items@.subrange(0, i as int),
            decreases self.items.len() - i,
        {
            items.push(self.items[i]);
            i = i + 1;
        }
        assert(items@ =~= self.items@);
        OrderedMap { items }
    }
}

impl<K: OrderedKey, V> OrderedMap<K, V> {
    /// Whether the keys are in strictly increasing order.
    pub open spec fn wf(&self) -> bool {
        ordered_entries(self@)
    }

    /// The empty map.
    pub fn new() -> (r: Self)
        ensures
            r@ == Seq::<(K, V)>::empty(),
            r.wf(),
    {
        OrderedMap { items: Vec::new() }
    }

    /// Number of entries.
    pub fn len(&self) -> (r: usize)
        ensures
            r == self@.len(),
    {
        self.items.len()
    }

    /// The entry at `index` in key order.
    pub fn entry(&self, index: usize) -> (r: &(K, V))
        requires
            index < self@.len(),
        ensures
            *r == self@[index as int],
    {
        &self.items[index]
    }

    fn find(&self, key: K) -> (at: usize)
        ensures
            at == entry_bound_from(self@, key, 0),
            at <= self@.len(),
    {
        let mut at: usize = 0;
        while at < self.items.len() && self.items[at].0.before(key)
            invariant
                at <= self.items.len(),
                entry_bound_from(self@, key, 0) == entry_bound_from(self@, key, at as int),
            decreases self.items.len() - at,
        {
            at = at + 1;
        }
        at
    }

    /// The value stored under `key`.
    pub fn get_ref(&self, key: K) -> (r: Option<&V>)
        ensures
            (match r {
                Some(value) => Some(*value),
                None => None::<V>,
            }) == value_of(self@, key),
    {
        let at: usize = self.find(key);
        if at < self.items.len() && !key.before(self.items[at].0) && !self.items[at].0.before(key) {
            Some(&self.items[at].1)
        } else {
            None
        }
    }

    /// Whether a value is stored under `key`.
    pub fn contains_key(&self, key: K) -> (r: bool)
        ensures
            r == (value_of(self@, key) is Some),
    {
        match self.get_ref(key) {
            Some(_) => true,
            None => false,
        }
    }

    /// Stores `value` under `key`, replacing what was stored there.
    pub fn insert(&mut self, key: K, value: V)
        ensures
            final(self)@ == with_value(old(self)@, key, value),
            old(self).wf() ==> final(self).wf(),
    {
        proof {
            if self.wf() {
                value_of_with_value(self@, key, value, key);
            }
        }
        let at: usize = self.find(key);
        if at < self.items.len() && !key.before(self.items[at].0) && !self.items[at].0.before(key) {
            self.items.set(at, (key, value));
        } else {
            self.items.insert(at, (key, value));
        }
    }

    /// The value stored under `key`, for modification; `value` is stored first where none is.
    pub fn get_or_insert(&mut self, key: K, value: V) -> (r: &mut V)
        requires
            old(self).wf(),
        ensures
            *r == (match value_of(old(self)@, key) {
                Some(stored) => stored,
                None => value,
            }),
            final(self)@ == with_value(old(self)@, key, *final(r)),
            ordered_entries(with_value(old(self)@, key, *final(r))),
    {
        let at: usize = self.find(key);
        proof {
            lemma_entry_bound(self@, key, 0);
            assert forall|v: V| #[trigger] ordered_entries(with_value(self@, key, v)) by {
                value_of_with_value(self@, key, v, key);
            }
        }
        let absent = at >= self.items.len() || key.before(self.items[at].0)
            || self.items[at].0.before(key);
        if absent {
            self.items.insert(at, (key, value));
            assert forall|v: V| self.items@.update(at as int, (key, v)) =~= #[trigger] with_value(
                old(self)@,
                key,
                v,
            ) by {}
        } else {
            proof {
                K::rank_injective(self.items@[at as int].0, key);
            }
        }
        &mut self.items[at].1
    }

    /// The value stored under `key`, for modification.
    pub fn get_mut(&mut self, key: K) -> (r: Option<&mut V>)
        ensures
            match r {
                Some(stored) => value_of(old(self)@, key) == Some(*stored) && final(self)@
                    == with_value(old(self)@, key, *final(stored)),
                None => value_of(old(self)@, key) is None && final(self)@ == old(self)@,
            },
    {
        let at: usize = self.find(key);
        if at < self.items.len() && !key.before(self.items[at].0) && !self.items[at].0.before(key) {
            proof {
                K::rank_injective(self.items@[at as int].0, key);
            }
            Some(&mut self.items[at].1)
        } else {
            None
        }
    }
}

impl<K: OrderedKey, V: Copy> OrderedMap<K, V> {
    /// The entry at `index` in key order.
    pub fn at(&self, index: usize) -> (r: (K, V))
        requires
            index < self@.len(),
        ensures
            r == self@[index as int],
    {
        self.items[index]
    }

    /// The value stored under `key`.
    pub fn get(&self, key: K) -> (r: Option<V>)
        ensures
            r == value_of(self@, key),
    {
        match self.get_ref(key) {
            Some(value) => Some(*value),
            None => None,
        }
    }
}

} // verus!
