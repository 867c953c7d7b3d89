//! In-memory key/value cache for data fetched from the daemon.
//!
//! Deduplicates daemon calls within a refresh cycle.  Entries never expire on
//! their own: callers invalidate one key or clear the whole cache when they
//! know the data changed (daily usage changed, policy mutated, block state
//! changed).

use vstd::hash_map::StringHashMap;
use vstd::prelude::*;

verus! {

/// Simple in-memory cache keyed by text, with no time-based expiry.
#[verifier::reject_recursive_types(V)]
pub struct ClientCache<V> {
    inner: StringHashMap<V>,
}

impl<V> View for ClientCache<V> {
    type V = Map<Seq<char>, V>;

    closed spec fn view(&self) -> Map<Seq<char>, V> {
        self.inner@
    }
}

impl<V: Clone> ClientCache<V> {
    /// An empty cache.
    pub fn new() -> (r: Self)
        ensures
            r@ == Map::<Seq<char>, V>::empty(),
    {
        ClientCache { inner: StringHashMap::new() }
    }

    /// A clone of the value cached under `key`, if any.
    pub fn get(&self, key: &String) -> (r: Option<V>)
        ensures
            r is Some <==> self@.contains_key(key@),
            r matches Some(v) ==> cloned(self@[key@], v),
    {
        match self.inner.get(key.as_str()) {
            Some(v) => Some(v.clone()),
            None => None,
        }
    }

    /// Caches `value` under `key`, replacing what was there.
    pub fn set(&mut self, key: String, value: V)
        ensures
            final(self)@ == old(self)@.insert(key@, value),
    {
        self.inner.insert(key, value);
    }

    /// Drops the entry for `key`, if any.
    pub fn invalidate(&mut self, key: &String)
        ensures
            final(self)@ == old(self)@.remove(key@),
    {
        self.inner.remove(key.as_str());
    }

    /// Drops every entry.
    pub fn clear(&mut self)
        ensures
            final(self)@ == Map::<Seq<char>, V>::empty(),
    {
        self.inner.clear();
    }
}

impl<V: Clone> Default for ClientCache<V> {
    fn default() -> (r: Self)
        ensures
            r@ == Map::<Seq<char>, V>::empty(),
    {
        Self::new()
    }
}

/// Reading a key right after setting it finds the value that was set, and
/// leaves every other key as it was.
pub proof fn law_get_after_set<V>(before: Map<Seq<char>, V>, key: Seq<char>, value: V, other: Seq<char>)
    requires
        other != key,
    ensures
        before.insert(key, value).contains_key(key),
        before.insert(key, value)[key] == value,
        before.insert(key, value).contains_key(other) == before.contains_key(other),
        before.contains_key(other) ==> before.insert(key, value)[other] == before[other],
{
}

/// After invalidating a key it is absent, and every other key is unchanged.
pub proof fn law_get_after_invalidate<V>(before: Map<Seq<char>, V>, key: Seq<char>, other: Seq<char>)
    requires
        other != key,
    ensures
        !before.remove(key).contains_key(key),
        before.remove(key).contains_key(other) == before.contains_key(other),
        before.contains_key(other) ==> before.remove(key)[other] == before[other],
{
}

/// After clearing, no key is present.
pub proof fn law_get_after_clear<V>(key: Seq<char>)
    ensures
        !Map::<Seq<char>, V>::empty().contains_key(key),
{
}

/// One call on a cache, as it acts on the cached map.
pub enum CacheOp<V> {
    Store(Seq<char>, V),
    Invalidate(Seq<char>),
    Clear,
}

/// The cached map after each call of `ops` in turn (`set`, `invalidate`
/// and `clear` act as their contracts state).
pub open spec fn after_ops<V>(m: Map<Seq<char>, V>, ops: Seq<CacheOp<V>>) -> Map<Seq<char>, V>
    decreases ops.len(),
{
    if ops.len() == 0 {
        m
    } else {
        let before = after_ops(m, ops.drop_last());
        match ops.last() {
            CacheOp::Store(k, v) => before.insert(k, v),
            CacheOp::Invalidate(k) => before.remove(k),
            CacheOp::Clear => Map::empty(),
        }
    }
}

/// Whether a call overwrites, removes or clears the entry for `key`.
pub open spec fn touches<V>(op: CacheOp<V>, key: Seq<char>) -> bool {
    match op {
        CacheOp::Store(k, _) => k == key,
        CacheOp::Invalidate(k) => k == key,
        CacheOp::Clear => true,
    }
}

/// Entries never expire on their own: after `set(key, value)`, the entry
/// stays through any later calls that do not overwrite, invalidate or
/// clear it, whatever they do to other keys.
pub proof fn law_entry_persists<V>(before: Map<Seq<char>, V>, key: Seq<char>, value: V, ops: Seq<CacheOp<V>>)
    requires
        forall|i: int| 0 <= i < ops.len() ==> !touches(#[trigger] ops[i], key),
    ensures
        after_ops(before.insert(key, value), ops).contains_key(key),
        after_ops(before.insert(key, value), ops)[key] == value,
    decreases ops.len(),
{
    if ops.len() > 0 {
        let d = ops.drop_last();
        assert forall|i: int| 0 <= i < d.len() implies !touches(#[trigger] d[i], key) by {
            assert(d[i] == ops[i]);
        }
        law_entry_persists(before, key, value, d);
        assert(!touches(ops[ops.len() - 1], key));
    }
}

} // verus!
