//! The memoization cache: a map from normalized pattern text to digest text.
//!
//! The store is a `dashmap::DashMap`, kept behind a handle whose view is the
//! mathematical map of its entries. The handle is owned by one caller at a
//! time: an insertion needs `&mut`, so the contracts describe sequential use
//! of the handle.

use vstd::prelude::*;

verus! {

#[verifier::external_type_specification]
#[verifier::external_body]
#[verifier::reject_recursive_types(K)]
#[verifier::reject_recursive_types(V)]
#[verifier::reject_recursive_types(S)]
pub struct ExDashMap<K, V, S>(dashmap::DashMap<K, V, S>);

/// The concrete store: pattern text to digest text.
pub type PatternMap = dashmap::DashMap<String, String>;

/// The entries a `PatternMap` holds, as a map of views.
pub uninterp spec fn dashmap_entries(m: PatternMap) -> Map<Seq<char>, Seq<char>>;

/// Relies on dashmap::DashMap::new: the new map holds no entry.
#[verifier::external_body]
fn dashmap_new() -> (r: PatternMap)
    ensures
        forall|k: Seq<char>| !dashmap_entries(r).contains_key(k),
{
    dashmap::DashMap::new()
}

/// Relies on dashmap::DashMap::get: returns the value stored under the key,
/// if there is one.
#[verifier::external_body]
fn dashmap_get(m: &PatternMap, key: &str) -> (r: Option<String>)
    ensures
        match r {
            Some(v) => dashmap_entries(*m).contains_key(key@) && dashmap_entries(*m)[key@] == v@,
            None => !dashmap_entries(*m).contains_key(key@),
        },
{
    m.get(key).map(|entry| entry.value().clone())
}

/// Relies on dashmap::DashMap::insert: stores the value under the key,
/// replacing any prior value.
#[verifier::external_body]
fn dashmap_insert(m: &mut PatternMap, key: String, value: String)
    ensures
        dashmap_entries(*final(m)) == dashmap_entries(*old(m)).insert(key@, value@),
{
    m.insert(key, value);
}

/// A handle to the digest cache.
pub struct HashCache {
    map: PatternMap,
}

impl View for HashCache {
    type V = Map<Seq<char>, Seq<char>>;

    closed spec fn view(&self) -> Map<Seq<char>, Seq<char>> {
        dashmap_entries(self.map)
    }
}

impl HashCache {
    /// An empty cache.
    pub fn new() -> (c: HashCache)
        ensures
            c@ == Map::<Seq<char>, Seq<char>>::empty(),
    {
        HashCache { map: dashmap_new() }
    }

    /// Thread-safe read: the digest stored under the key, if any; no side
    /// effects.
    pub fn lookup(&self, key: &str) -> (r: Option<String>)
        ensures
            match r {
                Some(v) => self@.contains_key(key@) && self@[key@] == v@,
                None => !self@.contains_key(key@),
            },
    {
        dashmap_get(&self.map, key)
    }

    /// Write: stores the digest under the key, overwriting any prior value.
    pub fn insert(&mut self, key: String, value: String)
        ensures
            final(self)@ == old(self)@.insert(key@, value@),
    {
        dashmap_insert(&mut self.map, key, value)
    }
}

} // verus!
