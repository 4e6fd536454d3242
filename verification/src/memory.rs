use vstd::prelude::*;
use dashmap::DashMap;
use crate::error::KvError;
use crate::storage::{table_listing, Storage, StoreModel};
use crate::value::{Kvpair, Value, ValueModel};

verus! {

/// The in-memory backend: an outer concurrent map from table name to
/// an inner concurrent map from key to value.
///
/// The maps are dashmap's, whose interior Verus does not read; the
/// struct is therefore opaque, and its contents are reached only
/// through `mem_rep` and the trusted wrappers below. Table
/// lookup-or-create is dashmap's atomic `entry` call, so two callers
/// racing to touch the same fresh table observe one inner map.
#[verifier::external_body]
pub struct MemTable {
    tables: DashMap<String, DashMap<String, Value>>,
}

/// The entries the in-memory backend currently holds, flattened to
/// (table, key) pairs; an absent inner map and an empty one are the
/// same. The contracts of `MemTable::new` and the wrappers below give
/// this name its meaning.
pub uninterp spec fn mem_rep(m: MemTable) -> Map<(Seq<char>, Seq<char>), ValueModel>;

impl MemTable {
    /// Relies on DashMap::new: a fresh map holds nothing.
    #[verifier::external_body]
    pub fn new() -> (r: Self)
        ensures
            forall|t: Seq<char>, k: Seq<char>| !r.rep().contains_key((t, k)),
    {
        MemTable { tables: DashMap::new() }
    }

    /// Relies on DashMap::entry / Entry::or_default to reach the
    /// table's inner map, and DashMap::get to look the key up in it.
    #[verifier::external_body]
    fn table_get(&self, table: &str, key: &str) -> (r: Option<Value>)
        ensures
            match r {
                Some(v) => mem_rep(*self).contains_key((table@, key@)) && v@ == mem_rep(*self)[
                    (table@, key@)
                ],
                None => !mem_rep(*self).contains_key((table@, key@)),
            },
    {
        let t = self.tables.entry(table.to_string()).or_default().downgrade();
        t.get(key).map(|v| v.value().clone())
    }

    /// Relies on DashMap::entry / Entry::or_default to reach the
    /// table's inner map, and DashMap::insert on it, which stores the
    /// value and returns the previous one if the key had one.
    #[verifier::external_body]
    fn table_set(&mut self, table: &str, key: &str, value: Value) -> (r: Option<Value>)
        ensures
            final(self).rep() == old(self).rep().insert((table@, key@), value@),
            match r {
                Some(p) => old(self).rep().contains_key((table@, key@)) && p@ == mem_rep(
                    *old(self),
                )[(table@, key@)],
                None => !old(self).rep().contains_key((table@, key@)),
            },
    {
        let t = self.tables.entry(table.to_string()).or_default().downgrade();
        t.insert(key.to_string(), value)
    }

    /// Relies on DashMap::entry / Entry::or_default to reach the
    /// table's inner map, and DashMap::contains_key on it.
    #[verifier::external_body]
    fn table_contains(&self, table: &str, key: &str) -> (r: bool)
        ensures
            r == mem_rep(*self).contains_key((table@, key@)),
    {
        let t = self.tables.entry(table.to_string()).or_default().downgrade();
        t.contains_key(key)
    }

    /// Relies on DashMap::entry / Entry::or_default to reach the
    /// table's inner map, and DashMap::remove on it, which returns the
    /// entry removed if the key had one.
    #[verifier::external_body]
    fn table_del(&mut self, table: &str, key: &str) -> (r: Option<Value>)
        ensures
            final(self).rep() == old(self).rep().remove((table@, key@)),
            match r {
                Some(p) => old(self).rep().contains_key((table@, key@)) && p@ == mem_rep(
                    *old(self),
                )[(table@, key@)],
                None => !old(self).rep().contains_key((table@, key@)),
            },
    {
        let t = self.tables.entry(table.to_string()).or_default().downgrade();
        t.remove(key).map(|kv| kv.1)
    }

    /// Relies on DashMap::entry / Entry::or_default to reach the
    /// table's inner map, and DashMap::iter on it, which visits every
    /// entry of that map exactly once, in no promised order.
    #[verifier::external_body]
    fn table_get_all(&self, table: &str) -> (r: Vec<Kvpair>)
        ensures
            table_listing(mem_rep(*self), table@, r.deep_view()),
    {
        let t = self.tables.entry(table.to_string()).or_default().downgrade();
        t.iter().map(|e| Kvpair::new(e.key(), e.value().clone())).collect()
    }
}

impl Storage for MemTable {
    open spec fn rep(&self) -> StoreModel {
        mem_rep(*self)
    }

    /// The in-memory backend cannot fault.
    open spec fn faultless(&self) -> bool {
        true
    }

    /// The in-memory backend never faults: every operation returns `Ok`.
    fn get(&self, table: &str, key: &str) -> (r: Result<Option<Value>, KvError>)
        ensures
            r is Ok,
    {
        Ok(self.table_get(table, key))
    }

    fn set(&mut self, table: &str, key: &str, value: Value) -> (r: Result<Option<Value>, KvError>)
        ensures
            r is Ok,
    {
        Ok(self.table_set(table, key, value))
    }

    fn contains(&self, table: &str, key: &str) -> (r: Result<bool, KvError>)
        ensures
            r is Ok,
    {
        Ok(self.table_contains(table, key))
    }

    fn del(&mut self, table: &str, key: &str) -> (r: Result<Option<Value>, KvError>)
        ensures
            r is Ok,
    {
        Ok(self.table_del(table, key))
    }

    fn get_all(&self, table: &str) -> (r: Result<Vec<Kvpair>, KvError>)
        ensures
            r is Ok,
    {
        Ok(self.table_get_all(table))
    }
}

} // verus!
