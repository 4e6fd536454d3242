use vstd::prelude::*;
use vstd::string::StrSliceExecFns;
use crate::error::KvError;
use crate::value::{Kvpair, KvpairModel, Value, ValueModel};

verus! {

/// What a backend holds: every (table, key) pair that currently has a
/// value, mapped to the model of that value. A table is implicit: it
/// is the set of entries sharing a first component, so an absent table
/// and an empty one are the same thing, as the command semantics ask.
pub type StoreModel = Map<(Seq<char>, Seq<char>), ValueModel>;

/// Table names are non-empty and free of the composite-key separator
/// `':'`. The persistent backend stores an entry under
/// `table ++ ':' ++ key`; a separator inside a table name would make
/// that encoding ambiguous, and nothing here invents an escaping rule.
pub open spec fn valid_table_name(t: Seq<char>) -> bool {
    t.len() > 0 && !t.contains(':')
}

/// Keys are non-empty. A key may contain the separator: the persistent
/// backend recovers the key by stripping a fixed-length prefix, which
/// stays unambiguous as long as table names are separator-free.
pub open spec fn valid_key_name(k: Seq<char>) -> bool {
    k.len() > 0
}

/// The value reported for a key: what the store holds, or the `Empty`
/// sentinel when the key has no value.
pub open spec fn lookup_or_empty(m: StoreModel, t: Seq<char>, k: Seq<char>) -> ValueModel {
    if m.contains_key((t, k)) {
        m[(t, k)]
    } else {
        ValueModel::Empty
    }
}

/// What a whole-table listing must deliver: every pair belongs to the
/// table and carries its current value, no key appears twice, and every
/// key of the table appears. The order is the backend's own.
pub open spec fn table_listing(m: StoreModel, t: Seq<char>, pairs: Seq<KvpairModel>) -> bool {
    &&& forall|i: int|
        0 <= i < pairs.len() ==> m.contains_key((t, #[trigger] pairs[i].key)) && pairs[i].value
            == m[(t, pairs[i].key)]
    &&& forall|i: int, j: int|
        0 <= i < pairs.len() && 0 <= j < pairs.len() && i != j ==> (#[trigger] pairs[i].key)
            != (#[trigger] pairs[j].key)
    &&& forall|k: Seq<char>|
        #[trigger] m.contains_key((t, k)) ==> exists|i: int|
            0 <= i < pairs.len() && pairs[i].key == k
}

/// The backend-agnostic contract every storage engine meets.
///
/// Logical absence is never a failure: a missing key or table gives an
/// empty result. An `Err` is reserved for genuine backend faults, and
/// is always a `BackendFault`.
pub trait Storage: Sized {
    /// The entries the backend currently holds.
    spec fn rep(&self) -> StoreModel;

    /// Whether the backend is incapable of faulting: a faultless
    /// backend owes `Ok` on every call, and stays faultless. The
    /// in-memory backend is faultless; the persistent one, which can
    /// meet I/O failure or corruption, is not.
    spec fn faultless(&self) -> bool;

    /// The current value of a key, or nothing if the key or table is absent.
    fn get(&self, table: &str, key: &str) -> (r: Result<Option<Value>, KvError>)
        requires
            valid_table_name(table@),
            valid_key_name(key@),
        ensures
            self.faultless() ==> r is Ok,
            match r {
                Ok(ov) => match ov {
                    Some(v) => self.rep().contains_key((table@, key@)) && v@ == self.rep()[
                        (table@, key@)
                    ],
                    None => !self.rep().contains_key((table@, key@)),
                },
                Err(e) => e is BackendFault,
            },
    ;

    /// Stores a value under a key, creating the table if absent, and
    /// returns the previous value of that key if one existed. On a
    /// fault the write either did not happen or was fully applied:
    /// nothing else.
    fn set(&mut self, table: &str, key: &str, value: Value) -> (r: Result<Option<Value>, KvError>)
        requires
            valid_table_name(table@),
            valid_key_name(key@),
        ensures
            old(self).faultless() ==> r is Ok,
            final(self).faultless() == old(self).faultless(),
            match r {
                Ok(prior) => final(self).rep() == old(self).rep().insert(
                    (table@, key@),
                    value@,
                ) && match prior {
                    Some(p) => old(self).rep().contains_key((table@, key@)) && p@ == old(
                        self,
                    ).rep()[(table@, key@)],
                    None => !old(self).rep().contains_key((table@, key@)),
                },
                Err(e) => e is BackendFault && (final(self).rep() == old(self).rep()
                    || final(self).rep() == old(self).rep().insert((table@, key@), value@)),
            },
    ;

    /// Whether the key currently has a value in the table.
    fn contains(&self, table: &str, key: &str) -> (r: Result<bool, KvError>)
        requires
            valid_table_name(table@),
            valid_key_name(key@),
        ensures
            self.faultless() ==> r is Ok,
            match r {
                Ok(b) => b == self.rep().contains_key((table@, key@)),
                Err(e) => e is BackendFault,
            },
    ;

    /// Removes a key and returns the value removed, or nothing if the
    /// key was already absent. On a fault the removal either did not
    /// happen or was fully applied: nothing else.
    fn del(&mut self, table: &str, key: &str) -> (r: Result<Option<Value>, KvError>)
        requires
            valid_table_name(table@),
            valid_key_name(key@),
        ensures
            old(self).faultless() ==> r is Ok,
            final(self).faultless() == old(self).faultless(),
            match r {
                Ok(prior) => final(self).rep() == old(self).rep().remove((table@, key@)) && match prior {
                    Some(p) => old(self).rep().contains_key((table@, key@)) && p@ == old(
                        self,
                    ).rep()[(table@, key@)],
                    None => !old(self).rep().contains_key((table@, key@)),
                },
                Err(e) => e is BackendFault && (final(self).rep() == old(self).rep()
                    || final(self).rep() == old(self).rep().remove((table@, key@))),
            },
    ;

    /// A point-in-time snapshot of every live pair of the table, in the
    /// backend's own order.
    fn get_all(&self, table: &str) -> (r: Result<Vec<Kvpair>, KvError>)
        requires
            valid_table_name(table@),
        ensures
            self.faultless() ==> r is Ok,
            match r {
                Ok(pairs) => table_listing(self.rep(), table@, pairs.deep_view()),
                Err(e) => e is BackendFault,
            },
    ;
}

/// Decides `valid_table_name` at run time, so that a caller holding an
/// arbitrary string can establish a dispatch precondition.
pub fn is_valid_table_name(s: &str) -> (r: bool)
    ensures
        r == valid_table_name(s@),
{
    let n = s.unicode_len();
    if n == 0 {
        return false;
    }
    let mut i: usize = 0;
    while i < n
        invariant
            n == s@.len(),
            i <= n,
            forall|j: int| 0 <= j < i ==> s@[j] != ':',
        decreases n - i,
    {
        if s.get_char(i) == ':' {
            proof {
                assert(s@.contains(':'));
            }
            return false;
        }
        i = i + 1;
    }
    proof {
        assert(!s@.contains(':'));
    }
    true
}

/// Decides `valid_key_name` at run time.
pub fn is_valid_key_name(s: &str) -> (r: bool)
    ensures
        r == valid_key_name(s@),
{
    s.unicode_len() > 0
}

} // verus!
