use vstd::prelude::*;
use vstd::string::*;
use crate::codec::{decode_value, decoded_value, encode_value, lemma_value_codec_roundtrip};
use crate::error::KvError;
use crate::storage::{valid_key_name, valid_table_name, Storage, StoreModel};
use crate::value::{Kvpair, Value, ValueModel};

verus! {

#[verifier::external_type_specification]
#[verifier::external_body]
pub struct ExDb(sled::Db);

/// The persistent backend: a composite-key encoding over sled's
/// ordered byte-string engine. An entry for (table, key) is stored
/// under `table ++ ':' ++ key`, its value as the byte form of
/// `encoded_value`; a whole table is then one prefix scan.
#[derive(Debug)]
pub struct SledDb {
    db: sled::Db,
}

/// What the sled tree currently holds: each stored key, read as the
/// character string this library wrote it as, mapped to its value
/// bytes. The contracts of the trusted wrappers below give this name
/// its meaning.
pub uninterp spec fn sled_rep(db: sled::Db) -> Map<Seq<char>, Seq<u8>>;

/// The composite key under which (table, key) is stored.
pub open spec fn full_key_model(t: Seq<char>, k: Seq<char>) -> Seq<char> {
    t + seq![':'] + k
}

/// The prefix every stored key of one table shares.
pub open spec fn table_prefix_model(t: Seq<char>) -> Seq<char> {
    t + seq![':']
}

/// Strict lexicographic order on character strings, by code point:
/// the order in which the persistent backend's scans deliver keys,
/// since byte order on UTF-8 encodings agrees with code-point order.
pub open spec fn lex_lt(a: Seq<char>, b: Seq<char>) -> bool
    decreases a.len(),
{
    if b.len() == 0 {
        false
    } else if a.len() == 0 {
        true
    } else if a[0] != b[0] {
        (a[0] as u32) < (b[0] as u32)
    } else {
        lex_lt(a.drop_first(), b.drop_first())
    }
}

/// Prepending one shared prefix to two strings neither makes nor
/// breaks their order.
proof fn lemma_lex_lt_common_prefix(p: Seq<char>, a: Seq<char>, b: Seq<char>)
    ensures
        lex_lt(p + a, p + b) == lex_lt(a, b),
    decreases p.len(),
{
    if p.len() == 0 {
        assert(p + a =~= a);
        assert(p + b =~= b);
    } else {
        lemma_lex_lt_common_prefix(p.drop_first(), a, b);
        assert((p + a)[0] == p[0]);
        assert((p + b)[0] == p[0]);
        assert((p + a).drop_first() =~= p.drop_first() + a);
        assert((p + b).drop_first() =~= p.drop_first() + b);
    }
}

/// With separator-free table names, the composite key determines the
/// table and the key: the separator first occurs at the table's end.
proof fn lemma_full_key_injective(t1: Seq<char>, k1: Seq<char>, t2: Seq<char>, k2: Seq<char>)
    requires
        !t1.contains(':'),
        !t2.contains(':'),
        full_key_model(t1, k1) == full_key_model(t2, k2),
    ensures
        t1 == t2,
        k1 == k2,
{
    let s = full_key_model(t1, k1);
    assert(s.len() == t1.len() + 1 + k1.len());
    if t1.len() < t2.len() {
        assert(s[t1.len() as int] == ':');
        assert(s[t1.len() as int] == t2[t1.len() as int]);
        assert(t2.contains(':'));
        assert(false);
    }
    if t2.len() < t1.len() {
        assert(s[t2.len() as int] == ':');
        assert(s[t2.len() as int] == t1[t2.len() as int]);
        assert(t1.contains(':'));
        assert(false);
    }
    assert(t1.len() == t2.len());
    assert forall|i: int| 0 <= i < t1.len() implies t1[i] == t2[i] by {
        assert(s[i] == t1[i]);
        assert(s[i] == t2[i]);
    };
    assert(t1 =~= t2);
    assert(k1.len() == k2.len());
    assert forall|i: int| 0 <= i < k1.len() implies k1[i] == k2[i] by {
        assert(s[t1.len() as int + 1 + i] == k1[i]);
        assert(s[t2.len() as int + 1 + i] == k2[i]);
    };
    assert(k1 =~= k2);
}

/// A stored key that starts with a table's prefix is the composite key
/// of that table and of whatever follows the prefix.
proof fn lemma_prefix_split(t: Seq<char>, fk: Seq<char>)
    requires
        table_prefix_model(t).is_prefix_of(fk),
    ensures
        fk == full_key_model(t, fk.subrange(t.len() as int + 1, fk.len() as int)),
{
    assert(fk =~= full_key_model(t, fk.subrange(t.len() as int + 1, fk.len() as int)));
}

impl SledDb {
    /// Relies on sled::open: it opens the tree stored at the path,
    /// creating it if absent; what it holds is whatever the path held.
    #[verifier::external_body]
    pub fn new(path: &str) -> (r: Result<SledDb, KvError>)
        ensures
            r matches Err(e) ==> e is BackendFault,
    {
        match sled::open(path) {
            Ok(db) => Ok(SledDb { db }),
            Err(e) => Err(KvError::BackendFault(e.to_string())),
        }
    }

    /// The composite key for (table, key), separator in between.
    pub fn get_full_key(prefix: &str, key: &str) -> (r: String)
        ensures
            r@ == full_key_model(prefix@, key@),
    {
        let mut s = prefix.to_owned();
        s.append(":");
        s.append(key);
        proof {
            reveal_strlit(":");
            assert(s@ =~= full_key_model(prefix@, key@));
        }
        s
    }

    /// The scan prefix for a whole table: its name and the separator.
    fn table_prefix(table: &str) -> (r: String)
        ensures
            r@ == table_prefix_model(table@),
    {
        let mut s = table.to_owned();
        s.append(":");
        proof {
            reveal_strlit(":");
            assert(s@ =~= table_prefix_model(table@));
        }
        s
    }

    /// Relies on sled::Tree::get: the value stored under the key, if any.
    #[verifier::external_body]
    fn raw_get(&self, key: &String) -> (r: Result<Option<Vec<u8>>, KvError>)
        ensures
            match r {
                Ok(ob) => match ob {
                    Some(bytes) => sled_rep(self.db).contains_key(key@) && bytes@ == sled_rep(
                        self.db,
                    )[key@],
                    None => !sled_rep(self.db).contains_key(key@),
                },
                Err(e) => e is BackendFault,
            },
    {
        match self.db.get(key.as_str()) {
            Ok(Some(iv)) => Ok(Some(iv.to_vec())),
            Ok(None) => Ok(None),
            Err(e) => Err(KvError::BackendFault(e.to_string())),
        }
    }

    /// Relies on sled::Tree::insert, which stores the value and returns
    /// the previous one if the key had one, and sled::Tree::flush,
    /// which durably commits the write before this call returns. A
    /// fault comes from the insert, which then did not reach the tree,
    /// or from the flush after the insert already had: either way the
    /// tree is unchanged or holds exactly this one update.
    #[verifier::external_body]
    fn raw_insert(&mut self, key: &String, value: Vec<u8>) -> (r: Result<Option<Vec<u8>>, KvError>)
        ensures
            match r {
                Ok(prior) => sled_rep(final(self).db) == sled_rep(old(self).db).insert(
                    key@,
                    value@,
                ) && match prior {
                    Some(p) => sled_rep(old(self).db).contains_key(key@) && p@ == sled_rep(
                        old(self).db,
                    )[key@],
                    None => !sled_rep(old(self).db).contains_key(key@),
                },
                Err(e) => e is BackendFault && (sled_rep(final(self).db) == sled_rep(old(self).db)
                    || sled_rep(final(self).db) == sled_rep(old(self).db).insert(key@, value@)),
            },
    {
        let prior = match self.db.insert(key.as_str(), value) {
            Ok(p) => p,
            Err(e) => return Err(KvError::BackendFault(e.to_string())),
        };
        if let Err(e) = self.db.flush() {
            return Err(KvError::BackendFault(e.to_string()));
        }
        Ok(prior.map(|iv| iv.to_vec()))
    }

    /// Relies on sled::Tree::remove, which removes the key and returns
    /// the value it held if any, and sled::Tree::flush, which durably
    /// commits the removal before this call returns. A fault comes
    /// from the remove, which then did not reach the tree, or from the
    /// flush after the remove already had: either way the tree is
    /// unchanged or holds exactly this one removal.
    #[verifier::external_body]
    fn raw_remove(&mut self, key: &String) -> (r: Result<Option<Vec<u8>>, KvError>)
        ensures
            match r {
                Ok(prior) => sled_rep(final(self).db) == sled_rep(old(self).db).remove(key@)
                    && match prior {
                    Some(p) => sled_rep(old(self).db).contains_key(key@) && p@ == sled_rep(
                        old(self).db,
                    )[key@],
                    None => !sled_rep(old(self).db).contains_key(key@),
                },
                Err(e) => e is BackendFault && (sled_rep(final(self).db) == sled_rep(old(self).db)
                    || sled_rep(final(self).db) == sled_rep(old(self).db).remove(key@)),
            },
    {
        let prior = match self.db.remove(key.as_str()) {
            Ok(p) => p,
            Err(e) => return Err(KvError::BackendFault(e.to_string())),
        };
        if let Err(e) = self.db.flush() {
            return Err(KvError::BackendFault(e.to_string()));
        }
        Ok(prior.map(|iv| iv.to_vec()))
    }

    /// Relies on sled::Tree::scan_prefix: the iterator yields every
    /// entry whose key starts with the prefix, each exactly once, in
    /// ascending key order — byte order, which on the UTF-8 keys this
    /// library writes is code-point order. A key that is not the UTF-8
    /// form this library writes is reported as a fault.
    #[verifier::external_body]
    fn raw_scan_prefix(&self, prefix: &String) -> (r: Result<Vec<(String, Vec<u8>)>, KvError>)
        ensures
            match r {
                Ok(entries) => {
                    &&& forall|i: int|
                        0 <= i < entries@.len() ==> {
                            &&& prefix@.is_prefix_of((#[trigger] entries@[i]).0@)
                            &&& sled_rep(self.db).contains_key(entries@[i].0@)
                            &&& entries@[i].1@ == sled_rep(self.db)[entries@[i].0@]
                        }
                    &&& forall|i: int, j: int|
                        0 <= i < j < entries@.len() ==> lex_lt(
                            (#[trigger] entries@[i]).0@,
                            (#[trigger] entries@[j]).0@,
                        )
                    &&& forall|i: int, j: int|
                        0 <= i < entries@.len() && 0 <= j < entries@.len() && i != j ==> (
                        #[trigger] entries@[i]).0@ != (#[trigger] entries@[j]).0@
                    &&& forall|k: Seq<char>|
                        #[trigger] sled_rep(self.db).contains_key(k) && prefix@.is_prefix_of(k)
                            ==> exists|i: int|
                            0 <= i < entries@.len() && (#[trigger] entries@[i]).0@ == k
                },
                Err(e) => e is BackendFault,
            },
    {
        let mut out: Vec<(String, Vec<u8>)> = Vec::new();
        for item in self.db.scan_prefix(prefix.as_str()) {
            let (k, v) = match item {
                Ok(kv) => kv,
                Err(e) => return Err(KvError::BackendFault(e.to_string())),
            };
            let ks = match String::from_utf8(k.to_vec()) {
                Ok(s) => s,
                Err(e) => return Err(KvError::BackendFault(e.to_string())),
            };
            out.push((ks, v.to_vec()));
        }
        Ok(out)
    }
}

/// The logical store a byte map carries: each separator-encoded key
/// whose value bytes still decode, read back as its (table, key) pair.
spec fn logical_of(s: Map<Seq<char>, Seq<u8>>) -> StoreModel {
    Map::new(
        |p: (Seq<char>, Seq<char>)|
            valid_table_name(p.0) && valid_key_name(p.1) && s.contains_key(
                full_key_model(p.0, p.1),
            ) && decoded_value(s[full_key_model(p.0, p.1)]) is Some,
        |p: (Seq<char>, Seq<char>)| decoded_value(s[full_key_model(p.0, p.1)]).unwrap(),
    )
}

/// A byte-map insert of a decodable value under a composite key is a
/// logical insert of that (table, key) pair.
proof fn lemma_logical_insert(
    s: Map<Seq<char>, Seq<u8>>,
    t: Seq<char>,
    k: Seq<char>,
    bytes: Seq<u8>,
    vm: ValueModel,
)
    requires
        valid_table_name(t),
        valid_key_name(k),
        decoded_value(bytes) == Some(vm),
    ensures
        logical_of(s.insert(full_key_model(t, k), bytes)) == logical_of(s).insert((t, k), vm),
{
    let s1 = s.insert(full_key_model(t, k), bytes);
    let target = logical_of(s).insert((t, k), vm);
    assert forall|p: (Seq<char>, Seq<char>)|
        logical_of(s1).contains_key(p) == target.contains_key(p) by {
        if full_key_model(p.0, p.1) == full_key_model(t, k) {
            if valid_table_name(p.0) {
                lemma_full_key_injective(p.0, p.1, t, k);
            }
        }
    };
    assert forall|p: (Seq<char>, Seq<char>)|
        logical_of(s1).contains_key(p) implies logical_of(s1)[p] == target[p] by {
        if full_key_model(p.0, p.1) == full_key_model(t, k) {
            lemma_full_key_injective(p.0, p.1, t, k);
        }
    };
    assert(logical_of(s1) =~= target);
}

/// A byte-map removal of a composite key is a logical removal of that
/// (table, key) pair.
proof fn lemma_logical_remove(s: Map<Seq<char>, Seq<u8>>, t: Seq<char>, k: Seq<char>)
    requires
        valid_table_name(t),
        valid_key_name(k),
    ensures
        logical_of(s.remove(full_key_model(t, k))) == logical_of(s).remove((t, k)),
{
    let s1 = s.remove(full_key_model(t, k));
    let target = logical_of(s).remove((t, k));
    assert forall|p: (Seq<char>, Seq<char>)|
        logical_of(s1).contains_key(p) == target.contains_key(p) by {
        if full_key_model(p.0, p.1) == full_key_model(t, k) {
            if valid_table_name(p.0) {
                lemma_full_key_injective(p.0, p.1, t, k);
            }
        }
    };
    assert forall|p: (Seq<char>, Seq<char>)|
        logical_of(s1).contains_key(p) implies logical_of(s1)[p] == target[p] by {
        if full_key_model(p.0, p.1) == full_key_model(t, k) {
            lemma_full_key_injective(p.0, p.1, t, k);
        }
    };
    assert(logical_of(s1) =~= target);
}

impl Storage for SledDb {
    closed spec fn rep(&self) -> StoreModel {
        logical_of(sled_rep(self.db))
    }

    /// The persistent backend can meet I/O failure or corruption.
    open spec fn faultless(&self) -> bool {
        false
    }

    fn get(&self, table: &str, key: &str) -> (r: Result<Option<Value>, KvError>) {
        let fk = SledDb::get_full_key(table, key);
        match self.raw_get(&fk) {
            Ok(Some(bytes)) => match decode_value(&bytes) {
                Some(v) => {
                    proof {
                        assert(self.rep().contains_key((table@, key@)));
                        assert(self.rep()[(table@, key@)] == v@);
                    }
                    Ok(Some(v))
                },
                None => Err(KvError::BackendFault("stored value does not decode".to_owned())),
            },
            Ok(None) => {
                proof {
                    assert(!self.rep().contains_key((table@, key@)));
                }
                Ok(None)
            },
            Err(e) => Err(e),
        }
    }

    fn set(&mut self, table: &str, key: &str, value: Value) -> (r: Result<Option<Value>, KvError>) {
        let ghost m_old = old(self).rep();
        let fk = SledDb::get_full_key(table, key);
        let data = encode_value(&value);
        let ghost vm = value@;
        match self.raw_insert(&fk, data) {
            Ok(prior) => {
                proof {
                    lemma_value_codec_roundtrip(vm);
                    lemma_logical_insert(sled_rep(old(self).db), table@, key@, data@, vm);
                }
                match prior {
                    Some(pb) => match decode_value(&pb) {
                        Some(p) => {
                            proof {
                                assert(m_old.contains_key((table@, key@)));
                                assert(m_old[(table@, key@)] == p@);
                            }
                            Ok(Some(p))
                        },
                        None => Err(
                            KvError::BackendFault("stored value does not decode".to_owned()),
                        ),
                    },
                    None => {
                        proof {
                            assert(!m_old.contains_key((table@, key@)));
                        }
                        Ok(None)
                    },
                }
            },
            Err(e) => {
                proof {
                    lemma_value_codec_roundtrip(vm);
                    if sled_rep(self.db) == sled_rep(old(self).db).insert(fk@, data@) {
                        lemma_logical_insert(sled_rep(old(self).db), table@, key@, data@, vm);
                    }
                }
                Err(e)
            },
        }
    }

    fn contains(&self, table: &str, key: &str) -> (r: Result<bool, KvError>) {
        let fk = SledDb::get_full_key(table, key);
        match self.raw_get(&fk) {
            Ok(Some(bytes)) => match decode_value(&bytes) {
                Some(_v) => {
                    proof {
                        assert(self.rep().contains_key((table@, key@)));
                    }
                    Ok(true)
                },
                None => Err(KvError::BackendFault("stored value does not decode".to_owned())),
            },
            Ok(None) => {
                proof {
                    assert(!self.rep().contains_key((table@, key@)));
                }
                Ok(false)
            },
            Err(e) => Err(e),
        }
    }

    fn del(&mut self, table: &str, key: &str) -> (r: Result<Option<Value>, KvError>) {
        let ghost m_old = old(self).rep();
        let fk = SledDb::get_full_key(table, key);
        match self.raw_remove(&fk) {
            Ok(prior) => {
                proof {
                    lemma_logical_remove(sled_rep(old(self).db), table@, key@);
                }
                match prior {
                    Some(pb) => match decode_value(&pb) {
                        Some(p) => {
                            proof {
                                assert(m_old.contains_key((table@, key@)));
                                assert(m_old[(table@, key@)] == p@);
                            }
                            Ok(Some(p))
                        },
                        None => Err(
                            KvError::BackendFault("stored value does not decode".to_owned()),
                        ),
                    },
                    None => {
                        proof {
                            assert(!m_old.contains_key((table@, key@)));
                        }
                        Ok(None)
                    },
                }
            },
            Err(e) => {
                proof {
                    if sled_rep(self.db) == sled_rep(old(self).db).remove(fk@) {
                        lemma_logical_remove(sled_rep(old(self).db), table@, key@);
                    }
                }
                Err(e)
            },
        }
    }

    /// On top of the trait's listing contract, this backend's order is
    /// pinned: pairs come back sorted by key, lexicographically by
    /// code point, which is the byte order of the encoded keys.
    #[verifier::loop_isolation(false)]
    fn get_all(&self, table: &str) -> (r: Result<Vec<Kvpair>, KvError>)
        ensures
            r matches Ok(pairs) ==> forall|i: int, j: int|
                0 <= i < j < pairs@.len() ==> lex_lt(
                    (#[trigger] pairs@[i])@.key,
                    (#[trigger] pairs@[j])@.key,
                ),
    {
        let prefix = SledDb::table_prefix(table);
        let entries = match self.raw_scan_prefix(&prefix) {
            Ok(es) => es,
            Err(e) => {
                return Err(e);
            },
        };
        let ghost m = self.rep();
        let ghost t = table@;
        let plen = prefix.as_str().unicode_len();
        let mut out: Vec<Kvpair> = Vec::new();
        let mut i: usize = 0;
        while i < entries.len()
            invariant
                i <= entries@.len(),
                out@.len() == i,
                forall|j: int|
                    0 <= j < i ==> {
                        &&& m.contains_key((t, (#[trigger] out@[j])@.key))
                        &&& out@[j]@.value == m[(t, out@[j]@.key)]
                        &&& out@[j]@.key == entries@[j].0@.subrange(
                            plen as int,
                            entries@[j].0@.len() as int,
                        )
                    },
            decreases entries@.len() - i,
        {
            let entry = &entries[i];
            let klen = entry.0.as_str().unicode_len();
            if klen <= plen {
                return Err(KvError::BackendFault("stored key does not parse".to_owned()));
            }
            let logical = entry.0.as_str().substring_char(plen, klen);
            let v = match decode_value(&entry.1) {
                Some(v) => v,
                None => {
                    return Err(KvError::BackendFault("stored value does not decode".to_owned()));
                },
            };
            proof {
                assert(prefix@.is_prefix_of(entries@[i as int].0@));
                lemma_prefix_split(t, entries@[i as int].0@);
                assert(m.contains_key((t, logical@)));
                assert(m[(t, logical@)] == v@);
            }
            out.push(Kvpair::new(logical, v));
            i = i + 1;
        }
        proof {
            assert forall|a: int, b: int|
                0 <= a < b < out@.len() implies lex_lt(
                (#[trigger] out@[a])@.key,
                (#[trigger] out@[b])@.key,
            ) by {
                assert(prefix@.is_prefix_of(entries@[a].0@));
                assert(prefix@.is_prefix_of(entries@[b].0@));
                let ea = entries@[a].0@;
                let eb = entries@[b].0@;
                assert(ea =~= prefix@ + out@[a]@.key);
                assert(eb =~= prefix@ + out@[b]@.key);
                assert(lex_lt(ea, eb));
                lemma_lex_lt_common_prefix(prefix@, out@[a]@.key, out@[b]@.key);
            };
            assert forall|a: int, b: int|
                0 <= a < out@.len() && 0 <= b < out@.len() && a != b implies (#[trigger] out@[a])@.key
                != (#[trigger] out@[b])@.key by {
                if out@[a]@.key == out@[b]@.key {
                    assert(prefix@.is_prefix_of(entries@[a].0@));
                    assert(prefix@.is_prefix_of(entries@[b].0@));
                    let ea = entries@[a].0@;
                    let eb = entries@[b].0@;
                    assert(ea =~= ea.subrange(0, plen as int) + ea.subrange(
                        plen as int,
                        ea.len() as int,
                    ));
                    assert(eb =~= eb.subrange(0, plen as int) + eb.subrange(
                        plen as int,
                        eb.len() as int,
                    ));
                    assert(ea =~= eb);
                    assert(false);
                }
            };
            assert forall|k2: Seq<char>| #[trigger]
                m.contains_key((t, k2)) implies exists|j: int|
                0 <= j < out@.len() && (#[trigger] out@[j])@.key == k2 by {
                let fk = full_key_model(t, k2);
                assert(sled_rep(self.db).contains_key(fk));
                assert(prefix@.is_prefix_of(fk)) by {
                    assert(prefix@ =~= fk.subrange(0, prefix@.len() as int));
                };
                let j = choose|j: int| 0 <= j < entries@.len() && (#[trigger] entries@[j]).0@ == fk;
                assert(k2 =~= fk.subrange(plen as int, fk.len() as int));
                assert(out@[j]@.key == k2);
            };
            assert forall|j: int| 0 <= j < out@.len() implies out.deep_view()[j] == (
            #[trigger] out@[j])@ by {};
        }
        Ok(out)
    }
}

} // verus!
