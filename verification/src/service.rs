use vstd::prelude::*;
use crate::command::{
    backend_fault_response, ok_pairs_response, ok_value_response, CommandRequest, CommandResponse,
    Hdel, Hexist, Hget, Hgetall, Hmdel, Hmexists, Hmget, Hmset, Hset, RequestData, ResponseModel,
};
use crate::error::{invalid_command_message, not_found_message, KvError};
use crate::storage::{
    is_valid_key_name, is_valid_table_name, lookup_or_empty, table_listing, valid_key_name,
    valid_table_name, Storage, StoreModel,
};
use crate::value::{Kvpair, KvpairModel, Value, ValueModel};

verus! {

/// The pairs a multi-key lookup reports: the caller's keys in the
/// caller's order, each with its current value or `Empty` on a miss.
pub open spec fn mget_listing(m: StoreModel, t: Seq<char>, keys: Seq<Seq<char>>) -> Seq<
    KvpairModel,
> {
    Seq::new(
        keys.len(),
        |i: int| KvpairModel { key: keys[i], value: lookup_or_empty(m, t, keys[i]) },
    )
}

/// The pairs a multi-key existence check reports: the caller's keys in
/// the caller's order, each with a boolean value.
pub open spec fn exists_listing(m: StoreModel, t: Seq<char>, keys: Seq<Seq<char>>) -> Seq<
    KvpairModel,
> {
    Seq::new(
        keys.len(),
        |i: int| KvpairModel { key: keys[i], value: ValueModel::Bool(m.contains_key((t, keys[i]))) },
    )
}

/// The store after the given pairs are written to one table, first to
/// last; a later pair for the same key wins.
pub open spec fn apply_sets(m: StoreModel, t: Seq<char>, pairs: Seq<KvpairModel>) -> StoreModel
    decreases pairs.len(),
{
    if pairs.len() == 0 {
        m
    } else {
        apply_sets(m.insert((t, pairs[0].key), pairs[0].value), t, pairs.drop_first())
    }
}

/// The pairs a multi-key store reports: each key with the value it had
/// just before its own write (or `Empty`), so an earlier write in the
/// same batch shows through as a later key's previous value.
pub open spec fn set_priors(m: StoreModel, t: Seq<char>, pairs: Seq<KvpairModel>) -> Seq<
    KvpairModel,
>
    decreases pairs.len(),
{
    if pairs.len() == 0 {
        Seq::empty()
    } else {
        seq![KvpairModel { key: pairs[0].key, value: lookup_or_empty(m, t, pairs[0].key) }]
            + set_priors(m.insert((t, pairs[0].key), pairs[0].value), t, pairs.drop_first())
    }
}

/// The store after the given keys are removed from one table, first to
/// last.
pub open spec fn apply_dels(m: StoreModel, t: Seq<char>, keys: Seq<Seq<char>>) -> StoreModel
    decreases keys.len(),
{
    if keys.len() == 0 {
        m
    } else {
        apply_dels(m.remove((t, keys[0])), t, keys.drop_first())
    }
}

/// The pairs a multi-key removal reports: each key with the value its
/// own removal took out (or `Empty`); a duplicate key later in the
/// batch therefore reports `Empty`.
pub open spec fn del_priors(m: StoreModel, t: Seq<char>, keys: Seq<Seq<char>>) -> Seq<KvpairModel>
    decreases keys.len(),
{
    if keys.len() == 0 {
        Seq::empty()
    } else {
        seq![KvpairModel { key: keys[0], value: lookup_or_empty(m, t, keys[0]) }] + del_priors(
            m.remove((t, keys[0])),
            t,
            keys.drop_first(),
        )
    }
}

/// Writing one more pair extends `apply_sets` by one insert and
/// `set_priors` by one report, looked up in the store as it then was.
pub(crate) proof fn lemma_sets_push(m: StoreModel, t: Seq<char>, s: Seq<KvpairModel>, x: KvpairModel)
    ensures
        apply_sets(m, t, s.push(x)) == apply_sets(m, t, s).insert((t, x.key), x.value),
        set_priors(m, t, s.push(x)) == set_priors(m, t, s).push(
            KvpairModel { key: x.key, value: lookup_or_empty(apply_sets(m, t, s), t, x.key) },
        ),
    decreases s.len(),
{
    let sp = s.push(x);
    if s.len() == 0 {
        let m1 = m.insert((t, x.key), x.value);
        assert(sp[0] == x);
        assert(sp.drop_first() =~= Seq::<KvpairModel>::empty());
        assert(apply_sets(m, t, sp) == apply_sets(m1, t, sp.drop_first()));
        assert(apply_sets(m1, t, sp.drop_first()) == m1);
        assert(apply_sets(m, t, s) == m);
        assert(set_priors(m1, t, sp.drop_first()) =~= Seq::<KvpairModel>::empty());
        assert(set_priors(m, t, s) =~= Seq::<KvpairModel>::empty());
        assert(set_priors(m, t, sp) =~= set_priors(m, t, s).push(
            KvpairModel { key: x.key, value: lookup_or_empty(apply_sets(m, t, s), t, x.key) },
        ));
    } else {
        let m1 = m.insert((t, s[0].key), s[0].value);
        lemma_sets_push(m1, t, s.drop_first(), x);
        assert(sp[0] == s[0]);
        assert(sp.drop_first() =~= s.drop_first().push(x));
        assert(apply_sets(m, t, sp) == apply_sets(m1, t, sp.drop_first()));
        assert(apply_sets(m, t, s) == apply_sets(m1, t, s.drop_first()));
        assert(set_priors(m, t, sp) == seq![
            KvpairModel { key: s[0].key, value: lookup_or_empty(m, t, s[0].key) },
        ] + set_priors(m1, t, sp.drop_first()));
        assert(set_priors(m, t, sp) =~= set_priors(m, t, s).push(
            KvpairModel { key: x.key, value: lookup_or_empty(apply_sets(m, t, s), t, x.key) },
        ));
    }
}

/// Removing one more key extends `apply_dels` by one removal and
/// `del_priors` by one report, looked up in the store as it then was.
pub(crate) proof fn lemma_dels_push(m: StoreModel, t: Seq<char>, s: Seq<Seq<char>>, x: Seq<char>)
    ensures
        apply_dels(m, t, s.push(x)) == apply_dels(m, t, s).remove((t, x)),
        del_priors(m, t, s.push(x)) == del_priors(m, t, s).push(
            KvpairModel { key: x, value: lookup_or_empty(apply_dels(m, t, s), t, x) },
        ),
    decreases s.len(),
{
    let sp = s.push(x);
    if s.len() == 0 {
        let m1 = m.remove((t, x));
        assert(sp[0] == x);
        assert(sp.drop_first() =~= Seq::<Seq<char>>::empty());
        assert(apply_dels(m, t, sp) == apply_dels(m1, t, sp.drop_first()));
        assert(apply_dels(m1, t, sp.drop_first()) == m1);
        assert(apply_dels(m, t, s) == m);
        assert(del_priors(m1, t, sp.drop_first()) =~= Seq::<KvpairModel>::empty());
        assert(del_priors(m, t, s) =~= Seq::<KvpairModel>::empty());
        assert(del_priors(m, t, sp) =~= del_priors(m, t, s).push(
            KvpairModel { key: x, value: lookup_or_empty(apply_dels(m, t, s), t, x) },
        ));
    } else {
        let m1 = m.remove((t, s[0]));
        lemma_dels_push(m1, t, s.drop_first(), x);
        assert(sp[0] == s[0]);
        assert(sp.drop_first() =~= s.drop_first().push(x));
        assert(apply_dels(m, t, sp) == apply_dels(m1, t, sp.drop_first()));
        assert(apply_dels(m, t, s) == apply_dels(m1, t, s.drop_first()));
        assert(del_priors(m, t, sp) == seq![
            KvpairModel { key: s[0], value: lookup_or_empty(m, t, s[0]) },
        ] + del_priors(m1, t, sp.drop_first()));
        assert(del_priors(m, t, sp) =~= del_priors(m, t, s).push(
            KvpairModel { key: x, value: lookup_or_empty(apply_dels(m, t, s), t, x) },
        ));
    }
}

/// One command's handling: a well-formedness condition on the request
/// and an exact relation between the store before, the store after and
/// the response produced.
pub trait CommandService: Sized {
    /// The inputs the command algebra admits: non-empty, separator-free
    /// table names and non-empty keys.
    spec fn wf(&self) -> bool;

    /// How the response and the new store relate to the old store.
    /// `faultless` says whether the backend can fault at all: when it
    /// cannot, every fault branch below is ruled out and success is
    /// owed.
    spec fn post(&self, m0: StoreModel, m1: StoreModel, r: ResponseModel, faultless: bool) -> bool;

    /// Runs the command against the given backend and folds the outcome
    /// into a response envelope. Every path produces a response.
    fn execute<S: Storage>(self, store: &mut S) -> (r: CommandResponse)
        requires
            self.wf(),
        ensures
            self.post(old(store).rep(), final(store).rep(), r@, old(store).faultless()),
    ;
}

impl CommandService for Hget {
    open spec fn wf(&self) -> bool {
        valid_table_name(self.table@) && valid_key_name(self.key@)
    }

    /// A present value comes back alone with status 200; a miss is a
    /// 404 naming the table and key; only a backend that can fault may
    /// answer with a 500 instead. The store never changes.
    open spec fn post(&self, m0: StoreModel, m1: StoreModel, r: ResponseModel, faultless: bool) -> bool {
        m1 == m0 && {
            ||| (m0.contains_key((self.table@, self.key@)) && ok_value_response(
                r,
                m0[(self.table@, self.key@)],
            ))
            ||| (!m0.contains_key((self.table@, self.key@)) && r.status == 404u32 && r.message
                == not_found_message(self.table@, self.key@) && r.values.len() == 0 && r.pairs.len()
                == 0)
            ||| (!faultless && backend_fault_response(r))
        }
    }

    fn execute<S: Storage>(self, store: &mut S) -> (r: CommandResponse) {
        match store.get(self.table.as_str(), self.key.as_str()) {
            Ok(Some(v)) => CommandResponse::ok_value(v),
            Ok(None) => CommandResponse::from_error(KvError::NotFound(self.table, self.key)),
            Err(e) => CommandResponse::from_error(e),
        }
    }
}

impl CommandService for Hgetall {
    open spec fn wf(&self) -> bool {
        valid_table_name(self.table@)
    }

    /// The whole table comes back as pairs (in the backend's order)
    /// with status 200; only a backend that can fault may answer with
    /// a 500 instead. The store never changes.
    open spec fn post(&self, m0: StoreModel, m1: StoreModel, r: ResponseModel, faultless: bool) -> bool {
        m1 == m0 && {
            ||| (r.status == 200u32 && r.message.len() == 0 && r.values.len() == 0
                && table_listing(m0, self.table@, r.pairs))
            ||| (!faultless && backend_fault_response(r))
        }
    }

    fn execute<S: Storage>(self, store: &mut S) -> (r: CommandResponse) {
        match store.get_all(self.table.as_str()) {
            Ok(pairs) => CommandResponse::ok_pairs(pairs),
            Err(e) => CommandResponse::from_error(e),
        }
    }
}

impl CommandService for Hmget {
    open spec fn wf(&self) -> bool {
        valid_table_name(self.table@) && forall|i: int|
            0 <= i < self.keys@.len() ==> valid_key_name(#[trigger] self.keys@[i]@)
    }

    /// One pair per requested key, in the caller's order: the value, or
    /// `Empty` on a miss. A backend fault aborts with a 500, which only
    /// a faulting backend asked at least one lookup may answer; an
    /// empty key list always succeeds. The store never changes.
    open spec fn post(&self, m0: StoreModel, m1: StoreModel, r: ResponseModel, faultless: bool) -> bool {
        m1 == m0 && {
            ||| ok_pairs_response(r, mget_listing(m0, self.table@, self.keys.deep_view()))
            ||| (!faultless && self.keys@.len() > 0 && backend_fault_response(r))
        }
    }

    #[verifier::loop_isolation(false)]
    fn execute<S: Storage>(self, store: &mut S) -> (r: CommandResponse) {
        let Hmget { table, keys } = self;
        let ghost m0 = store.rep();
        let ghost t = table@;
        let ghost kv = keys.deep_view();
        let mut out: Vec<Kvpair> = Vec::new();
        let mut idx: usize = 0;
        while idx < keys.len()
            invariant
                idx <= keys.len(),
                kv == keys.deep_view(),
                valid_table_name(t),
                forall|i: int| 0 <= i < kv.len() ==> valid_key_name(#[trigger] kv[i]),
                t == table@,
                m0 == store.rep(),
                *store == *old(store),
                out.deep_view() == mget_listing(m0, t, kv.take(idx as int)),
            decreases keys.len() - idx,
        {
            let key = &keys[idx];
            proof {
                assert(kv[idx as int] == keys@[idx as int]@);
                assert(valid_key_name(kv[idx as int]));
            }
            let v = match store.get(table.as_str(), key.as_str()) {
                Ok(Some(v)) => v,
                Ok(None) => Value::Empty,
                Err(e) => {
                    proof {
                        assert(self.keys == keys);
                        assert(self.keys@.len() > 0);
                        assert(!old(store).faultless());
                    }
                    return CommandResponse::from_error(e);
                },
            };
            out.push(Kvpair::new(key.as_str(), v));
            proof {
                assert(kv.take(idx as int + 1) =~= kv.take(idx as int).push(kv[idx as int]));
                assert(mget_listing(m0, t, kv.take(idx as int)).len() == idx as int);
                assert(out@.len() == idx as int + 1);
                assert(out@[idx as int].deep_view() == (KvpairModel {
                    key: kv[idx as int],
                    value: lookup_or_empty(m0, t, kv[idx as int]),
                }));
                assert(forall|i: int|
                    0 <= i < idx ==> out.deep_view()[i] == mget_listing(m0, t, kv.take(idx as int))[i]);
                assert(out.deep_view() =~= mget_listing(m0, t, kv.take(idx as int + 1)));
            }
            idx = idx + 1;
        }
        proof {
            assert(kv.take(kv.len() as int) =~= kv);
        }
        CommandResponse::ok_pairs(out)
    }
}

impl CommandService for Hset {
    open spec fn wf(&self) -> bool {
        valid_table_name(self.table@) && (self.pair matches Some(p) ==> valid_key_name(p.key@))
    }

    /// The pair is written and the key's previous value (or `Empty`)
    /// comes back alone with status 200; only a backend that can fault
    /// may answer with a 500 instead, and then the write either did not
    /// happen or was fully applied. A request carrying no pair writes
    /// nothing and always reports `Empty`.
    open spec fn post(&self, m0: StoreModel, m1: StoreModel, r: ResponseModel, faultless: bool) -> bool {
        match self.pair {
            Some(p) => {
                ||| (m1 == m0.insert((self.table@, p.key@), p.value@) && ok_value_response(
                    r,
                    lookup_or_empty(m0, self.table@, p.key@),
                ))
                ||| (!faultless && backend_fault_response(r) && (m1 == m0 || m1 == m0.insert(
                    (self.table@, p.key@),
                    p.value@,
                )))
            },
            None => m1 == m0 && ok_value_response(r, ValueModel::Empty),
        }
    }

    fn execute<S: Storage>(self, store: &mut S) -> (r: CommandResponse) {
        match self.pair {
            Some(p) => {
                let Kvpair { key, value } = p;
                match store.set(self.table.as_str(), key.as_str(), value) {
                    Ok(Some(prior)) => CommandResponse::ok_value(prior),
                    Ok(None) => CommandResponse::ok_value(Value::Empty),
                    Err(e) => CommandResponse::from_error(e),
                }
            },
            None => CommandResponse::ok_value(Value::Empty),
        }
    }
}

impl CommandService for Hmset {
    open spec fn wf(&self) -> bool {
        valid_table_name(self.table@) && forall|i: int|
            0 <= i < self.pairs@.len() ==> valid_key_name(#[trigger] self.pairs@[i].key@)
    }

    /// The pairs are written first to last; the response pairs each key
    /// with the value it had just before its own write (or `Empty`).
    /// Only a backend that can fault, handed at least one pair, may
    /// abort with a 500 instead — and then some prefix of the batch
    /// was applied: earlier writes stay, nothing rolls back. An empty
    /// batch always succeeds.
    open spec fn post(&self, m0: StoreModel, m1: StoreModel, r: ResponseModel, faultless: bool) -> bool {
        ||| (m1 == apply_sets(m0, self.table@, self.pairs.deep_view()) && ok_pairs_response(
            r,
            set_priors(m0, self.table@, self.pairs.deep_view()),
        ))
        ||| (!faultless && self.pairs@.len() > 0 && backend_fault_response(r) && exists|j: int|
            0 <= j <= self.pairs@.len() && m1 == apply_sets(
                m0,
                self.table@,
                #[trigger] self.pairs.deep_view().take(j),
            ))
    }

    #[verifier::loop_isolation(false)]
    fn execute<S: Storage>(self, store: &mut S) -> (r: CommandResponse) {
        let Hmset { table, pairs } = self;
        let ghost m0 = store.rep();
        let ghost t = table@;
        let ghost pv = pairs.deep_view();
        let mut out: Vec<Kvpair> = Vec::new();
        let mut idx: usize = 0;
        while idx < pairs.len()
            invariant
                idx <= pairs.len(),
                pv == pairs.deep_view(),
                valid_table_name(t),
                forall|i: int| 0 <= i < pv.len() ==> valid_key_name(#[trigger] pv[i].key),
                t == table@,
                store.faultless() == old(store).faultless(),
                store.rep() == apply_sets(m0, t, pv.take(idx as int)),
                out.deep_view() == set_priors(m0, t, pv.take(idx as int)),
            decreases pairs.len() - idx,
        {
            let pair = &pairs[idx];
            proof {
                assert(pv[idx as int] == pairs@[idx as int].deep_view());
                assert(valid_key_name(pv[idx as int].key));
            }
            let prior = match store.set(table.as_str(), pair.key.as_str(), pair.value.clone()) {
                Ok(Some(prior)) => prior,
                Ok(None) => Value::Empty,
                Err(e) => {
                    proof {
                        assert(self.pairs == pairs);
                        assert(self.pairs@.len() > 0);
                        assert(!old(store).faultless());
                        lemma_sets_push(m0, t, pv.take(idx as int), pv[idx as int]);
                        assert(pv.take(idx as int + 1) =~= pv.take(idx as int).push(
                            pv[idx as int],
                        ));
                        if store.rep() == apply_sets(m0, t, pv.take(idx as int)) {
                            assert(store.rep() == apply_sets(
                                m0,
                                self.table@,
                                self.pairs.deep_view().take(idx as int),
                            ));
                            assert(exists|j: int|
                                0 <= j <= self.pairs@.len() && store.rep() == apply_sets(
                                    m0,
                                    self.table@,
                                    #[trigger] self.pairs.deep_view().take(j),
                                ));
                        } else {
                            assert(store.rep() == apply_sets(
                                m0,
                                self.table@,
                                self.pairs.deep_view().take(idx as int + 1),
                            ));
                            assert(exists|j: int|
                                0 <= j <= self.pairs@.len() && store.rep() == apply_sets(
                                    m0,
                                    self.table@,
                                    #[trigger] self.pairs.deep_view().take(j),
                                ));
                        }
                    }
                    return CommandResponse::from_error(e);
                },
            };
            out.push(Kvpair::new(pair.key.as_str(), prior));
            proof {
                lemma_sets_push(m0, t, pv.take(idx as int), pv[idx as int]);
                assert(pv.take(idx as int + 1) =~= pv.take(idx as int).push(pv[idx as int]));
                assert(out.deep_view() =~= set_priors(m0, t, pv.take(idx as int + 1)));
            }
            idx = idx + 1;
        }
        proof {
            assert(pv.take(pv.len() as int) =~= pv);
        }
        CommandResponse::ok_pairs(out)
    }
}

impl CommandService for Hdel {
    open spec fn wf(&self) -> bool {
        valid_table_name(self.table@) && valid_key_name(self.key@)
    }

    /// The key is removed and the value it held (or `Empty`) comes back
    /// alone with status 200; absence is not an error. Only a backend
    /// that can fault may answer with a 500 instead, and then the
    /// removal either did not happen or was fully applied.
    open spec fn post(&self, m0: StoreModel, m1: StoreModel, r: ResponseModel, faultless: bool) -> bool {
        ||| (m1 == m0.remove((self.table@, self.key@)) && ok_value_response(
            r,
            lookup_or_empty(m0, self.table@, self.key@),
        ))
        ||| (!faultless && backend_fault_response(r) && (m1 == m0 || m1 == m0.remove(
            (self.table@, self.key@),
        )))
    }

    fn execute<S: Storage>(self, store: &mut S) -> (r: CommandResponse) {
        match store.del(self.table.as_str(), self.key.as_str()) {
            Ok(Some(prior)) => CommandResponse::ok_value(prior),
            Ok(None) => CommandResponse::ok_value(Value::Empty),
            Err(e) => CommandResponse::from_error(e),
        }
    }
}

impl CommandService for Hmdel {
    open spec fn wf(&self) -> bool {
        valid_table_name(self.table@) && forall|i: int|
            0 <= i < self.keys@.len() ==> valid_key_name(#[trigger] self.keys@[i]@)
    }

    /// The keys are removed first to last; the response pairs each key
    /// with the value its own removal took out (or `Empty`). Only a
    /// backend that can fault, handed at least one key, may abort with
    /// a 500 instead — and then some prefix of the batch was applied:
    /// earlier removals stay, nothing rolls back. An empty batch
    /// always succeeds.
    open spec fn post(&self, m0: StoreModel, m1: StoreModel, r: ResponseModel, faultless: bool) -> bool {
        ||| (m1 == apply_dels(m0, self.table@, self.keys.deep_view()) && ok_pairs_response(
            r,
            del_priors(m0, self.table@, self.keys.deep_view()),
        ))
        ||| (!faultless && self.keys@.len() > 0 && backend_fault_response(r) && exists|j: int|
            0 <= j <= self.keys@.len() && m1 == apply_dels(
                m0,
                self.table@,
                #[trigger] self.keys.deep_view().take(j),
            ))
    }

    #[verifier::loop_isolation(false)]
    fn execute<S: Storage>(self, store: &mut S) -> (r: CommandResponse) {
        let Hmdel { table, keys } = self;
        let ghost m0 = store.rep();
        let ghost t = table@;
        let ghost kv = keys.deep_view();
        let mut out: Vec<Kvpair> = Vec::new();
        let mut idx: usize = 0;
        while idx < keys.len()
            invariant
                idx <= keys.len(),
                kv == keys.deep_view(),
                valid_table_name(t),
                forall|i: int| 0 <= i < kv.len() ==> valid_key_name(#[trigger] kv[i]),
                t == table@,
                store.faultless() == old(store).faultless(),
                store.rep() == apply_dels(m0, t, kv.take(idx as int)),
                out.deep_view() == del_priors(m0, t, kv.take(idx as int)),
            decreases keys.len() - idx,
        {
            let key = &keys[idx];
            proof {
                assert(kv[idx as int] == keys@[idx as int]@);
                assert(valid_key_name(kv[idx as int]));
            }
            let prior = match store.del(table.as_str(), key.as_str()) {
                Ok(Some(prior)) => prior,
                Ok(None) => Value::Empty,
                Err(e) => {
                    proof {
                        assert(self.keys == keys);
                        assert(self.keys@.len() > 0);
                        assert(!old(store).faultless());
                        lemma_dels_push(m0, t, kv.take(idx as int), kv[idx as int]);
                        assert(kv.take(idx as int + 1) =~= kv.take(idx as int).push(
                            kv[idx as int],
                        ));
                        if store.rep() == apply_dels(m0, t, kv.take(idx as int)) {
                            assert(store.rep() == apply_dels(
                                m0,
                                self.table@,
                                self.keys.deep_view().take(idx as int),
                            ));
                            assert(exists|j: int|
                                0 <= j <= self.keys@.len() && store.rep() == apply_dels(
                                    m0,
                                    self.table@,
                                    #[trigger] self.keys.deep_view().take(j),
                                ));
                        } else {
                            assert(store.rep() == apply_dels(
                                m0,
                                self.table@,
                                self.keys.deep_view().take(idx as int + 1),
                            ));
                            assert(exists|j: int|
                                0 <= j <= self.keys@.len() && store.rep() == apply_dels(
                                    m0,
                                    self.table@,
                                    #[trigger] self.keys.deep_view().take(j),
                                ));
                        }
                    }
                    return CommandResponse::from_error(e);
                },
            };
            out.push(Kvpair::new(key.as_str(), prior));
            proof {
                lemma_dels_push(m0, t, kv.take(idx as int), kv[idx as int]);
                assert(kv.take(idx as int + 1) =~= kv.take(idx as int).push(kv[idx as int]));
                assert(out.deep_view() =~= del_priors(m0, t, kv.take(idx as int + 1)));
            }
            idx = idx + 1;
        }
        proof {
            assert(kv.take(kv.len() as int) =~= kv);
        }
        CommandResponse::ok_pairs(out)
    }
}

impl CommandService for Hexist {
    open spec fn wf(&self) -> bool {
        valid_table_name(self.table@) && valid_key_name(self.key@)
    }

    /// One pair comes back: the key with a boolean value saying whether
    /// it currently holds anything. Only a backend that can fault may
    /// answer with a 500 instead. The store never changes.
    open spec fn post(&self, m0: StoreModel, m1: StoreModel, r: ResponseModel, faultless: bool) -> bool {
        m1 == m0 && {
            ||| ok_pairs_response(
                r,
                seq![
                    KvpairModel {
                        key: self.key@,
                        value: ValueModel::Bool(m0.contains_key((self.table@, self.key@))),
                    },
                ],
            )
            ||| (!faultless && backend_fault_response(r))
        }
    }

    fn execute<S: Storage>(self, store: &mut S) -> (r: CommandResponse) {
        match store.contains(self.table.as_str(), self.key.as_str()) {
            Ok(b) => {
                let ghost km = self.key@;
                let ghost bm = b;
                let mut out: Vec<Kvpair> = Vec::new();
                out.push(Kvpair::new(self.key.as_str(), Value::Bool(b)));
                proof {
                    assert(out.deep_view() =~= seq![
                        KvpairModel { key: km, value: ValueModel::Bool(bm) },
                    ]);
                }
                CommandResponse::ok_pairs(out)
            },
            Err(e) => CommandResponse::from_error(e),
        }
    }
}

impl CommandService for Hmexists {
    open spec fn wf(&self) -> bool {
        valid_table_name(self.table@) && forall|i: int|
            0 <= i < self.keys@.len() ==> valid_key_name(#[trigger] self.keys@[i]@)
    }

    /// One pair per requested key, in the caller's order, each with a
    /// boolean value. A backend fault aborts with a 500, which only a
    /// faulting backend asked at least one check may answer; an empty
    /// key list always succeeds. The store never changes.
    open spec fn post(&self, m0: StoreModel, m1: StoreModel, r: ResponseModel, faultless: bool) -> bool {
        m1 == m0 && {
            ||| ok_pairs_response(r, exists_listing(m0, self.table@, self.keys.deep_view()))
            ||| (!faultless && self.keys@.len() > 0 && backend_fault_response(r))
        }
    }

    #[verifier::loop_isolation(false)]
    fn execute<S: Storage>(self, store: &mut S) -> (r: CommandResponse) {
        let Hmexists { table, keys } = self;
        let ghost m0 = store.rep();
        let ghost t = table@;
        let ghost kv = keys.deep_view();
        let mut out: Vec<Kvpair> = Vec::new();
        let mut idx: usize = 0;
        while idx < keys.len()
            invariant
                idx <= keys.len(),
                kv == keys.deep_view(),
                valid_table_name(t),
                forall|i: int| 0 <= i < kv.len() ==> valid_key_name(#[trigger] kv[i]),
                t == table@,
                m0 == store.rep(),
                *store == *old(store),
                out.deep_view() == exists_listing(m0, t, kv.take(idx as int)),
            decreases keys.len() - idx,
        {
            let key = &keys[idx];
            proof {
                assert(kv[idx as int] == keys@[idx as int]@);
                assert(valid_key_name(kv[idx as int]));
            }
            let b = match store.contains(table.as_str(), key.as_str()) {
                Ok(b) => b,
                Err(e) => {
                    proof {
                        assert(self.keys == keys);
                        assert(self.keys@.len() > 0);
                        assert(!old(store).faultless());
                    }
                    return CommandResponse::from_error(e);
                },
            };
            out.push(Kvpair::new(key.as_str(), Value::Bool(b)));
            proof {
                assert(kv.take(idx as int + 1) =~= kv.take(idx as int).push(kv[idx as int]));
                assert(exists_listing(m0, t, kv.take(idx as int)).len() == idx as int);
                assert(out@[idx as int].deep_view() == (KvpairModel {
                    key: kv[idx as int],
                    value: ValueModel::Bool(m0.contains_key((t, kv[idx as int]))),
                }));
                assert(forall|i: int|
                    0 <= i < idx ==> out.deep_view()[i] == exists_listing(
                        m0,
                        t,
                        kv.take(idx as int),
                    )[i]);
                assert(out.deep_view() =~= exists_listing(m0, t, kv.take(idx as int + 1)));
            }
            idx = idx + 1;
        }
        proof {
            assert(kv.take(kv.len() as int) =~= kv);
        }
        CommandResponse::ok_pairs(out)
    }
}

/// The response to a request with no populated variant: a 400 whose
/// message says the request carried no data.
pub open spec fn invalid_request_response(r: ResponseModel) -> bool {
    &&& r.status == 400u32
    &&& r.message == invalid_command_message("request has no data"@)
    &&& r.values.len() == 0
    &&& r.pairs.len() == 0
}

/// What the inputs of a whole request must satisfy, variant by variant.
pub open spec fn request_wf(req: CommandRequest) -> bool {
    match req.request_data {
        Some(RequestData::Hget(c)) => c.wf(),
        Some(RequestData::Hgetall(c)) => c.wf(),
        Some(RequestData::Hmget(c)) => c.wf(),
        Some(RequestData::Hset(c)) => c.wf(),
        Some(RequestData::Hmset(c)) => c.wf(),
        Some(RequestData::Hdel(c)) => c.wf(),
        Some(RequestData::Hmdel(c)) => c.wf(),
        Some(RequestData::Hexist(c)) => c.wf(),
        Some(RequestData::Hmexists(c)) => c.wf(),
        None => true,
    }
}

/// The whole dispatcher contract: each populated variant behaves as its
/// command's `post` says — on a faultless backend the fault answers
/// are ruled out, so success is owed; an unpopulated request changes
/// nothing and is answered with a 400.
pub open spec fn dispatch_post(
    req: CommandRequest,
    m0: StoreModel,
    m1: StoreModel,
    r: ResponseModel,
    faultless: bool,
) -> bool {
    match req.request_data {
        Some(RequestData::Hget(c)) => c.post(m0, m1, r, faultless),
        Some(RequestData::Hgetall(c)) => c.post(m0, m1, r, faultless),
        Some(RequestData::Hmget(c)) => c.post(m0, m1, r, faultless),
        Some(RequestData::Hset(c)) => c.post(m0, m1, r, faultless),
        Some(RequestData::Hmset(c)) => c.post(m0, m1, r, faultless),
        Some(RequestData::Hdel(c)) => c.post(m0, m1, r, faultless),
        Some(RequestData::Hmdel(c)) => c.post(m0, m1, r, faultless),
        Some(RequestData::Hexist(c)) => c.post(m0, m1, r, faultless),
        Some(RequestData::Hmexists(c)) => c.post(m0, m1, r, faultless),
        None => m1 == m0 && invalid_request_response(r),
    }
}

/// Whether every key in the list is a valid key name.
fn all_keys_valid(keys: &Vec<String>) -> (r: bool)
    ensures
        r == (forall|i: int| 0 <= i < keys@.len() ==> valid_key_name(#[trigger] keys@[i]@)),
{
    let mut i: usize = 0;
    while i < keys.len()
        invariant
            i <= keys@.len(),
            forall|j: int| 0 <= j < i ==> valid_key_name(#[trigger] keys@[j]@),
        decreases keys@.len() - i,
    {
        if !is_valid_key_name(keys[i].as_str()) {
            proof {
                assert(!valid_key_name(keys@[i as int]@));
            }
            return false;
        }
        i = i + 1;
    }
    true
}

/// Whether every pair in the list carries a valid key name.
fn all_pair_keys_valid(pairs: &Vec<Kvpair>) -> (r: bool)
    ensures
        r == (forall|i: int| 0 <= i < pairs@.len() ==> valid_key_name(#[trigger] pairs@[i].key@)),
{
    let mut i: usize = 0;
    while i < pairs.len()
        invariant
            i <= pairs@.len(),
            forall|j: int| 0 <= j < i ==> valid_key_name(#[trigger] pairs@[j].key@),
        decreases pairs@.len() - i,
    {
        if !is_valid_key_name(pairs[i].key.as_str()) {
            proof {
                assert(!valid_key_name(pairs@[i as int].key@));
            }
            return false;
        }
        i = i + 1;
    }
    true
}

/// Decides `request_wf` at run time, so that a transport holding a
/// freshly decoded request can establish dispatch's precondition
/// before calling it.
pub fn is_request_wf(req: &CommandRequest) -> (r: bool)
    ensures
        r == request_wf(*req),
{
    match &req.request_data {
        Some(RequestData::Hget(c)) => is_valid_table_name(c.table.as_str()) && is_valid_key_name(
            c.key.as_str(),
        ),
        Some(RequestData::Hgetall(c)) => is_valid_table_name(c.table.as_str()),
        Some(RequestData::Hmget(c)) => is_valid_table_name(c.table.as_str()) && all_keys_valid(
            &c.keys,
        ),
        Some(RequestData::Hset(c)) => is_valid_table_name(c.table.as_str()) && match &c.pair {
            Some(p) => is_valid_key_name(p.key.as_str()),
            None => true,
        },
        Some(RequestData::Hmset(c)) => is_valid_table_name(c.table.as_str()) && all_pair_keys_valid(
            &c.pairs,
        ),
        Some(RequestData::Hdel(c)) => is_valid_table_name(c.table.as_str()) && is_valid_key_name(
            c.key.as_str(),
        ),
        Some(RequestData::Hmdel(c)) => is_valid_table_name(c.table.as_str()) && all_keys_valid(
            &c.keys,
        ),
        Some(RequestData::Hexist(c)) => is_valid_table_name(c.table.as_str()) && is_valid_key_name(
            c.key.as_str(),
        ),
        Some(RequestData::Hmexists(c)) => is_valid_table_name(c.table.as_str()) && all_keys_valid(
            &c.keys,
        ),
        None => true,
    }
}

/// Hands a request to whichever backend was injected and folds the
/// outcome into a response. Every path produces a response; nothing
/// here panics or escalates.
pub fn dispatch<S: Storage>(req: CommandRequest, store: &mut S) -> (r: CommandResponse)
    requires
        request_wf(req),
    ensures
        dispatch_post(req, old(store).rep(), final(store).rep(), r@, old(store).faultless()),
{
    match req.request_data {
        Some(data) => match data {
            RequestData::Hget(cmd) => cmd.execute(store),
            RequestData::Hgetall(cmd) => cmd.execute(store),
            RequestData::Hmget(cmd) => cmd.execute(store),
            RequestData::Hset(cmd) => cmd.execute(store),
            RequestData::Hmset(cmd) => cmd.execute(store),
            RequestData::Hdel(cmd) => cmd.execute(store),
            RequestData::Hmdel(cmd) => cmd.execute(store),
            RequestData::Hexist(cmd) => cmd.execute(store),
            RequestData::Hmexists(cmd) => cmd.execute(store),
        },
        None => CommandResponse::from_error(
            KvError::InvalidCommand("request has no data".to_owned()),
        ),
    }
}

} // verus!
