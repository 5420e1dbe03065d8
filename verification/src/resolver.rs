//! The rate resolver and the queue reconciler: given a (base currency,
//! date) pair, hand back a usable snapshot, consulting the snapshot store
//! first; classify provider responses; and maintain the retry queue. The
//! provider call itself is the caller's: a resolve that misses the store
//! names the symbol to fetch, and the response is handed back in.

use vstd::prelude::*;
use vstd::map::*;

use crate::classify::classify;
use crate::classify::spec_classify;
use crate::date::Date;
use crate::errors::RateError;
use crate::fiat::FiatModel;
use crate::fiat::FiatRegistry;
use crate::queue::QueueItemModel;
use crate::queue::RetryQueue;
use crate::queue::spec_bumped;
use crate::queue::spec_upserted;
use crate::rates::RATE_SCALE;
use crate::rates::RateMap;
use crate::store::FiatExchangeRate;
use crate::store::RateKey;
use crate::store::SnapshotModel;
use crate::store::SnapshotStore;

verus! {

/// What a provider reported for one request: the date the rates are for
/// (which may lag the requested date) and the rate mapping.
#[derive(Debug)]
pub struct ProviderRates {
    pub date: Date,
    pub rates: RateMap,
}

/// The outcome of consulting the snapshot store: a usable snapshot, or the
/// base currency's symbol for which the provider must be asked.
#[derive(Debug)]
pub enum ResolveStep {
    Resolved(FiatExchangeRate),
    NeedsFetch(String),
}

/// The store key of a (base currency, date) pair.
pub open spec fn rate_key(base_fiat_id: i64, date: Date) -> RateKey {
    RateKey { base_fiat_id, date }
}

/// Whether resolving a key must ask the provider: only when no snapshot is
/// stored for it.
pub open spec fn needs_provider_fetch(
    snapshots: Map<RateKey, SnapshotModel>,
    key: RateKey,
) -> bool {
    !snapshots.contains_key(key)
}

/// The snapshot built from a provider response: classified against the
/// requested date, with the base currency's own rate of one added to the
/// mapping, and stored under the requested date.
pub open spec fn spec_built_snapshot(
    base_fiat_id: i64,
    date: Date,
    provider_date: Date,
    provider_rates: Map<Seq<char>, u64>,
    symbol: Seq<char>,
    name: Seq<char>,
) -> SnapshotModel {
    let st = spec_classify(date, provider_date);
    SnapshotModel {
        base_fiat_id,
        symbol,
        name,
        date,
        is_estimated: st.is_estimated,
        is_non_working_day: st.is_non_working_day,
        non_working_day_reason: st.reason,
        rates: provider_rates.insert(symbol, RATE_SCALE),
    }
}

/// One more failed attempt was counted against every queue entry waiting on
/// `key`; all other entries are untouched.
pub open spec fn queue_bumped_for_key(
    q0: Map<Seq<char>, QueueItemModel>,
    q1: Map<Seq<char>, QueueItemModel>,
    key: RateKey,
    msg: Seq<char>,
    now: i64,
) -> bool {
    &&& forall|s: Seq<char>| #![auto] q1.contains_key(s) == q0.contains_key(s)
    &&& forall|s: Seq<char>| #![auto]
        q0.contains_key(s) ==> q1[s] == (if q0[s].rate_key() == key {
            spec_bumped(q0[s], msg, now)
        } else {
            q0[s]
        })
}

/// Every queue entry waiting on `key` is gone, and, when a transaction id
/// is given, so is that transaction's entry; all other entries are
/// untouched.
pub open spec fn queue_cleared_for_key(
    q0: Map<Seq<char>, QueueItemModel>,
    q1: Map<Seq<char>, QueueItemModel>,
    key: RateKey,
    rid: Option<Seq<char>>,
) -> bool {
    &&& forall|s: Seq<char>| #![auto]
        q1.contains_key(s) <==> q0.contains_key(s) && q0[s].rate_key() != key && rid != Some(s)
    &&& forall|s: Seq<char>| #![auto] q1.contains_key(s) ==> q1[s] == q0[s]
}

/// The queue entry an upsert for `rid` leaves behind, written over the
/// whole queue.
pub open spec fn queue_upserted(
    q0: Map<Seq<char>, QueueItemModel>,
    rid: Seq<char>,
    base_fiat_id: i64,
    date: Date,
    msg: Option<Seq<char>>,
    now: i64,
) -> Map<Seq<char>, QueueItemModel> {
    q0.insert(
        rid,
        spec_upserted(
            if q0.contains_key(rid) {
                Some(q0[rid])
            } else {
                None
            },
            rid,
            base_fiat_id,
            date,
            msg,
            now,
        ),
    )
}

/// A provider answer the sweep can take: the key's date and, on success,
/// the reported date and rate mapping are well formed.
pub open spec fn response_wf(item: (RateKey, Result<ProviderRates, String>)) -> bool {
    &&& item.0.date.wf()
    &&& match item.1 {
        Ok(pr) => pr.rates.wf() && pr.date.wf(),
        Err(_) => true,
    }
}

/// No answer in the sweep names this key.
pub open spec fn key_not_swept(
    responses: Seq<(RateKey, Result<ProviderRates, String>)>,
    k: RateKey,
) -> bool {
    forall|i: int| 0 <= i < responses.len() ==> (#[trigger] responses[i]).0 != k
}

/// No later answer names the same key as answer `i`.
pub open spec fn no_later_duplicate(
    responses: Seq<(RateKey, Result<ProviderRates, String>)>,
    i: int,
) -> bool {
    forall|j: int| i < j < responses.len() ==> (#[trigger] responses[j]).0 != responses[i].0
}

/// No other answer names the same key as answer `i`.
pub open spec fn unique_key_at(
    responses: Seq<(RateKey, Result<ProviderRates, String>)>,
    i: int,
) -> bool {
    forall|j: int|
        0 <= j < responses.len() && j != i ==> (#[trigger] responses[j]).0 != responses[i].0
}

/// What a sweep answer leaves in the snapshot store: a successful answer
/// for a registered currency is stored, classified against the key's date.
pub open spec fn sweep_snapshot_outcome(
    fiats: Map<i64, FiatModel>,
    snapshots: Map<RateKey, SnapshotModel>,
    item: (RateKey, Result<ProviderRates, String>),
) -> bool {
    match item.1 {
        Ok(pr) => fiats.contains_key(item.0.base_fiat_id) ==> snapshots.contains_key(item.0)
            && snapshots[item.0] == spec_built_snapshot(
            item.0.base_fiat_id,
            item.0.date,
            pr.date,
            pr.rates@,
            fiats[item.0.base_fiat_id].symbol,
            fiats[item.0.base_fiat_id].name,
        ),
        Err(_) => true,
    }
}

/// What a sweep answer does to one queue entry waiting on its key: a
/// failure or a retryable estimate counts one more error; a terminal
/// classification removes the entry; an unregistered currency leaves it.
pub open spec fn sweep_queue_entry_outcome(
    fiats: Map<i64, FiatModel>,
    q0: Map<Seq<char>, QueueItemModel>,
    q1: Map<Seq<char>, QueueItemModel>,
    item: (RateKey, Result<ProviderRates, String>),
    now: i64,
    s: Seq<char>,
) -> bool {
    match item.1 {
        Err(e) => q1.contains_key(s) && q1[s] == spec_bumped(q0[s], e@, now),
        Ok(pr) => if !fiats.contains_key(item.0.base_fiat_id) {
            q1.contains_key(s) && q1[s] == q0[s]
        } else if spec_classify(item.0.date, pr.date).should_retry {
            q1.contains_key(s) && q1[s] == spec_bumped(
                q0[s],
                "Fallback inserted: 1 day diff"@,
                now,
            )
        } else {
            !q1.contains_key(s)
        },
    }
}

/// What a sweep answer does to every queue entry waiting on its key.
pub open spec fn sweep_queue_outcome(
    fiats: Map<i64, FiatModel>,
    q0: Map<Seq<char>, QueueItemModel>,
    q1: Map<Seq<char>, QueueItemModel>,
    item: (RateKey, Result<ProviderRates, String>),
    now: i64,
) -> bool {
    forall|s: Seq<char>| #![auto]
        q0.contains_key(s) && q0[s].rate_key() == item.0 ==> sweep_queue_entry_outcome(
            fiats,
            q0,
            q1,
            item,
            now,
            s,
        )
}

/// A key with a stored snapshot is never fetched again: a cached resolve
/// answers from the store and leaves the store unchanged, so no number of
/// further resolves for that key asks the provider a second time.
pub proof fn lemma_resolved_key_needs_no_fetch(
    snapshots: Map<RateKey, SnapshotModel>,
    key: RateKey,
)
    requires
        snapshots.contains_key(key),
    ensures
        !needs_provider_fetch(snapshots, key),
{
}

/// The exchange-rate resolution engine: the currency registry, the snapshot
/// store, and the retry queue.
#[derive(Debug)]
pub struct RateEngine {
    pub fiats: FiatRegistry,
    pub snapshots: SnapshotStore,
    pub queue: RetryQueue,
}

impl RateEngine {
    pub open spec fn wf(&self) -> bool {
        &&& self.fiats.wf()
        &&& self.snapshots.wf()
        &&& self.queue.wf()
    }

    /// A fresh engine with nothing registered, stored, or queued.
    pub fn new() -> (r: RateEngine)
        ensures
            r.wf(),
            r.fiats@ == Map::<i64, crate::fiat::FiatModel>::empty(),
            r.snapshots@ == Map::<RateKey, SnapshotModel>::empty(),
            r.queue@ == Map::<Seq<char>, QueueItemModel>::empty(),
    {
        RateEngine {
            fiats: FiatRegistry::new(),
            snapshots: SnapshotStore::new(),
            queue: RetryQueue::new(),
        }
    }

    /// The first step of resolving a (base currency, date) pair: consult
    /// the snapshot store. A stored snapshot is returned as it stands — the
    /// provider is never asked for a key that has one — and the
    /// transaction's queue entry is settled: removed when the snapshot is
    /// exact or a genuine non-working day, refreshed when the snapshot is a
    /// retry-eligible estimate. Only a missing snapshot asks the caller to
    /// fetch, naming the base currency's symbol.
    pub fn resolve_cached(
        &mut self,
        base_fiat_id: i64,
        date: Date,
        fiat_ramp_id: Option<&str>,
        now: i64,
    ) -> (r: Result<ResolveStep, RateError>)
        requires
            old(self).wf(),
            date.wf(),
        ensures
            final(self).wf(),
            final(self).snapshots@ == old(self).snapshots@,
            final(self).fiats == old(self).fiats,
            match r {
                Ok(ResolveStep::Resolved(snap)) => {
                    &&& old(self).snapshots@.contains_key(rate_key(base_fiat_id, date))
                    &&& snap@ == old(self).snapshots@[rate_key(base_fiat_id, date)]
                    &&& snap.wf()
                    &&& match fiat_ramp_id {
                        None => final(self).queue@ == old(self).queue@,
                        Some(rid) => if !snap.is_estimated || snap.is_non_working_day {
                            final(self).queue@ == old(self).queue@.remove(rid@)
                        } else {
                            final(self).queue@ == queue_upserted(
                                old(self).queue@,
                                rid@,
                                base_fiat_id,
                                date,
                                Some("Using estimated rate"@),
                                now,
                            )
                        },
                    }
                },
                Ok(ResolveStep::NeedsFetch(symbol)) => {
                    &&& needs_provider_fetch(old(self).snapshots@, rate_key(base_fiat_id, date))
                    &&& old(self).fiats@.contains_key(base_fiat_id)
                    &&& symbol@ == old(self).fiats@[base_fiat_id].symbol
                    &&& final(self).queue@ == old(self).queue@
                },
                Err(RateError::UnknownCurrency(id)) => {
                    &&& id == base_fiat_id
                    &&& needs_provider_fetch(old(self).snapshots@, rate_key(base_fiat_id, date))
                    &&& !old(self).fiats@.contains_key(base_fiat_id)
                    &&& final(self).queue@ == old(self).queue@
                },
                _ => false,
            },
    {
        let cached: Option<FiatExchangeRate> = match self.snapshots.get(base_fiat_id, date) {
            Some(s) => Some(s.clone()),
            None => None,
        };
        match cached {
            Some(snap) => {
                if let Some(rid) = fiat_ramp_id {
                    if !snap.is_estimated || snap.is_non_working_day {
                        self.queue.remove_by_ramp_id(rid);
                    } else {
                        self.queue.upsert_item(
                            rid,
                            base_fiat_id,
                            date,
                            Some("Using estimated rate"),
                            now,
                        );
                    }
                }
                Ok(ResolveStep::Resolved(snap))
            },
            None => {
                match self.fiats.get_fiat_by_id(base_fiat_id) {
                    Some(f) => Ok(ResolveStep::NeedsFetch(f.symbol.clone())),
                    None => Err(RateError::UnknownCurrency(base_fiat_id)),
                }
            },
        }
    }

    /// Classifies a provider response against the requested date, adds the
    /// base currency's own rate of one, and stores the snapshot under the
    /// requested date, replacing any snapshot already held for the key.
    /// Also reports whether the request should stay on the retry queue.
    fn process_and_insert_rate(
        &mut self,
        base_fiat_id: i64,
        target_date: Date,
        api_rates: ProviderRates,
        base_symbol: String,
        base_name: String,
    ) -> (r: (FiatExchangeRate, bool))
        requires
            old(self).wf(),
            target_date.wf(),
            api_rates.rates.wf(),
            api_rates.date.wf(),
        ensures
            final(self).wf(),
            final(self).fiats == old(self).fiats,
            final(self).queue == old(self).queue,
            r.0@ == spec_built_snapshot(
                base_fiat_id,
                target_date,
                api_rates.date,
                api_rates.rates@,
                base_symbol@,
                base_name@,
            ),
            r.0.wf(),
            r.0.spec_key() == rate_key(base_fiat_id, target_date),
            r.1 == spec_classify(target_date, api_rates.date).should_retry,
            final(self).snapshots@ == old(self).snapshots@.insert(
                rate_key(base_fiat_id, target_date),
                r.0@,
            ),
    {
        let status = classify(target_date, api_rates.date);
        let mut rates = api_rates.rates;
        rates.insert(base_symbol.as_str(), RATE_SCALE);
        let snapshot = FiatExchangeRate {
            base_fiat_id,
            symbol: base_symbol,
            name: base_name,
            date: target_date,
            is_estimated: status.is_estimated,
            is_non_working_day: status.is_non_working_day,
            non_working_day_reason: status.reason,
            rates,
        };
        proof {
            assert(snapshot.wf());
        }
        self.snapshots.upsert(snapshot.clone());
        (snapshot, status.should_retry)
    }

    /// The second step of resolving: fold the provider's answer in. A
    /// failure is recorded against the transaction's queue entry and
    /// surfaced; nothing is stored. A response is classified and stored,
    /// and the queue entry is settled: kept and refreshed for a retryable
    /// estimate, dropped for any terminal outcome, together with every
    /// other transaction waiting on the same key.
    pub fn resolve_with_response(
        &mut self,
        base_fiat_id: i64,
        date: Date,
        fiat_ramp_id: Option<&str>,
        response: Result<ProviderRates, String>,
        now: i64,
    ) -> (r: Result<FiatExchangeRate, RateError>)
        requires
            old(self).wf(),
            date.wf(),
            match response {
                Ok(pr) => pr.rates.wf() && pr.date.wf(),
                Err(_) => true,
            },
        ensures
            final(self).wf(),
            final(self).fiats == old(self).fiats,
            match response {
                Err(e) => {
                    &&& match r {
                        Err(RateError::Provider(m)) => m@ == e@,
                        _ => false,
                    }
                    &&& final(self).snapshots@ == old(self).snapshots@
                    &&& match fiat_ramp_id {
                        None => final(self).queue@ == old(self).queue@,
                        Some(rid) => final(self).queue@ == queue_upserted(
                            old(self).queue@,
                            rid@,
                            base_fiat_id,
                            date,
                            Some(e@),
                            now,
                        ),
                    }
                },
                Ok(pr) => if !old(self).fiats@.contains_key(base_fiat_id) {
                    &&& r matches Err(RateError::UnknownCurrency(id)) && id == base_fiat_id
                    &&& final(self).snapshots@ == old(self).snapshots@
                    &&& final(self).queue@ == old(self).queue@
                } else {
                    let model = spec_built_snapshot(
                        base_fiat_id,
                        date,
                        pr.date,
                        pr.rates@,
                        old(self).fiats@[base_fiat_id].symbol,
                        old(self).fiats@[base_fiat_id].name,
                    );
                    let st = spec_classify(date, pr.date);
                    &&& match r {
                        Ok(snap) => snap@ == model && snap.wf(),
                        _ => false,
                    }
                    &&& final(self).snapshots@ == old(self).snapshots@.insert(
                        rate_key(base_fiat_id, date),
                        model,
                    )
                    &&& if st.should_retry {
                        match fiat_ramp_id {
                            None => final(self).queue@ == old(self).queue@,
                            Some(rid) => final(self).queue@ == queue_upserted(
                                old(self).queue@,
                                rid@,
                                base_fiat_id,
                                date,
                                Some("Fallback: 1 day difference"@),
                                now,
                            ),
                        }
                    } else {
                        queue_cleared_for_key(
                            old(self).queue@,
                            final(self).queue@,
                            rate_key(base_fiat_id, date),
                            match fiat_ramp_id {
                                None => None,
                                Some(rid) => Some(rid@),
                            },
                        )
                    }
                },
            },
    {
        match response {
            Err(e) => {
                if let Some(rid) = fiat_ramp_id {
                    self.queue.upsert_item(rid, base_fiat_id, date, Some(e.as_str()), now);
                }
                Err(RateError::Provider(e))
            },
            Ok(pr) => {
                let (base_symbol, base_name) = match self.fiats.get_fiat_by_id(base_fiat_id) {
                    Some(f) => (f.symbol.clone(), f.name.clone()),
                    None => {
                        return Err(RateError::UnknownCurrency(base_fiat_id));
                    },
                };
                let (snapshot, should_retry) = self.process_and_insert_rate(
                    base_fiat_id,
                    date,
                    pr,
                    base_symbol,
                    base_name,
                );
                if should_retry {
                    if let Some(rid) = fiat_ramp_id {
                        self.queue.upsert_item(
                            rid,
                            base_fiat_id,
                            date,
                            Some("Fallback: 1 day difference"),
                            now,
                        );
                    }
                } else {
                    self.queue.remove_by_rate_key(base_fiat_id, date);
                    if let Some(rid) = fiat_ramp_id {
                        self.queue.remove_by_ramp_id(rid);
                    }
                }
                Ok(snapshot)
            },
        }
    }

    /// One reconciliation step for a queued (base currency, date) key,
    /// given the provider's answer. An exact answer stores the snapshot and
    /// clears every transaction waiting on the key; any other terminal
    /// classification does the same; a retryable estimate is stored but the
    /// waiters stay, each with one more error counted; a provider failure
    /// only counts an error against the waiters. An unregistered currency
    /// changes nothing.
    pub fn reconcile_with_response(
        &mut self,
        base_fiat_id: i64,
        date: Date,
        response: Result<ProviderRates, String>,
        now: i64,
    )
        requires
            old(self).wf(),
            date.wf(),
            match response {
                Ok(pr) => pr.rates.wf() && pr.date.wf(),
                Err(_) => true,
            },
        ensures
            final(self).wf(),
            final(self).fiats == old(self).fiats,
            match response {
                Err(e) => {
                    &&& final(self).snapshots@ == old(self).snapshots@
                    &&& queue_bumped_for_key(
                        old(self).queue@,
                        final(self).queue@,
                        rate_key(base_fiat_id, date),
                        e@,
                        now,
                    )
                },
                Ok(pr) => if !old(self).fiats@.contains_key(base_fiat_id) {
                    &&& final(self).snapshots@ == old(self).snapshots@
                    &&& final(self).queue@ == old(self).queue@
                } else {
                    let model = spec_built_snapshot(
                        base_fiat_id,
                        date,
                        pr.date,
                        pr.rates@,
                        old(self).fiats@[base_fiat_id].symbol,
                        old(self).fiats@[base_fiat_id].name,
                    );
                    let st = spec_classify(date, pr.date);
                    &&& final(self).snapshots@ == old(self).snapshots@.insert(
                        rate_key(base_fiat_id, date),
                        model,
                    )
                    &&& if st.should_retry {
                        queue_bumped_for_key(
                            old(self).queue@,
                            final(self).queue@,
                            rate_key(base_fiat_id, date),
                            "Fallback inserted: 1 day diff"@,
                            now,
                        )
                    } else {
                        queue_cleared_for_key(
                            old(self).queue@,
                            final(self).queue@,
                            rate_key(base_fiat_id, date),
                            None,
                        )
                    }
                },
            },
    {
        match response {
            Err(e) => {
                self.queue.increment_error_by_rate_key(base_fiat_id, date, e.as_str(), now);
            },
            Ok(pr) => {
                let (base_symbol, base_name) = match self.fiats.get_fiat_by_id(base_fiat_id) {
                    Some(f) => (f.symbol.clone(), f.name.clone()),
                    None => {
                        return;
                    },
                };
                let (_, should_retry) = self.process_and_insert_rate(
                    base_fiat_id,
                    date,
                    pr,
                    base_symbol,
                    base_name,
                );
                if should_retry {
                    self.queue.increment_error_by_rate_key(
                        base_fiat_id,
                        date,
                        "Fallback inserted: 1 day diff",
                        now,
                    );
                } else {
                    self.queue.remove_by_rate_key(base_fiat_id, date);
                }
            },
        }
    }

    /// One reconciliation sweep over pre-fetched provider answers, one per
    /// queued key: each answer is folded in as `reconcile_with_response`
    /// says, best-effort, and no failure stops the sweep. A key's last
    /// answer decides its stored snapshot; an answer for a key no other
    /// answer shares decides the fate of every entry waiting on it; keys no
    /// answer names keep their entries untouched; and the sweep never adds
    /// entries or re-keys one.
    pub fn process_missing_rates(
        &mut self,
        responses: Vec<(RateKey, Result<ProviderRates, String>)>,
        now: i64,
    )
        requires
            old(self).wf(),
            forall|i: int| #![auto]
                0 <= i < responses@.len() ==> response_wf(responses@[i]),
        ensures
            final(self).wf(),
            final(self).fiats == old(self).fiats,
            forall|k: RateKey| #![auto]
                old(self).snapshots@.contains_key(k) ==> final(self).snapshots@.contains_key(k),
            forall|s: Seq<char>| #![auto]
                final(self).queue@.contains_key(s) ==> old(self).queue@.contains_key(s)
                    && final(self).queue@[s].rate_key() == old(self).queue@[s].rate_key(),
            forall|s: Seq<char>| #![auto]
                old(self).queue@.contains_key(s) && key_not_swept(
                    responses@,
                    old(self).queue@[s].rate_key(),
                ) ==> final(self).queue@.contains_key(s) && final(self)
                    .queue@[s] == old(self).queue@[s],
            forall|i: int| #![auto]
                0 <= i < responses@.len() && no_later_duplicate(responses@, i)
                    ==> sweep_snapshot_outcome(
                    old(self).fiats@,
                    final(self).snapshots@,
                    responses@[i],
                ),
            forall|i: int| #![auto]
                0 <= i < responses@.len() && unique_key_at(responses@, i)
                    ==> sweep_queue_outcome(
                    old(self).fiats@,
                    old(self).queue@,
                    final(self).queue@,
                    responses@[i],
                    now,
                ),
    {
        let ghost all = responses@;
        let mut remaining = responses;
        let mut done: Ghost<int> = Ghost(0);
        while remaining.len() > 0
            invariant
                self.wf(),
                self.fiats == old(self).fiats,
                0 <= done@ <= all.len(),
                remaining@ == all.subrange(done@, all.len() as int),
                forall|i: int| #![auto] 0 <= i < all.len() ==> response_wf(all[i]),
                forall|k: RateKey| #![auto]
                    old(self).snapshots@.contains_key(k) ==> self.snapshots@.contains_key(k),
                forall|s: Seq<char>| #![auto]
                    self.queue@.contains_key(s) ==> old(self).queue@.contains_key(s)
                        && self.queue@[s].rate_key() == old(self).queue@[s].rate_key(),
                forall|s: Seq<char>| #![auto]
                    old(self).queue@.contains_key(s) && key_not_swept(
                        all.subrange(0, done@),
                        old(self).queue@[s].rate_key(),
                    ) ==> self.queue@.contains_key(s) && self.queue@[s] == old(self).queue@[s],
                forall|i: int| #![auto]
                    0 <= i < done@ && no_later_duplicate(all.subrange(0, done@), i)
                        ==> sweep_snapshot_outcome(old(self).fiats@, self.snapshots@, all[i]),
                forall|i: int| #![auto]
                    0 <= i < done@ && unique_key_at(all, i) ==> sweep_queue_outcome(
                        old(self).fiats@,
                        old(self).queue@,
                        self.queue@,
                        all[i],
                        now,
                    ),
            decreases remaining@.len(),
        {
            let ghost pre = *self;
            let (key, resp) = remaining.remove(0);
            proof {
                assert(all[done@] == (key, resp));
                assert(response_wf(all[done@]));
                assert(remaining@ =~= all.subrange(done@ + 1, all.len() as int));
            }
            self.reconcile_with_response(key.base_fiat_id, key.date, resp, now);
            proof {
                let processed = all.subrange(0, done@ + 1);
                assert(processed.drop_last() =~= all.subrange(0, done@));
                assert(processed[done@] == all[done@]);

                // Entries waiting on keys the processed prefix never names
                // are untouched: this step only touched entries keyed by
                // `key`.
                assert forall|s: Seq<char>| #![auto]
                    old(self).queue@.contains_key(s) && key_not_swept(
                        processed,
                        old(self).queue@[s].rate_key(),
                    ) implies self.queue@.contains_key(s) && self.queue@[s] == old(
                    self,
                ).queue@[s] by {
                    assert(key_not_swept(all.subrange(0, done@), old(self).queue@[s].rate_key()))
                        by {
                        assert forall|j: int|
                            0 <= j < done@ implies all.subrange(0, done@)[j].0 != old(
                            self,
                        ).queue@[s].rate_key() by {
                            assert(processed[j] == all.subrange(0, done@)[j]);
                        }
                    }
                    assert(pre.queue@.contains_key(s) && pre.queue@[s] == old(self).queue@[s]);
                    assert(processed[done@].0 == key);
                    assert(pre.queue@[s].rate_key() != rate_key(key.base_fiat_id, key.date));
                }

                // Snapshot outcomes of earlier answers survive this step
                // when their key differs; this step's own outcome comes
                // from the reconcile contract.
                assert forall|i: int| #![auto]
                    0 <= i < done@ + 1 && no_later_duplicate(processed, i)
                        implies sweep_snapshot_outcome(
                    old(self).fiats@,
                    self.snapshots@,
                    all[i],
                ) by {
                    if i < done@ {
                        assert forall|j: int|
                            i < j < done@ implies all.subrange(0, done@)[j].0 != all.subrange(
                            0,
                            done@,
                        )[i].0 by {
                            assert(processed[j] == all[j] && processed[i] == all[i]);
                            assert(processed[j].0 != processed[i].0);
                        }
                        assert(no_later_duplicate(all.subrange(0, done@), i));
                        assert(sweep_snapshot_outcome(old(self).fiats@, pre.snapshots@, all[i]));
                        assert(processed[i] == all[i] && processed[done@] == all[done@]);
                        assert(all[i].0 != key);
                        assert(rate_key(key.base_fiat_id, key.date) == key);
                    } else {
                        assert(all[i] == (key, resp));
                        assert(rate_key(key.base_fiat_id, key.date) == key);
                    }
                }

                // Queue outcomes of globally unique earlier answers
                // survive: their entries are keyed differently from `key`.
                assert forall|i: int| #![auto]
                    0 <= i < done@ + 1 && unique_key_at(all, i) implies sweep_queue_outcome(
                    old(self).fiats@,
                    old(self).queue@,
                    self.queue@,
                    all[i],
                    now,
                ) by {
                    assert(rate_key(key.base_fiat_id, key.date) == key);
                    if i < done@ {
                        assert(sweep_queue_outcome(
                            old(self).fiats@,
                            old(self).queue@,
                            pre.queue@,
                            all[i],
                            now,
                        ));
                        assert(all[i].0 != all[done@].0);
                        assert forall|s: Seq<char>| #![auto]
                            old(self).queue@.contains_key(s) && old(self).queue@[s].rate_key()
                                == all[i].0 implies sweep_queue_entry_outcome(
                            old(self).fiats@,
                            old(self).queue@,
                            self.queue@,
                            all[i],
                            now,
                            s,
                        ) by {
                            if pre.queue@.contains_key(s) {
                                assert(pre.queue@[s].rate_key() == old(self).queue@[
                                    s].rate_key());
                            }
                        }
                    } else {
                        // This step's own key: its entries were untouched
                        // before this step, and the reconcile contract
                        // settles them now.
                        assert(all[i] == (key, resp));
                        assert forall|s: Seq<char>| #![auto]
                            old(self).queue@.contains_key(s) && old(self).queue@[s].rate_key()
                                == all[i].0 implies sweep_queue_entry_outcome(
                            old(self).fiats@,
                            old(self).queue@,
                            self.queue@,
                            all[i],
                            now,
                            s,
                        ) by {
                            assert(key_not_swept(
                                all.subrange(0, done@),
                                old(self).queue@[s].rate_key(),
                            )) by {
                                assert forall|j: int|
                                    0 <= j < done@ implies all.subrange(0, done@)[j].0 != old(
                                    self,
                                ).queue@[s].rate_key() by {
                                    assert(all.subrange(0, done@)[j] == all[j]);
                                    assert(all[j].0 != all[done@].0);
                                }
                            }
                            assert(pre.queue@.contains_key(s) && pre.queue@[s] == old(
                                self,
                            ).queue@[s]);
                        }
                    }
                }
            }
            done = Ghost(done@ + 1);
        }
        proof {
            assert(all.subrange(0, done@) =~= all);
            assert(all.subrange(0, all.len() as int) =~= all);
        }
    }
}

} // verus!
