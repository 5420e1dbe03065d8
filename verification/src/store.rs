//! The snapshot store: at most one exchange-rate snapshot per
//! (base currency, date) key, written only by upsert.

use vstd::prelude::*;
use vstd::map::*;
use vstd::pervasive::VecAdditionalExecFns;

use crate::classify::NonWorkingDayReason;
use crate::date::Date;
use crate::rates::RateMap;

verus! {

/// The key of a snapshot: the base currency and the requested calendar day.
#[derive(Clone, Copy, PartialEq, Eq, Structural, Debug, Hash)]
pub struct RateKey {
    pub base_fiat_id: i64,
    pub date: Date,
}

/// One persisted rate snapshot: the rate mapping for one base currency on
/// one calendar date, with its classification flags.
#[derive(Debug)]
pub struct FiatExchangeRate {
    pub base_fiat_id: i64,
    pub symbol: String,
    pub name: String,
    pub date: Date,
    pub is_estimated: bool,
    pub is_non_working_day: bool,
    pub non_working_day_reason: Option<NonWorkingDayReason>,
    pub rates: RateMap,
}

/// The mathematical content of a snapshot.
pub ghost struct SnapshotModel {
    pub base_fiat_id: i64,
    pub symbol: Seq<char>,
    pub name: Seq<char>,
    pub date: Date,
    pub is_estimated: bool,
    pub is_non_working_day: bool,
    pub non_working_day_reason: Option<NonWorkingDayReason>,
    pub rates: Map<Seq<char>, u64>,
}

impl SnapshotModel {
    pub open spec fn key(self) -> RateKey {
        RateKey { base_fiat_id: self.base_fiat_id, date: self.date }
    }
}

impl View for FiatExchangeRate {
    type V = SnapshotModel;

    open spec fn view(&self) -> SnapshotModel {
        SnapshotModel {
            base_fiat_id: self.base_fiat_id,
            symbol: self.symbol@,
            name: self.name@,
            date: self.date,
            is_estimated: self.is_estimated,
            is_non_working_day: self.is_non_working_day,
            non_working_day_reason: self.non_working_day_reason,
            rates: self.rates@,
        }
    }
}

impl FiatExchangeRate {
    /// The store key of this snapshot.
    pub open spec fn spec_key(&self) -> RateKey {
        RateKey { base_fiat_id: self.base_fiat_id, date: self.date }
    }

    /// The rate mapping is well formed, the reason is present exactly when
    /// the snapshot covers a non-working day, and a non-working day is
    /// always an estimate.
    pub open spec fn wf(&self) -> bool {
        &&& self.rates.wf()
        &&& self.non_working_day_reason is Some <==> self.is_non_working_day
        &&& self.is_non_working_day ==> self.is_estimated
        &&& self.date.wf()
    }
}

impl Clone for FiatExchangeRate {
    fn clone(&self) -> (r: Self)
        ensures
            self.wf() ==> r@ == self@ && r.wf(),
    {
        FiatExchangeRate {
            base_fiat_id: self.base_fiat_id,
            symbol: self.symbol.clone(),
            name: self.name.clone(),
            date: self.date,
            is_estimated: self.is_estimated,
            is_non_working_day: self.is_non_working_day,
            non_working_day_reason: self.non_working_day_reason,
            rates: self.rates.clone(),
        }
    }
}

/// The snapshot store: a collection of snapshots holding at most one per
/// (base currency, date) key.
#[derive(Debug)]
pub struct SnapshotStore {
    entries: Vec<FiatExchangeRate>,
}

impl View for SnapshotStore {
    type V = Map<RateKey, SnapshotModel>;

    closed spec fn view(&self) -> Map<RateKey, SnapshotModel> {
        Map::new(
            |k: RateKey|
                exists|i: int| 0 <= i < self.entries@.len() && self.entries@[i].spec_key() == k,
            |k: RateKey|
                {
                    let i = choose|i: int|
                        0 <= i < self.entries@.len() && self.entries@[i].spec_key() == k;
                    self.entries@[i]@
                },
        )
    }
}

impl SnapshotStore {
    /// The snapshots held, as models, in storage order.
    pub closed spec fn records(&self) -> Seq<SnapshotModel> {
        self.entries@.map(|i: int, e: FiatExchangeRate| e@)
    }

    /// Keys are unique and every snapshot held is well formed.
    pub closed spec fn wf(&self) -> bool {
        &&& forall|i: int, j: int|
            0 <= i < j < self.entries@.len() ==> self.entries@[i].spec_key()
                != self.entries@[j].spec_key()
        &&& forall|i: int| 0 <= i < self.entries@.len() ==> #[trigger] self.entries@[i].wf()
    }

    /// Entry `i` is in the view under its key.
    proof fn lemma_view_index(&self, i: int)
        requires
            self.wf(),
            0 <= i < self.entries@.len(),
        ensures
            self@.contains_key(self.entries@[i].spec_key()),
            self@[self.entries@[i].spec_key()] == self.entries@[i]@,
    {
        let k = self.entries@[i].spec_key();
        assert(self@.contains_key(k));
        let j = choose|j: int| 0 <= j < self.entries@.len() && self.entries@[j].spec_key() == k;
        if j < i {
            assert(self.entries@[j].spec_key() != self.entries@[i].spec_key());
        } else if i < j {
            assert(self.entries@[i].spec_key() != self.entries@[j].spec_key());
        }
    }

    /// A key in the view names some entry.
    proof fn lemma_contains_inverts(&self, k: RateKey)
        requires
            self@.contains_key(k),
        ensures
            exists|i: int| 0 <= i < self.entries@.len() && self.entries@[i].spec_key() == k,
    {
    }

    /// An empty store.
    pub fn new() -> (r: SnapshotStore)
        ensures
            r@ == Map::<RateKey, SnapshotModel>::empty(),
            r.wf(),
            r.records().len() == 0,
    {
        let r = SnapshotStore { entries: Vec::new() };
        proof {
            assert(r@ =~= Map::<RateKey, SnapshotModel>::empty());
        }
        r
    }

    /// At most one snapshot exists per (base currency, date) key: two
    /// distinct records held by a well-formed store never share a key.
    pub proof fn lemma_at_most_one_per_key(&self, i: int, j: int)
        requires
            self.wf(),
            0 <= i < self.records().len(),
            0 <= j < self.records().len(),
            i != j,
        ensures
            self.records()[i].key() != self.records()[j].key(),
    {
        assert(self.records()[i] == self.entries@[i]@);
        assert(self.records()[j] == self.entries@[j]@);
    }

    /// Every record of a well-formed store is in the view under its key.
    pub proof fn lemma_records_in_view(&self, i: int)
        requires
            self.wf(),
            0 <= i < self.records().len(),
        ensures
            self@.contains_key(self.records()[i].key()),
            self@[self.records()[i].key()] == self.records()[i],
    {
        assert(self.records()[i] == self.entries@[i]@);
        self.lemma_view_index(i);
    }

    /// The number of snapshots held.
    pub fn record_count(&self) -> (r: usize)
        ensures
            r == self.records().len(),
    {
        self.entries.len()
    }

    /// Looks up the snapshot for a (base currency, date) key.
    pub fn get(&self, base_fiat_id: i64, date: Date) -> (r: Option<&FiatExchangeRate>)
        requires
            self.wf(),
        ensures
            match r {
                Some(s) => {
                    &&& self@.contains_key(RateKey { base_fiat_id, date })
                    &&& s@ == self@[RateKey { base_fiat_id, date }]
                    &&& s.wf()
                    &&& s.base_fiat_id == base_fiat_id
                    &&& s.date == date
                },
                None => !self@.contains_key(RateKey { base_fiat_id, date }),
            },
    {
        let k = RateKey { base_fiat_id, date };
        let n = self.entries.len();
        let mut idx: usize = 0;
        while idx < n
            invariant
                self.wf(),
                n == self.entries@.len(),
                idx <= n,
                k == (RateKey { base_fiat_id, date }),
                forall|j: int| 0 <= j < idx ==> self.entries@[j].spec_key() != k,
            decreases n - idx,
        {
            if self.entries[idx].base_fiat_id == base_fiat_id
                && self.entries[idx].date.days == date.days {
                proof {
                    assert(self.entries@[idx as int].spec_key() == k);
                    self.lemma_view_index(idx as int);
                }
                return Some(&self.entries[idx]);
            }
            proof {
                assert(self.entries@[idx as int].spec_key() != k);
            }
            idx = idx + 1;
        }
        proof {
            if self@.contains_key(k) {
                self.lemma_contains_inverts(k);
            }
        }
        None
    }

    /// Inserts the snapshot under its key, replacing any snapshot already
    /// held for that key.
    pub fn upsert(&mut self, snapshot: FiatExchangeRate)
        requires
            old(self).wf(),
            snapshot.wf(),
        ensures
            final(self)@ == old(self)@.insert(snapshot.spec_key(), snapshot@),
            final(self).wf(),
    {
        let ghost pre = *self;
        let ghost k = snapshot.spec_key();
        let n = self.entries.len();
        let mut idx: usize = 0;
        while idx < n
            invariant
                *self == pre,
                pre == *old(self),
                pre.wf(),
                snapshot.wf(),
                n == self.entries@.len(),
                idx <= n,
                k == snapshot.spec_key(),
                forall|j: int| 0 <= j < idx ==> self.entries@[j].spec_key() != k,
            decreases n - idx,
        {
            if self.entries[idx].base_fiat_id == snapshot.base_fiat_id
                && self.entries[idx].date.days == snapshot.date.days {
                proof {
                    assert(self.entries@[idx as int].spec_key() == k);
                }
                self.entries.set(idx, snapshot);
                proof {
                    assert forall|a: int, b: int|
                        0 <= a < b < self.entries@.len() implies self.entries@[a].spec_key()
                        != self.entries@[b].spec_key() by {
                        assert(pre.entries@[a].spec_key() != pre.entries@[b].spec_key());
                    }
                    assert(self.wf());
                    assert_maps_equal!(self@, pre@.insert(k, self.entries@[idx as int]@), kk => {
                        if self@.contains_key(kk) {
                            let i = choose|i: int|
                                0 <= i < self.entries@.len() && self.entries@[i].spec_key() == kk;
                            if kk == k {
                                if i != idx {
                                    assert(pre.entries@[i].spec_key() == kk);
                                    pre.lemma_view_index(i);
                                    pre.lemma_view_index(idx as int);
                                    assert(false);
                                }
                                self.lemma_view_index(idx as int);
                            } else {
                                assert(self.entries@[i].spec_key() == kk);
                                assert(i != idx);
                                assert(pre.entries@[i].spec_key() == kk);
                                pre.lemma_view_index(i);
                                self.lemma_view_index(i);
                            }
                        }
                        if pre@.insert(k, self.entries@[idx as int]@).contains_key(kk) {
                            if kk == k {
                                self.lemma_view_index(idx as int);
                            } else {
                                assert(pre@.contains_key(kk));
                                pre.lemma_contains_inverts(kk);
                                let i = choose|i: int|
                                    0 <= i < pre.entries@.len() && pre.entries@[i].spec_key() == kk;
                                assert(self.entries@[i].spec_key() == kk);
                                self.lemma_view_index(i);
                                pre.lemma_view_index(i);
                            }
                        }
                    });
                }
                return;
            }
            proof {
                assert(self.entries@[idx as int].spec_key() != k);
            }
            idx = idx + 1;
        }
        self.entries.push(snapshot);
        proof {
            assert forall|a: int, b: int|
                0 <= a < b < self.entries@.len() implies self.entries@[a].spec_key()
                != self.entries@[b].spec_key() by {
                if b < pre.entries@.len() {
                    assert(pre.entries@[a].spec_key() != pre.entries@[b].spec_key());
                } else {
                    assert(self.entries@[b].spec_key() == k);
                    assert(pre.entries@[a].spec_key() != k);
                }
            }
            assert(self.wf());
            let ghost m = self.entries@[pre.entries@.len() as int]@;
            assert_maps_equal!(self@, pre@.insert(k, m), kk => {
                if self@.contains_key(kk) {
                    let i = choose|i: int|
                        0 <= i < self.entries@.len() && self.entries@[i].spec_key() == kk;
                    if kk == k {
                    } else {
                        assert(i < pre.entries@.len());
                        assert(pre.entries@[i].spec_key() == kk);
                        pre.lemma_view_index(i);
                        self.lemma_view_index(i);
                    }
                }
                if pre@.insert(k, m).contains_key(kk) {
                    if kk == k {
                        self.lemma_view_index(pre.entries@.len() as int);
                    } else {
                        assert(pre@.contains_key(kk));
                        pre.lemma_contains_inverts(kk);
                        let i = choose|i: int|
                            0 <= i < pre.entries@.len() && pre.entries@[i].spec_key() == kk;
                        assert(self.entries@[i].spec_key() == kk);
                        self.lemma_view_index(i);
                        pre.lemma_view_index(i);
                    }
                }
            });
        }
    }
}

} // verus!
