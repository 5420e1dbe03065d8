//! The retry queue: at most one pending-reconciliation record per
//! requesting transaction, bulk-operated by (base currency, date) key.

use vstd::prelude::*;
use vstd::map::*;
use vstd::pervasive::VecAdditionalExecFns;

use crate::date::Date;
use crate::store::RateKey;
use crate::text::str_eq;

verus! {

/// A queue entry past this many failed attempts is left out of further
/// reconciliation sweeps.
pub const MAX_RETRIES: u32 = 5;

/// One pending-reconciliation record: a transaction waiting for the rate of
/// a (base currency, date) key, with its failure history.
#[derive(Debug)]
pub struct MissingRateItem {
    pub fiat_ramp_id: String,
    pub base_fiat_id: i64,
    pub date: Date,
    pub error_count: u32,
    pub last_error_msg: Option<String>,
    pub last_attempt_at: i64,
}

/// The mathematical content of a queue entry.
pub ghost struct QueueItemModel {
    pub fiat_ramp_id: Seq<char>,
    pub base_fiat_id: i64,
    pub date: Date,
    pub error_count: u32,
    pub last_error_msg: Option<Seq<char>>,
    pub last_attempt_at: i64,
}

impl QueueItemModel {
    /// The (base currency, date) key the entry waits on.
    pub open spec fn rate_key(self) -> RateKey {
        RateKey { base_fiat_id: self.base_fiat_id, date: self.date }
    }
}

impl MissingRateItem {
    /// The (base currency, date) key the entry waits on.
    pub open spec fn spec_rate_key(&self) -> RateKey {
        RateKey { base_fiat_id: self.base_fiat_id, date: self.date }
    }
}

impl View for MissingRateItem {
    type V = QueueItemModel;

    open spec fn view(&self) -> QueueItemModel {
        QueueItemModel {
            fiat_ramp_id: self.fiat_ramp_id@,
            base_fiat_id: self.base_fiat_id,
            date: self.date,
            error_count: self.error_count,
            last_error_msg: match self.last_error_msg {
                Some(ref m) => Some(m@),
                None => None,
            },
            last_attempt_at: self.last_attempt_at,
        }
    }
}

impl Clone for MissingRateItem {
    fn clone(&self) -> (r: Self)
        ensures
            r@ == self@,
    {
        MissingRateItem {
            fiat_ramp_id: self.fiat_ramp_id.clone(),
            base_fiat_id: self.base_fiat_id,
            date: self.date,
            error_count: self.error_count,
            last_error_msg: match &self.last_error_msg {
                Some(m) => Some(m.clone()),
                None => None,
            },
            last_attempt_at: self.last_attempt_at,
        }
    }
}

/// An error count one higher, capped at the counter's range.
pub open spec fn spec_bump(c: u32) -> u32 {
    if c < u32::MAX {
        (c + 1) as u32
    } else {
        c
    }
}

/// The entry that an upsert leaves under a transaction id: a fresh entry
/// with one error when none was there or when the waited-on key changed; an
/// incremented error count when the entry already waits on the same key.
pub open spec fn spec_upserted(
    prev: Option<QueueItemModel>,
    rid: Seq<char>,
    base_fiat_id: i64,
    date: Date,
    msg: Option<Seq<char>>,
    now: i64,
) -> QueueItemModel {
    let count = match prev {
        Some(p) => if p.base_fiat_id == base_fiat_id && p.date == date {
            spec_bump(p.error_count)
        } else {
            1u32
        },
        None => 1u32,
    };
    QueueItemModel {
        fiat_ramp_id: rid,
        base_fiat_id,
        date,
        error_count: count,
        last_error_msg: msg,
        last_attempt_at: now,
    }
}

/// A queue entry after one more failed attempt on its key: the error count
/// bumped and the message and timestamp refreshed.
pub open spec fn spec_bumped(m: QueueItemModel, msg: Seq<char>, now: i64) -> QueueItemModel {
    QueueItemModel {
        fiat_ramp_id: m.fiat_ramp_id,
        base_fiat_id: m.base_fiat_id,
        date: m.date,
        error_count: spec_bump(m.error_count),
        last_error_msg: Some(msg),
        last_attempt_at: now,
    }
}

/// Some queued transaction below the retry ceiling waits on this
/// (base currency, date) key.
pub open spec fn key_is_pending(q: Map<Seq<char>, QueueItemModel>, k: RateKey) -> bool {
    exists|s: Seq<char>|
        #[trigger] q.contains_key(s) && q[s].error_count < MAX_RETRIES && q[s].rate_key() == k
}

/// The retry queue, keyed by transaction id.
#[derive(Debug)]
pub struct RetryQueue {
    entries: Vec<MissingRateItem>,
}

impl View for RetryQueue {
    type V = Map<Seq<char>, QueueItemModel>;

    closed spec fn view(&self) -> Map<Seq<char>, QueueItemModel> {
        Map::new(
            |s: Seq<char>|
                exists|i: int|
                    0 <= i < self.entries@.len() && self.entries@[i].fiat_ramp_id@ == s,
            |s: Seq<char>|
                {
                    let i = choose|i: int|
                        0 <= i < self.entries@.len() && self.entries@[i].fiat_ramp_id@ == s;
                    self.entries@[i]@
                },
        )
    }
}

impl RetryQueue {
    /// Transaction ids are unique.
    pub closed spec fn wf(&self) -> bool {
        forall|i: int, j: int|
            0 <= i < j < self.entries@.len() ==> self.entries@[i].fiat_ramp_id@
                != self.entries@[j].fiat_ramp_id@
    }

    /// Entry `i` is in the view under its transaction id.
    proof fn lemma_view_index(&self, i: int)
        requires
            self.wf(),
            0 <= i < self.entries@.len(),
        ensures
            self@.contains_key(self.entries@[i].fiat_ramp_id@),
            self@[self.entries@[i].fiat_ramp_id@] == self.entries@[i]@,
    {
        let s = self.entries@[i].fiat_ramp_id@;
        assert(self@.contains_key(s));
        let j = choose|j: int|
            0 <= j < self.entries@.len() && self.entries@[j].fiat_ramp_id@ == s;
        if j < i {
            assert(self.entries@[j].fiat_ramp_id@ != self.entries@[i].fiat_ramp_id@);
        } else if i < j {
            assert(self.entries@[i].fiat_ramp_id@ != self.entries@[j].fiat_ramp_id@);
        }
    }

    /// A key in the view names some entry.
    proof fn lemma_contains_inverts(&self, s: Seq<char>)
        requires
            self@.contains_key(s),
        ensures
            exists|i: int| 0 <= i < self.entries@.len() && self.entries@[i].fiat_ramp_id@ == s,
    {
    }

    /// An empty queue.
    pub fn new() -> (r: RetryQueue)
        ensures
            r@ == Map::<Seq<char>, QueueItemModel>::empty(),
            r.wf(),
    {
        let r = RetryQueue { entries: Vec::new() };
        proof {
            assert(r@ =~= Map::<Seq<char>, QueueItemModel>::empty());
        }
        r
    }

    /// Whether no transaction is queued.
    pub fn is_empty(&self) -> (r: bool)
        requires
            self.wf(),
        ensures
            r == (self@ == Map::<Seq<char>, QueueItemModel>::empty()),
    {
        proof {
            if self.entries@.len() == 0 {
                assert(self@ =~= Map::<Seq<char>, QueueItemModel>::empty());
            } else {
                self.lemma_view_index(0);
                assert(self@.contains_key(self.entries@[0].fiat_ramp_id@));
            }
        }
        self.entries.is_empty()
    }

    /// Looks a transaction's entry up.
    pub fn get_by_ramp_id(&self, fiat_ramp_id: &str) -> (r: Option<&MissingRateItem>)
        requires
            self.wf(),
        ensures
            match r {
                Some(item) => self@.contains_key(fiat_ramp_id@) && item@ == self@[fiat_ramp_id@],
                None => !self@.contains_key(fiat_ramp_id@),
            },
    {
        let n = self.entries.len();
        let mut idx: usize = 0;
        while idx < n
            invariant
                self.wf(),
                n == self.entries@.len(),
                idx <= n,
                forall|j: int| 0 <= j < idx ==> self.entries@[j].fiat_ramp_id@ != fiat_ramp_id@,
            decreases n - idx,
        {
            if str_eq(self.entries[idx].fiat_ramp_id.as_str(), fiat_ramp_id) {
                proof {
                    self.lemma_view_index(idx as int);
                }
                return Some(&self.entries[idx]);
            }
            idx = idx + 1;
        }
        proof {
            if self@.contains_key(fiat_ramp_id@) {
                self.lemma_contains_inverts(fiat_ramp_id@);
            }
        }
        None
    }

    /// Inserts or refreshes the entry of a transaction: a new entry starts
    /// with one error; an entry still waiting on the same (currency, date)
    /// key keeps it and counts one more error; an entry whose key changed is
    /// reset to one error under the new key.
    pub fn upsert_item(
        &mut self,
        fiat_ramp_id: &str,
        base_fiat_id: i64,
        date: Date,
        error_msg: Option<&str>,
        now: i64,
    )
        requires
            old(self).wf(),
        ensures
            final(self).wf(),
            final(self)@ == old(self)@.insert(
                fiat_ramp_id@,
                spec_upserted(
                    if old(self)@.contains_key(fiat_ramp_id@) {
                        Some(old(self)@[fiat_ramp_id@])
                    } else {
                        None
                    },
                    fiat_ramp_id@,
                    base_fiat_id,
                    date,
                    match error_msg {
                        Some(m) => Some(m@),
                        None => None,
                    },
                    now,
                ),
            ),
    {
        let ghost pre = *self;
        let msg_owned: Option<String> = match error_msg {
            Some(m) => Some(m.to_owned()),
            None => None,
        };
        let n = self.entries.len();
        let mut idx: usize = 0;
        while idx < n
            invariant
                *self == pre,
                pre == *old(self),
                pre.wf(),
                n == self.entries@.len(),
                idx <= n,
                match (msg_owned, error_msg) {
                    (Some(ref mo), Some(me)) => mo@ == me@,
                    (None, None) => true,
                    _ => false,
                },
                forall|j: int| 0 <= j < idx ==> self.entries@[j].fiat_ramp_id@ != fiat_ramp_id@,
            decreases n - idx,
        {
            if str_eq(self.entries[idx].fiat_ramp_id.as_str(), fiat_ramp_id) {
                let same_key = self.entries[idx].base_fiat_id == base_fiat_id
                    && self.entries[idx].date.days == date.days;
                let count = if same_key {
                    let c = self.entries[idx].error_count;
                    if c < u32::MAX {
                        c + 1
                    } else {
                        c
                    }
                } else {
                    1
                };
                let item = MissingRateItem {
                    fiat_ramp_id: fiat_ramp_id.to_owned(),
                    base_fiat_id,
                    date,
                    error_count: count,
                    last_error_msg: msg_owned,
                    last_attempt_at: now,
                };
                proof {
                    pre.lemma_view_index(idx as int);
                }
                self.entries.set(idx, item);
                proof {
                    assert forall|a: int, b: int|
                        0 <= a < b < self.entries@.len() implies self.entries@[a].fiat_ramp_id@
                        != self.entries@[b].fiat_ramp_id@ by {
                        assert(pre.entries@[a].fiat_ramp_id@ != pre.entries@[b].fiat_ramp_id@);
                    }
                    assert(self.wf());
                    let ghost m = self.entries@[idx as int]@;
                    assert_maps_equal!(self@, pre@.insert(fiat_ramp_id@, m), s => {
                        if self@.contains_key(s) {
                            let i = choose|i: int|
                                0 <= i < self.entries@.len()
                                    && self.entries@[i].fiat_ramp_id@ == s;
                            if s == fiat_ramp_id@ {
                                if i != idx {
                                    assert(pre.entries@[i].fiat_ramp_id@ == s);
                                    pre.lemma_view_index(i);
                                    pre.lemma_view_index(idx as int);
                                    assert(false);
                                }
                                self.lemma_view_index(idx as int);
                            } else {
                                assert(self.entries@[i].fiat_ramp_id@ == s);
                                assert(i != idx);
                                assert(pre.entries@[i].fiat_ramp_id@ == s);
                                pre.lemma_view_index(i);
                                self.lemma_view_index(i);
                            }
                        }
                        if pre@.insert(fiat_ramp_id@, m).contains_key(s) {
                            if s == fiat_ramp_id@ {
                                self.lemma_view_index(idx as int);
                            } else {
                                assert(pre@.contains_key(s));
                                pre.lemma_contains_inverts(s);
                                let i = choose|i: int|
                                    0 <= i < pre.entries@.len()
                                        && pre.entries@[i].fiat_ramp_id@ == s;
                                assert(self.entries@[i].fiat_ramp_id@ == s);
                                self.lemma_view_index(i);
                                pre.lemma_view_index(i);
                            }
                        }
                    });
                }
                return;
            }
            idx = idx + 1;
        }
        let item = MissingRateItem {
            fiat_ramp_id: fiat_ramp_id.to_owned(),
            base_fiat_id,
            date,
            error_count: 1,
            last_error_msg: msg_owned,
            last_attempt_at: now,
        };
        self.entries.push(item);
        proof {
            if pre@.contains_key(fiat_ramp_id@) {
                pre.lemma_contains_inverts(fiat_ramp_id@);
                assert(false);
            }
            assert forall|a: int, b: int|
                0 <= a < b < self.entries@.len() implies self.entries@[a].fiat_ramp_id@
                != self.entries@[b].fiat_ramp_id@ by {
                if b < pre.entries@.len() {
                    assert(pre.entries@[a].fiat_ramp_id@ != pre.entries@[b].fiat_ramp_id@);
                } else {
                    assert(self.entries@[b].fiat_ramp_id@ == fiat_ramp_id@);
                    assert(pre.entries@[a].fiat_ramp_id@ != fiat_ramp_id@);
                }
            }
            assert(self.wf());
            let ghost m = self.entries@[pre.entries@.len() as int]@;
            assert_maps_equal!(self@, pre@.insert(fiat_ramp_id@, m), s => {
                if self@.contains_key(s) {
                    let i = choose|i: int|
                        0 <= i < self.entries@.len() && self.entries@[i].fiat_ramp_id@ == s;
                    if s == fiat_ramp_id@ {
                    } else {
                        assert(i < pre.entries@.len());
                        assert(pre.entries@[i].fiat_ramp_id@ == s);
                        pre.lemma_view_index(i);
                        self.lemma_view_index(i);
                    }
                }
                if pre@.insert(fiat_ramp_id@, m).contains_key(s) {
                    if s == fiat_ramp_id@ {
                        self.lemma_view_index(pre.entries@.len() as int);
                    } else {
                        assert(pre@.contains_key(s));
                        pre.lemma_contains_inverts(s);
                        let i = choose|i: int|
                            0 <= i < pre.entries@.len() && pre.entries@[i].fiat_ramp_id@ == s;
                        assert(self.entries@[i].fiat_ramp_id@ == s);
                        self.lemma_view_index(i);
                        pre.lemma_view_index(i);
                    }
                }
            });
        }
    }

    /// Removes a transaction's entry; a no-op when none is queued.
    pub fn remove_by_ramp_id(&mut self, fiat_ramp_id: &str)
        requires
            old(self).wf(),
        ensures
            final(self).wf(),
            final(self)@ == old(self)@.remove(fiat_ramp_id@),
    {
        let ghost pre = *self;
        let n = self.entries.len();
        let mut idx: usize = 0;
        while idx < n
            invariant
                *self == pre,
                pre == *old(self),
                pre.wf(),
                n == self.entries@.len(),
                idx <= n,
                forall|j: int| 0 <= j < idx ==> self.entries@[j].fiat_ramp_id@ != fiat_ramp_id@,
            decreases n - idx,
        {
            if str_eq(self.entries[idx].fiat_ramp_id.as_str(), fiat_ramp_id) {
                self.entries.swap_remove(idx);
                proof {
                    let newlen = self.entries@.len();
                    assert(newlen == n - 1);
                    assert forall|j: int| 0 <= j < newlen implies self.entries@[j]
                        == (if j == idx && idx < newlen {
                        pre.entries@[newlen as int]
                    } else {
                        pre.entries@[j]
                    }) by {}
                    assert forall|a: int, b: int|
                        0 <= a < b < newlen implies self.entries@[a].fiat_ramp_id@
                        != self.entries@[b].fiat_ramp_id@ by {}
                    assert(self.wf());
                    assert_maps_equal!(self@, pre@.remove(fiat_ramp_id@), s => {
                        if self@.contains_key(s) {
                            let i = choose|i: int|
                                0 <= i < self.entries@.len()
                                    && self.entries@[i].fiat_ramp_id@ == s;
                            let oi: int = if i == idx { newlen as int } else { i };
                            assert(pre.entries@[oi].fiat_ramp_id@ == s);
                            pre.lemma_view_index(oi);
                            self.lemma_view_index(i);
                            if s == fiat_ramp_id@ {
                                pre.lemma_view_index(idx as int);
                                assert(false);
                            }
                        }
                        if pre@.remove(fiat_ramp_id@).contains_key(s) {
                            assert(pre@.contains_key(s));
                            pre.lemma_contains_inverts(s);
                            let oi = choose|oi: int|
                                0 <= oi < pre.entries@.len()
                                    && pre.entries@[oi].fiat_ramp_id@ == s;
                            if oi == idx {
                                pre.lemma_view_index(idx as int);
                                assert(false);
                            }
                            let i: int = if oi == newlen as int { idx as int } else { oi };
                            assert(self.entries@[i].fiat_ramp_id@ == s);
                            self.lemma_view_index(i);
                            pre.lemma_view_index(oi);
                        }
                    });
                }
                return;
            }
            idx = idx + 1;
        }
        proof {
            if pre@.contains_key(fiat_ramp_id@) {
                pre.lemma_contains_inverts(fiat_ramp_id@);
                assert(false);
            }
            assert(self@ =~= pre@.remove(fiat_ramp_id@));
        }
    }

    /// Removes every entry waiting on a (base currency, date) key, leaving
    /// entries waiting on other keys untouched; a no-op when none matches.
    pub fn remove_by_rate_key(&mut self, base_fiat_id: i64, date: Date)
        requires
            old(self).wf(),
        ensures
            final(self).wf(),
            forall|s: Seq<char>| #![auto]
                final(self)@.contains_key(s) <==> old(self)@.contains_key(s) && !(old(self)@[s].base_fiat_id
                    == base_fiat_id && old(self)@[s].date == date),
            forall|s: Seq<char>| #![auto]
                final(self)@.contains_key(s) ==> final(self)@[s] == old(self)@[s],
    {
        let ghost pre = *self;
        let mut kept: Vec<MissingRateItem> = Vec::new();
        let mut src: Ghost<Seq<int>> = Ghost(Seq::empty());
        let mut dst: Ghost<Seq<int>> = Ghost(Seq::empty());
        let n = self.entries.len();
        let mut idx: usize = 0;
        while idx < n
            invariant
                *self == pre,
                pre == *old(self),
                pre.wf(),
                n == self.entries@.len(),
                idx <= n,
                src@.len() == kept@.len(),
                dst@.len() == idx,
                forall|j: int| #![trigger src@[j]]
                    0 <= j < src@.len() ==> 0 <= src@[j] < idx && kept@[j]@
                        == pre.entries@[src@[j]]@ && !(pre.entries@[src@[j]].base_fiat_id
                        == base_fiat_id && pre.entries@[src@[j]].date == date),
                forall|j1: int, j2: int| #![trigger src@[j1], src@[j2]]
                    0 <= j1 < j2 < src@.len() ==> src@[j1] < src@[j2],
                forall|oi: int| #![trigger dst@[oi]]
                    0 <= oi < idx && !(pre.entries@[oi].base_fiat_id == base_fiat_id
                        && pre.entries@[oi].date == date) ==> 0 <= dst@[oi] < kept@.len()
                        && kept@[dst@[oi]]@ == pre.entries@[oi]@,
            decreases n - idx,
        {
            let keep = !(self.entries[idx].base_fiat_id == base_fiat_id
                && self.entries[idx].date.days == date.days);
            if keep {
                let item = self.entries[idx].clone();
                proof {
                    assert(item@ == pre.entries@[idx as int]@);
                }
                kept.push(item);
                src = Ghost(src@.push(idx as int));
                dst = Ghost(dst@.push(kept.len() - 1));
            } else {
                dst = Ghost(dst@.push(0));
            }
            idx = idx + 1;
        }
        self.entries = kept;
        proof {
            assert forall|a: int, b: int|
                0 <= a < b < self.entries@.len() implies self.entries@[a].fiat_ramp_id@
                != self.entries@[b].fiat_ramp_id@ by {
                assert(self.entries@[a]@ == pre.entries@[src@[a]]@);
                assert(self.entries@[b]@ == pre.entries@[src@[b]]@);
                assert(src@[a] < src@[b]);
                assert(pre.entries@[src@[a]].fiat_ramp_id@
                    != pre.entries@[src@[b]].fiat_ramp_id@);
            }
            assert(self.wf());
            assert forall|s: Seq<char>| #![auto]
                self@.contains_key(s) implies pre@.contains_key(s) && !(pre@[s].base_fiat_id
                == base_fiat_id && pre@[s].date == date) && self@[s] == pre@[s] by {
                let i = choose|i: int|
                    0 <= i < self.entries@.len() && self.entries@[i].fiat_ramp_id@ == s;
                self.lemma_view_index(i);
                let oi = src@[i];
                assert(self.entries@[i]@ == pre.entries@[oi]@);
                assert(pre.entries@[oi].fiat_ramp_id@ == s);
                pre.lemma_view_index(oi);
            }
            assert forall|s: Seq<char>| #![auto]
                pre@.contains_key(s) && !(pre@[s].base_fiat_id == base_fiat_id && pre@[s].date
                == date) implies self@.contains_key(s) by {
                pre.lemma_contains_inverts(s);
                let oi = choose|oi: int|
                    0 <= oi < pre.entries@.len() && pre.entries@[oi].fiat_ramp_id@ == s;
                pre.lemma_view_index(oi);
                let j = dst@[oi];
                assert(self.entries@[j]@ == pre.entries@[oi]@);
                assert(self.entries@[j].fiat_ramp_id@ == s);
            }
        }
    }

    /// Counts one more failed attempt against every entry waiting on a
    /// (base currency, date) key: the error count rises by one and the
    /// message and timestamp are refreshed; other entries are untouched.
    pub fn increment_error_by_rate_key(
        &mut self,
        base_fiat_id: i64,
        date: Date,
        error_msg: &str,
        now: i64,
    )
        requires
            old(self).wf(),
        ensures
            final(self).wf(),
            forall|s: Seq<char>| #![auto]
                final(self)@.contains_key(s) == old(self)@.contains_key(s),
            forall|s: Seq<char>| #![auto]
                old(self)@.contains_key(s) ==> final(self)@[s] == (if old(self)@[s].base_fiat_id
                    == base_fiat_id && old(self)@[s].date == date {
                    spec_bumped(old(self)@[s], error_msg@, now)
                } else {
                    old(self)@[s]
                }),
    {
        let ghost pre = *self;
        let n = self.entries.len();
        let mut idx: usize = 0;
        while idx < n
            invariant
                pre == *old(self),
                pre.wf(),
                n == self.entries@.len(),
                idx <= n,
                forall|j: int| #![auto]
                    0 <= j < n ==> self.entries@[j].fiat_ramp_id@
                        == pre.entries@[j].fiat_ramp_id@,
                forall|j: int| #![auto]
                    0 <= j < idx ==> self.entries@[j]@ == (if pre.entries@[j].base_fiat_id
                        == base_fiat_id && pre.entries@[j].date == date {
                        spec_bumped(pre.entries@[j]@, error_msg@, now)
                    } else {
                        pre.entries@[j]@
                    }),
                forall|j: int| #![auto] idx <= j < n ==> self.entries@[j] == pre.entries@[j],
            decreases n - idx,
        {
            let matches_key = self.entries[idx].base_fiat_id == base_fiat_id
                && self.entries[idx].date.days == date.days;
            if matches_key {
                let c = self.entries[idx].error_count;
                let bumped = if c < u32::MAX {
                    c + 1
                } else {
                    c
                };
                let item = MissingRateItem {
                    fiat_ramp_id: self.entries[idx].fiat_ramp_id.clone(),
                    base_fiat_id: self.entries[idx].base_fiat_id,
                    date: self.entries[idx].date,
                    error_count: bumped,
                    last_error_msg: Some(error_msg.to_owned()),
                    last_attempt_at: now,
                };
                self.entries.set(idx, item);
            }
            idx = idx + 1;
        }
        proof {
            assert forall|a: int, b: int|
                0 <= a < b < self.entries@.len() implies self.entries@[a].fiat_ramp_id@
                != self.entries@[b].fiat_ramp_id@ by {
                assert(pre.entries@[a].fiat_ramp_id@ != pre.entries@[b].fiat_ramp_id@);
            }
            assert(self.wf());
            assert forall|s: Seq<char>| #![auto]
                self@.contains_key(s) == pre@.contains_key(s) by {
                if self@.contains_key(s) {
                    let i = choose|i: int|
                        0 <= i < self.entries@.len() && self.entries@[i].fiat_ramp_id@ == s;
                    assert(pre.entries@[i].fiat_ramp_id@ == s);
                }
                if pre@.contains_key(s) {
                    pre.lemma_contains_inverts(s);
                    let i = choose|i: int|
                        0 <= i < pre.entries@.len() && pre.entries@[i].fiat_ramp_id@ == s;
                    assert(self.entries@[i].fiat_ramp_id@ == s);
                }
            }
            assert forall|s: Seq<char>| #![auto]
                pre@.contains_key(s) implies self@[s] == (if pre@[s].base_fiat_id == base_fiat_id
                && pre@[s].date == date {
                spec_bumped(pre@[s], error_msg@, now)
            } else {
                pre@[s]
            }) by {
                pre.lemma_contains_inverts(s);
                let i = choose|i: int|
                    0 <= i < pre.entries@.len() && pre.entries@[i].fiat_ramp_id@ == s;
                pre.lemma_view_index(i);
                assert(self.entries@[i].fiat_ramp_id@ == s);
                self.lemma_view_index(i);
            }
        }
    }

    /// The distinct (base currency, date) keys of entries still below the
    /// retry ceiling: exactly the keys the next reconciliation sweep
    /// revisits. Entries at or past the ceiling are left out but stay
    /// queued.
    pub fn pending_rate_keys(&self) -> (r: Vec<RateKey>)
        requires
            self.wf(),
        ensures
            forall|a: int, b: int| 0 <= a < b < r@.len() ==> r@[a] != r@[b],
            forall|a: int| #![trigger r@[a]]
                0 <= a < r@.len() ==> key_is_pending(self@, r@[a]),
            forall|s: Seq<char>| #![auto]
                self@.contains_key(s) && self@[s].error_count < MAX_RETRIES ==> exists|a: int|
                    0 <= a < r@.len() && r@[a] == self@[s].rate_key(),
    {
        let mut r: Vec<RateKey> = Vec::new();
        let mut wit: Ghost<Seq<int>> = Ghost(Seq::empty());
        let mut pos: Ghost<Seq<int>> = Ghost(Seq::empty());
        let n = self.entries.len();
        let mut idx: usize = 0;
        while idx < n
            invariant
                self.wf(),
                n == self.entries@.len(),
                idx <= n,
                wit@.len() == r@.len(),
                pos@.len() == idx,
                forall|a: int, b: int| 0 <= a < b < r@.len() ==> r@[a] != r@[b],
                forall|a: int| #![trigger wit@[a]]
                    0 <= a < wit@.len() ==> 0 <= wit@[a] < idx
                        && self.entries@[wit@[a]].error_count < MAX_RETRIES
                        && self.entries@[wit@[a]].spec_rate_key() == r@[a],
                forall|oi: int| #![trigger pos@[oi]]
                    0 <= oi < idx && self.entries@[oi].error_count < MAX_RETRIES ==> 0 <= pos@[oi]
                        < r@.len() && r@[pos@[oi]] == self.entries@[oi].spec_rate_key(),
            decreases n - idx,
        {
            if self.entries[idx].error_count < MAX_RETRIES {
                let k = RateKey {
                    base_fiat_id: self.entries[idx].base_fiat_id,
                    date: self.entries[idx].date,
                };
                proof {
                    assert(k == self.entries@[idx as int].spec_rate_key());
                }
                if !contains_rate_key(&r, k) {
                    r.push(k);
                    wit = Ghost(wit@.push(idx as int));
                    pos = Ghost(pos@.push(r.len() - 1));
                } else {
                    pos = Ghost(
                        pos@.push(choose|a: int| 0 <= a < r@.len() && r@[a] == k),
                    );
                }
            } else {
                pos = Ghost(pos@.push(0));
            }
            idx = idx + 1;
        }
        proof {
            assert(forall|a: int, b: int| 0 <= a < b < r@.len() ==> r@[a] != r@[b]);
            assert forall|a: int| #![trigger r@[a]]
                0 <= a < r@.len() implies key_is_pending(self@, r@[a]) by {
                let oi = wit@[a];
                self.lemma_view_index(oi);
                let s = self.entries@[oi].fiat_ramp_id@;
                assert(self@.contains_key(s) && self@[s].error_count < MAX_RETRIES
                    && self@[s].rate_key() == r@[a]);
            }
            assert forall|s: Seq<char>| #![auto]
                self@.contains_key(s) && self@[s].error_count < MAX_RETRIES implies exists|a: int|
                0 <= a < r@.len() && r@[a] == self@[s].rate_key() by {
                self.lemma_contains_inverts(s);
                let oi = choose|oi: int|
                    0 <= oi < self.entries@.len() && self.entries@[oi].fiat_ramp_id@ == s;
                self.lemma_view_index(oi);
                assert(self.entries@[oi].error_count < MAX_RETRIES);
                let a = pos@[oi];
                assert(0 <= a < r@.len() && r@[a] == self@[s].rate_key());
            }
        }
        r
    }
}

/// Whether a key list already holds a key.
fn contains_rate_key(v: &Vec<RateKey>, k: RateKey) -> (r: bool)
    ensures
        r == exists|a: int| 0 <= a < v@.len() && v@[a] == k,
{
    let n = v.len();
    let mut idx: usize = 0;
    while idx < n
        invariant
            n == v@.len(),
            idx <= n,
            forall|a: int| 0 <= a < idx ==> v@[a] != k,
        decreases n - idx,
    {
        if v[idx] == k {
            return true;
        }
        idx = idx + 1;
    }
    false
}

} // verus!
