//! A rate mapping: target-currency symbol to fixed-point rate relative to
//! the base currency, with unique symbols and strictly positive rates.

use vstd::prelude::*;
use vstd::map::*;
use vstd::pervasive::VecAdditionalExecFns;

use crate::text::str_eq;

verus! {

/// The fixed-point scale of a rate: `RATE_SCALE` units stand for a rate of
/// exactly one, so the base currency's own rate is `RATE_SCALE`.
pub const RATE_SCALE: u64 = 1_000_000;

/// One (symbol, rate) pair of a rate mapping.
#[derive(Debug)]
pub struct RateEntry {
    pub symbol: String,
    pub rate: u64,
}

impl Clone for RateEntry {
    fn clone(&self) -> (r: Self)
        ensures
            r.symbol@ == self.symbol@,
            r.rate == self.rate,
    {
        RateEntry { symbol: self.symbol.clone(), rate: self.rate }
    }
}

/// A mapping from target-currency symbol to the rate relative to the base
/// currency, in `RATE_SCALE` fixed-point units.
#[derive(Debug)]
pub struct RateMap {
    entries: Vec<RateEntry>,
}

impl View for RateMap {
    type V = Map<Seq<char>, u64>;

    closed spec fn view(&self) -> Map<Seq<char>, u64> {
        Map::new(
            |s: Seq<char>|
                exists|i: int| 0 <= i < self.entries@.len() && self.entries@[i].symbol@ == s,
            |s: Seq<char>|
                {
                    let i = choose|i: int|
                        0 <= i < self.entries@.len() && self.entries@[i].symbol@ == s;
                    self.entries@[i].rate
                },
        )
    }
}

impl RateMap {
    /// Symbols are unique and every rate is strictly positive.
    pub closed spec fn wf(&self) -> bool {
        &&& forall|i: int, j: int|
            0 <= i < j < self.entries@.len() ==> self.entries@[i].symbol@
                != self.entries@[j].symbol@
        &&& forall|i: int| 0 <= i < self.entries@.len() ==> self.entries@[i].rate >= 1
    }

    /// Entry `i` is in the view, under its symbol, with its rate.
    proof fn lemma_view_index(&self, i: int)
        requires
            self.wf(),
            0 <= i < self.entries@.len(),
        ensures
            self@.contains_key(self.entries@[i].symbol@),
            self@[self.entries@[i].symbol@] == self.entries@[i].rate,
    {
        let s = self.entries@[i].symbol@;
        assert(self@.contains_key(s));
        let j = choose|j: int| 0 <= j < self.entries@.len() && self.entries@[j].symbol@ == s;
        if j < i {
            assert(self.entries@[j].symbol@ != self.entries@[i].symbol@);
        } else if i < j {
            assert(self.entries@[i].symbol@ != self.entries@[j].symbol@);
        }
    }

    /// A key in the view names some entry.
    proof fn lemma_contains_inverts(&self, s: Seq<char>)
        requires
            self@.contains_key(s),
        ensures
            exists|i: int| 0 <= i < self.entries@.len() && self.entries@[i].symbol@ == s,
    {
    }

    /// An empty rate mapping.
    pub fn new() -> (r: RateMap)
        ensures
            r@ == Map::<Seq<char>, u64>::empty(),
            r.wf(),
    {
        let r = RateMap { entries: Vec::new() };
        proof {
            assert(r@ =~= Map::<Seq<char>, u64>::empty());
        }
        r
    }

    /// Every rate a well-formed mapping holds is strictly positive.
    pub proof fn lemma_rates_positive(&self)
        requires
            self.wf(),
        ensures
            forall|s: Seq<char>| self@.contains_key(s) ==> #[trigger] self@[s] >= 1,
    {
        assert forall|s: Seq<char>| self@.contains_key(s) implies #[trigger] self@[s] >= 1 by {
            self.lemma_contains_inverts(s);
            let i = choose|i: int| 0 <= i < self.entries@.len() && self.entries@[i].symbol@ == s;
        }
    }

    /// Looks a symbol up; `Some` exactly when the mapping holds it.
    pub fn get(&self, symbol: &str) -> (r: Option<u64>)
        requires
            self.wf(),
        ensures
            match r {
                Some(v) => self@.contains_key(symbol@) && self@[symbol@] == v && v >= 1,
                None => !self@.contains_key(symbol@),
            },
    {
        let n = self.entries.len();
        let mut idx: usize = 0;
        while idx < n
            invariant
                self.wf(),
                n == self.entries@.len(),
                idx <= n,
                forall|j: int| 0 <= j < idx ==> self.entries@[j].symbol@ != symbol@,
            decreases n - idx,
        {
            if str_eq(self.entries[idx].symbol.as_str(), symbol) {
                proof {
                    self.lemma_view_index(idx as int);
                }
                return Some(self.entries[idx].rate);
            }
            idx = idx + 1;
        }
        proof {
            if self@.contains_key(symbol@) {
                self.lemma_contains_inverts(symbol@);
            }
        }
        None
    }

    /// Whether the mapping holds a symbol.
    pub fn contains(&self, symbol: &str) -> (r: bool)
        requires
            self.wf(),
        ensures
            r == self@.contains_key(symbol@),
    {
        self.get(symbol).is_some()
    }

    /// Inserts or replaces the rate of a symbol.
    pub fn insert(&mut self, symbol: &str, rate: u64)
        requires
            old(self).wf(),
            rate >= 1,
        ensures
            final(self)@ == old(self)@.insert(symbol@, rate),
            final(self).wf(),
    {
        let ghost pre = *self;
        let n = self.entries.len();
        let mut idx: usize = 0;
        while idx < n
            invariant
                *self == pre,
                pre == *old(self),
                pre.wf(),
                rate >= 1,
                n == self.entries@.len(),
                idx <= n,
                forall|j: int| 0 <= j < idx ==> self.entries@[j].symbol@ != symbol@,
            decreases n - idx,
        {
            if str_eq(self.entries[idx].symbol.as_str(), symbol) {
                self.entries.set(idx, RateEntry { symbol: symbol.to_owned(), rate });
                proof {
                    assert forall|a: int, b: int|
                        0 <= a < b < self.entries@.len() implies self.entries@[a].symbol@
                        != self.entries@[b].symbol@ by {
                        assert(pre.entries@[a].symbol@ != pre.entries@[b].symbol@);
                    }
                    assert(self.wf());
                    assert_maps_equal!(self@, pre@.insert(symbol@, rate), s => {
                        if self@.contains_key(s) {
                            let i = choose|i: int|
                                0 <= i < self.entries@.len() && self.entries@[i].symbol@ == s;
                            if s == symbol@ {
                                if i != idx {
                                    assert(pre.entries@[i].symbol@ == s);
                                    pre.lemma_view_index(i);
                                    pre.lemma_view_index(idx as int);
                                    assert(false);
                                }
                                self.lemma_view_index(idx as int);
                            } else {
                                assert(self.entries@[i].symbol@ == s);
                                assert(i != idx);
                                assert(pre.entries@[i].symbol@ == s);
                                pre.lemma_view_index(i);
                                self.lemma_view_index(i);
                            }
                        }
                        if pre@.insert(symbol@, rate).contains_key(s) {
                            if s == symbol@ {
                                self.lemma_view_index(idx as int);
                            } else {
                                assert(pre@.contains_key(s));
                                pre.lemma_contains_inverts(s);
                                let i = choose|i: int|
                                    0 <= i < pre.entries@.len() && pre.entries@[i].symbol@ == s;
                                assert(self.entries@[i].symbol@ == s);
                                self.lemma_view_index(i);
                                pre.lemma_view_index(i);
                            }
                        }
                    });
                }
                return;
            }
            idx = idx + 1;
        }
        self.entries.push(RateEntry { symbol: symbol.to_owned(), rate });
        proof {
            assert forall|a: int, b: int|
                0 <= a < b < self.entries@.len() implies self.entries@[a].symbol@
                != self.entries@[b].symbol@ by {
                if b < pre.entries@.len() {
                    assert(pre.entries@[a].symbol@ != pre.entries@[b].symbol@);
                } else {
                    assert(self.entries@[b].symbol@ == symbol@);
                    assert(pre.entries@[a].symbol@ != symbol@);
                }
            }
            assert(self.wf());
            assert_maps_equal!(self@, pre@.insert(symbol@, rate), s => {
                if self@.contains_key(s) {
                    let i = choose|i: int|
                        0 <= i < self.entries@.len() && self.entries@[i].symbol@ == s;
                    if s == symbol@ {
                    } else {
                        assert(i < pre.entries@.len());
                        assert(pre.entries@[i].symbol@ == s);
                        pre.lemma_view_index(i);
                        self.lemma_view_index(i);
                    }
                }
                if pre@.insert(symbol@, rate).contains_key(s) {
                    if s == symbol@ {
                        self.lemma_view_index(pre.entries@.len() as int);
                    } else {
                        assert(pre@.contains_key(s));
                        pre.lemma_contains_inverts(s);
                        let i = choose|i: int|
                            0 <= i < pre.entries@.len() && pre.entries@[i].symbol@ == s;
                        assert(self.entries@[i].symbol@ == s);
                        self.lemma_view_index(i);
                        pre.lemma_view_index(i);
                    }
                }
            });
        }
    }

}

impl Clone for RateMap {
    fn clone(&self) -> (r: Self)
        ensures
            self.wf() ==> r@ == self@ && r.wf(),
    {
        let mut entries: Vec<RateEntry> = Vec::new();
        let n = self.entries.len();
        let mut i: usize = 0;
        while i < n
            invariant
                n == self.entries@.len(),
                i <= n,
                entries@.len() == i,
                forall|j: int|
                    0 <= j < i ==> entries@[j].symbol@ == self.entries@[j].symbol@
                        && entries@[j].rate == self.entries@[j].rate,
            decreases n - i,
        {
            entries.push(self.entries[i].clone());
            i = i + 1;
        }
        let r = RateMap { entries };
        proof {
            if self.wf() {
                assert(r.wf());
                assert_maps_equal!(r@, self@, s => {
                    if r@.contains_key(s) {
                        let i = choose|i: int|
                            0 <= i < r.entries@.len() && r.entries@[i].symbol@ == s;
                        assert(self.entries@[i].symbol@ == s);
                        r.lemma_view_index(i);
                        self.lemma_view_index(i);
                    }
                    if self@.contains_key(s) {
                        self.lemma_contains_inverts(s);
                        let i = choose|i: int|
                            0 <= i < self.entries@.len() && self.entries@[i].symbol@ == s;
                        assert(r.entries@[i].symbol@ == s);
                        r.lemma_view_index(i);
                        self.lemma_view_index(i);
                    }
                });
            }
        }
        r
    }
}

} // verus!
