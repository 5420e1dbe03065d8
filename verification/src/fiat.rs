//! The currency registry: the fiat currencies known to the engine, keyed by
//! identifier, with unique symbols.

use vstd::prelude::*;
use vstd::map::*;
use vstd::pervasive::VecAdditionalExecFns;

use crate::text::str_eq;

verus! {

/// A currency as the provider lists it: a display name and a symbol.
#[derive(Debug)]
pub struct Currency {
    pub name: String,
    pub symbol: String,
}

/// A registered fiat currency.
#[derive(Debug)]
pub struct Fiat {
    pub id: i64,
    pub symbol: String,
    pub name: String,
}

/// The mathematical content of a registered currency.
pub ghost struct FiatModel {
    pub id: i64,
    pub symbol: Seq<char>,
    pub name: Seq<char>,
}

impl View for Fiat {
    type V = FiatModel;

    open spec fn view(&self) -> FiatModel {
        FiatModel { id: self.id, symbol: self.symbol@, name: self.name@ }
    }
}

impl Clone for Fiat {
    fn clone(&self) -> (r: Self)
        ensures
            r@ == self@,
    {
        Fiat { id: self.id, symbol: self.symbol.clone(), name: self.name.clone() }
    }
}

/// Some registered currency carries this symbol.
pub open spec fn has_symbol(m: Map<i64, FiatModel>, s: Seq<char>) -> bool {
    exists|i: i64| #[trigger] m.contains_key(i) && m[i].symbol == s
}

/// Some registered currency carries this symbol and this name.
pub open spec fn has_symbol_named(m: Map<i64, FiatModel>, s: Seq<char>, n: Seq<char>) -> bool {
    exists|i: i64| #[trigger] m.contains_key(i) && m[i].symbol == s && m[i].name == n
}

/// No entry of the provider's list carries this symbol.
pub open spec fn symbol_not_listed(currencies: Seq<Currency>, s: Seq<char>) -> bool {
    forall|i: int| 0 <= i < currencies.len() ==> (#[trigger] currencies[i]).symbol@ != s
}

/// No later entry of the provider's list carries the same symbol as entry
/// `j`.
pub open spec fn last_listing_at(currencies: Seq<Currency>, j: int) -> bool {
    forall|k: int|
        j < k < currencies.len() ==> (#[trigger] currencies[k]).symbol@ != currencies[j].symbol@
}

/// The currency registry, keyed by identifier.
#[derive(Debug)]
pub struct FiatRegistry {
    entries: Vec<Fiat>,
    next_id: i64,
}

impl View for FiatRegistry {
    type V = Map<i64, FiatModel>;

    closed spec fn view(&self) -> Map<i64, FiatModel> {
        Map::new(
            |id: i64| exists|i: int| 0 <= i < self.entries@.len() && self.entries@[i].id == id,
            |id: i64|
                {
                    let i = choose|i: int|
                        0 <= i < self.entries@.len() && self.entries@[i].id == id;
                    self.entries@[i]@
                },
        )
    }
}

impl FiatRegistry {
    /// Identifiers and symbols are unique, and every identifier is positive
    /// and below the next one to be handed out.
    pub closed spec fn wf(&self) -> bool {
        &&& forall|i: int, j: int|
            0 <= i < j < self.entries@.len() ==> self.entries@[i].id != self.entries@[j].id
        &&& forall|i: int, j: int|
            0 <= i < j < self.entries@.len() ==> self.entries@[i].symbol@
                != self.entries@[j].symbol@
        &&& forall|i: int|
            0 <= i < self.entries@.len() ==> 1 <= #[trigger] self.entries@[i].id < self.next_id
        &&& 1 <= self.next_id
    }

    /// The next identifier a new currency would get.
    pub closed spec fn spec_next_id(&self) -> int {
        self.next_id as int
    }

    /// Entry `i` is in the view under its identifier.
    proof fn lemma_view_index(&self, i: int)
        requires
            self.wf(),
            0 <= i < self.entries@.len(),
        ensures
            self@.contains_key(self.entries@[i].id),
            self@[self.entries@[i].id] == self.entries@[i]@,
    {
        let id = self.entries@[i].id;
        assert(self@.contains_key(id));
        let j = choose|j: int| 0 <= j < self.entries@.len() && self.entries@[j].id == id;
        if j < i {
            assert(self.entries@[j].id != self.entries@[i].id);
        } else if i < j {
            assert(self.entries@[i].id != self.entries@[j].id);
        }
    }

    /// A key in the view names some entry.
    proof fn lemma_contains_inverts(&self, id: i64)
        requires
            self@.contains_key(id),
        ensures
            exists|i: int| 0 <= i < self.entries@.len() && self.entries@[i].id == id,
    {
    }

    /// An empty registry.
    pub fn new() -> (r: FiatRegistry)
        ensures
            r@ == Map::<i64, FiatModel>::empty(),
            r.wf(),
    {
        let r = FiatRegistry { entries: Vec::new(), next_id: 1 };
        proof {
            assert(r@ =~= Map::<i64, FiatModel>::empty());
        }
        r
    }

    /// The registered currencies, as models, in registration order.
    pub closed spec fn records(&self) -> Seq<FiatModel> {
        self.entries@.map(|i: int, f: Fiat| f@)
    }

    /// Every record of a well-formed registry is in the view under its
    /// identifier.
    pub proof fn lemma_records_in_view(&self, i: int)
        requires
            self.wf(),
            0 <= i < self.records().len(),
        ensures
            self@.contains_key(self.records()[i].id),
            self@[self.records()[i].id] == self.records()[i],
    {
        assert(self.records()[i] == self.entries@[i]@);
        self.lemma_view_index(i);
    }

    /// All registered currencies.
    pub fn get_all_fiat(&self) -> (r: &Vec<Fiat>)
        ensures
            r@.len() == self.records().len(),
            forall|i: int| #![auto] 0 <= i < r@.len() ==> r@[i]@ == self.records()[i],
    {
        proof {
            assert(forall|i: int| #![auto]
                0 <= i < self.entries@.len() ==> self.records()[i] == self.entries@[i]@);
        }
        &self.entries
    }

    /// Looks a currency up by identifier.
    pub fn get_fiat_by_id(&self, id: i64) -> (r: Option<&Fiat>)
        requires
            self.wf(),
        ensures
            match r {
                Some(f) => self@.contains_key(id) && f@ == self@[id] && f.id == id,
                None => !self@.contains_key(id),
            },
    {
        let n = self.entries.len();
        let mut idx: usize = 0;
        while idx < n
            invariant
                self.wf(),
                n == self.entries@.len(),
                idx <= n,
                forall|j: int| 0 <= j < idx ==> self.entries@[j].id != id,
            decreases n - idx,
        {
            if self.entries[idx].id == id {
                proof {
                    self.lemma_view_index(idx as int);
                }
                return Some(&self.entries[idx]);
            }
            idx = idx + 1;
        }
        proof {
            if self@.contains_key(id) {
                self.lemma_contains_inverts(id);
            }
        }
        None
    }

    /// Looks a currency up by symbol.
    pub fn get_fiat_by_symbol(&self, symbol: &str) -> (r: Option<&Fiat>)
        requires
            self.wf(),
        ensures
            match r {
                Some(f) => self@.contains_key(f.id) && f@ == self@[f.id] && f.symbol@ == symbol@,
                None => !has_symbol(self@, symbol@),
            },
    {
        let n = self.entries.len();
        let mut idx: usize = 0;
        while idx < n
            invariant
                self.wf(),
                n == self.entries@.len(),
                idx <= n,
                forall|j: int| 0 <= j < idx ==> self.entries@[j].symbol@ != symbol@,
            decreases n - idx,
        {
            if str_eq(self.entries[idx].symbol.as_str(), symbol) {
                proof {
                    self.lemma_view_index(idx as int);
                }
                return Some(&self.entries[idx]);
            }
            idx = idx + 1;
        }
        proof {
            if has_symbol(self@, symbol@) {
                let i = choose|i: i64| #[trigger] self@.contains_key(i) && self@[i].symbol
                    == symbol@;
                self.lemma_contains_inverts(i);
                let j = choose|j: int| 0 <= j < self.entries@.len() && self.entries@[j].id == i;
                self.lemma_view_index(j);
                assert(self.entries@[j].symbol@ == symbol@);
            }
        }
        None
    }

    /// Registers a currency or refreshes its name: a known symbol keeps its
    /// identifier, a new symbol gets the next one.
    pub fn upsert_currency(&mut self, symbol: &str, name: &str) -> (id: i64)
        requires
            old(self).wf(),
            old(self).spec_next_id() < i64::MAX,
        ensures
            final(self).wf(),
            final(self)@ == old(self)@.insert(
                id,
                FiatModel { id, symbol: symbol@, name: name@ },
            ),
            old(self)@.contains_key(id) ==> old(self)@[id].symbol == symbol@
                && final(self).spec_next_id() == old(self).spec_next_id(),
            !old(self)@.contains_key(id) ==> !has_symbol(old(self)@, symbol@) && id
                == old(self).spec_next_id() && final(self).spec_next_id() == old(self).spec_next_id()
                + 1,
    {
        let ghost pre = *self;
        let n = self.entries.len();
        let mut idx: usize = 0;
        while idx < n
            invariant
                *self == pre,
                pre == *old(self),
                pre.wf(),
                n == self.entries@.len(),
                idx <= n,
                forall|j: int| 0 <= j < idx ==> self.entries@[j].symbol@ != symbol@,
            decreases n - idx,
        {
            if str_eq(self.entries[idx].symbol.as_str(), symbol) {
                let id = self.entries[idx].id;
                proof {
                    pre.lemma_view_index(idx as int);
                }
                self.entries.set(
                    idx,
                    Fiat { id, symbol: symbol.to_owned(), name: name.to_owned() },
                );
                proof {
                    assert forall|a: int, b: int|
                        0 <= a < b < self.entries@.len() implies self.entries@[a].id
                        != self.entries@[b].id && self.entries@[a].symbol@
                        != self.entries@[b].symbol@ by {
                        assert(pre.entries@[a].id != pre.entries@[b].id);
                        assert(pre.entries@[a].symbol@ != pre.entries@[b].symbol@);
                    }
                    assert(self.wf());
                    assert_maps_equal!(self@, pre@.insert(id, self.entries@[idx as int]@), kk => {
                        if self@.contains_key(kk) {
                            let i = choose|i: int|
                                0 <= i < self.entries@.len() && self.entries@[i].id == kk;
                            if kk == id {
                                if i != idx {
                                    assert(pre.entries@[i].id == kk);
                                    pre.lemma_view_index(i);
                                    pre.lemma_view_index(idx as int);
                                    assert(false);
                                }
                                self.lemma_view_index(idx as int);
                            } else {
                                assert(self.entries@[i].id == kk);
                                assert(i != idx);
                                assert(pre.entries@[i].id == kk);
                                pre.lemma_view_index(i);
                                self.lemma_view_index(i);
                            }
                        }
                        if pre@.insert(id, self.entries@[idx as int]@).contains_key(kk) {
                            if kk == id {
                                self.lemma_view_index(idx as int);
                            } else {
                                assert(pre@.contains_key(kk));
                                pre.lemma_contains_inverts(kk);
                                let i = choose|i: int|
                                    0 <= i < pre.entries@.len() && pre.entries@[i].id == kk;
                                assert(self.entries@[i].id == kk);
                                self.lemma_view_index(i);
                                pre.lemma_view_index(i);
                            }
                        }
                    });
                }
                return id;
            }
            idx = idx + 1;
        }
        let id = self.next_id;
        self.entries.push(Fiat { id, symbol: symbol.to_owned(), name: name.to_owned() });
        self.next_id = self.next_id + 1;
        proof {
            if pre@.contains_key(id) {
                pre.lemma_contains_inverts(id);
                assert(false);
            }
            if has_symbol(pre@, symbol@) {
                let i = choose|i: i64| #[trigger] pre@.contains_key(i) && pre@[i].symbol
                    == symbol@;
                pre.lemma_contains_inverts(i);
                let j = choose|j: int| 0 <= j < pre.entries@.len() && pre.entries@[j].id == i;
                pre.lemma_view_index(j);
                assert(false);
            }
            assert forall|a: int, b: int|
                0 <= a < b < self.entries@.len() implies self.entries@[a].id
                != self.entries@[b].id && self.entries@[a].symbol@
                != self.entries@[b].symbol@ by {
                if b < pre.entries@.len() {
                    assert(pre.entries@[a].id != pre.entries@[b].id);
                    assert(pre.entries@[a].symbol@ != pre.entries@[b].symbol@);
                } else {
                    assert(1 <= pre.entries@[a].id < pre.next_id);
                    assert(self.entries@[b].id == id);
                    assert(self.entries@[b].symbol@ == symbol@);
                    assert(pre.entries@[a].symbol@ != symbol@);
                }
            }
            assert(self.wf());
            let ghost m = self.entries@[pre.entries@.len() as int]@;
            assert_maps_equal!(self@, pre@.insert(id, m), kk => {
                if self@.contains_key(kk) {
                    let i = choose|i: int|
                        0 <= i < self.entries@.len() && self.entries@[i].id == kk;
                    if kk == id {
                    } else {
                        assert(i < pre.entries@.len());
                        assert(pre.entries@[i].id == kk);
                        pre.lemma_view_index(i);
                        self.lemma_view_index(i);
                    }
                }
                if pre@.insert(id, m).contains_key(kk) {
                    if kk == id {
                        self.lemma_view_index(pre.entries@.len() as int);
                    } else {
                        assert(pre@.contains_key(kk));
                        pre.lemma_contains_inverts(kk);
                        let i = choose|i: int|
                            0 <= i < pre.entries@.len() && pre.entries@[i].id == kk;
                        assert(self.entries@[i].id == kk);
                        self.lemma_view_index(i);
                        pre.lemma_view_index(i);
                    }
                }
            });
        }
        id
    }

    /// Merges the provider's currency list into the registry: every listed
    /// symbol is registered afterwards, under its last listed name;
    /// already-registered currencies keep their identifier; currencies the
    /// list does not name are untouched; and nothing else appears. Returns
    /// how many entries were written, capped at the counter's range.
    pub fn update_currencies(&mut self, currencies: &Vec<Currency>) -> (written: u8)
        requires
            old(self).wf(),
            old(self).spec_next_id() + currencies@.len() < i64::MAX,
        ensures
            final(self).wf(),
            forall|j: int| #![auto]
                0 <= j < currencies@.len() ==> has_symbol(final(self)@, currencies@[j].symbol@),
            forall|j: int| #![auto]
                0 <= j < currencies@.len() && last_listing_at(currencies@, j)
                    ==> has_symbol_named(
                    final(self)@,
                    currencies@[j].symbol@,
                    currencies@[j].name@,
                ),
            forall|i: i64| #![auto]
                old(self)@.contains_key(i) ==> final(self)@.contains_key(i)
                    && final(self)@[i].symbol == old(self)@[i].symbol,
            forall|i: i64| #![auto]
                old(self)@.contains_key(i) && symbol_not_listed(currencies@, old(self)@[i].symbol)
                    ==> final(self)@[i] == old(self)@[i],
            forall|i: i64| #![auto]
                final(self)@.contains_key(i) ==> old(self)@.contains_key(i) || !symbol_not_listed(
                    currencies@,
                    final(self)@[i].symbol,
                ),
            written == (if currencies@.len() < 256 {
                currencies@.len() as int
            } else {
                255int
            }),
    {
        let n = currencies.len();
        let mut idx: usize = 0;
        while idx < n
            invariant
                self.wf(),
                n == currencies@.len(),
                idx <= n,
                self.spec_next_id() + (n - idx) < i64::MAX,
                forall|j: int| #![auto]
                    0 <= j < idx ==> has_symbol(self@, currencies@[j].symbol@),
                forall|j: int| #![auto]
                    0 <= j < idx && last_listing_at(currencies@.subrange(0, idx as int), j)
                        ==> has_symbol_named(self@, currencies@[j].symbol@, currencies@[j].name@),
                forall|i: i64| #![auto]
                    old(self)@.contains_key(i) ==> self@.contains_key(i) && self@[i].symbol
                        == old(self)@[i].symbol,
                forall|i: i64| #![auto]
                    old(self)@.contains_key(i) && symbol_not_listed(
                        currencies@.subrange(0, idx as int),
                        old(self)@[i].symbol,
                    ) ==> self@[i] == old(self)@[i],
                forall|i: i64| #![auto]
                    self@.contains_key(i) ==> old(self)@.contains_key(i) || !symbol_not_listed(
                        currencies@,
                        self@[i].symbol,
                    ),
            decreases n - idx,
        {
            let ghost mid = *self;
            let c = &currencies[idx];
            let id = self.upsert_currency(c.symbol.as_str(), c.name.as_str());
            proof {
                let processed = currencies@.subrange(0, idx + 1);
                assert(processed[idx as int] == currencies@[idx as int]);
                assert(self@.contains_key(id) && self@[id].symbol == currencies@[idx as int].symbol@
                    && self@[id].name == currencies@[idx as int].name@);

                // Every processed symbol is present: an id other than the
                // upserted one is untouched, and the upserted one kept its
                // symbol.
                assert forall|j: int| #![auto]
                    0 <= j < idx + 1 implies has_symbol(self@, currencies@[j].symbol@) by {
                    if j < idx {
                        let i = choose|i: i64| #[trigger] mid@.contains_key(i) && mid@[i].symbol
                            == currencies@[j].symbol@;
                        if i == id {
                            assert(self@.contains_key(id));
                        } else {
                            assert(self@.contains_key(i) && self@[i] == mid@[i]);
                        }
                    }
                }

                // A symbol last listed within the processed prefix carries
                // its listed name: a later upsert for a different symbol
                // cannot have touched its record.
                assert forall|j: int| #![auto]
                    0 <= j < idx + 1 && last_listing_at(processed, j) implies has_symbol_named(
                    self@,
                    currencies@[j].symbol@,
                    currencies@[j].name@,
                ) by {
                    if j < idx {
                        assert(processed[j] == currencies@[j]);
                        assert(currencies@[idx as int].symbol@ != currencies@[j].symbol@);
                        assert forall|k: int|
                            j < k < idx implies (#[trigger] currencies@.subrange(0, idx as int)[
                            k]).symbol@ != currencies@.subrange(0, idx as int)[j].symbol@ by {
                            assert(processed[k] == currencies@[k]);
                            assert(processed[k].symbol@ != processed[j].symbol@);
                        }
                        assert(last_listing_at(currencies@.subrange(0, idx as int), j));
                        let i = choose|i: i64| #[trigger] mid@.contains_key(i) && mid@[i].symbol
                            == currencies@[j].symbol@ && mid@[i].name == currencies@[j].name@;
                        if i == id {
                            assert(mid@[id].symbol == currencies@[idx as int].symbol@);
                            assert(false);
                        }
                        assert(self@.contains_key(i) && self@[i] == mid@[i]);
                    }
                }

                // Registered ids and their symbols survive the upsert.
                assert forall|i: i64| #![auto]
                    old(self)@.contains_key(i) implies self@.contains_key(i) && self@[i].symbol
                    == old(self)@[i].symbol by {
                    assert(mid@.contains_key(i) && mid@[i].symbol == old(self)@[i].symbol);
                    if i == id {
                        assert(mid@[id].symbol == currencies@[idx as int].symbol@);
                    }
                }

                // Records of symbols the processed prefix does not name are
                // untouched.
                assert forall|i: i64| #![auto]
                    old(self)@.contains_key(i) && symbol_not_listed(
                        processed,
                        old(self)@[i].symbol,
                    ) implies self@[i] == old(self)@[i] by {
                    assert forall|k: int|
                        0 <= k < idx implies (#[trigger] currencies@.subrange(0, idx as int)[
                        k]).symbol@ != old(self)@[i].symbol by {
                        assert(processed[k] == currencies@[k]);
                        assert(processed[k].symbol@ != old(self)@[i].symbol);
                    }
                    assert(symbol_not_listed(
                        currencies@.subrange(0, idx as int),
                        old(self)@[i].symbol,
                    ));
                    assert(mid@[i] == old(self)@[i]);
                    assert(processed[idx as int].symbol@ != old(self)@[i].symbol);
                    if i == id {
                        assert(mid@[id].symbol == currencies@[idx as int].symbol@);
                        assert(false);
                    }
                }

                // Nothing with an unlisted symbol appears.
                assert forall|i: i64| #![auto]
                    self@.contains_key(i) implies old(self)@.contains_key(i)
                    || !symbol_not_listed(currencies@, self@[i].symbol) by {
                    if i == id {
                        assert(self@[id].symbol == currencies@[idx as int].symbol@);
                        assert(!symbol_not_listed(currencies@, self@[id].symbol));
                    } else {
                        assert(mid@.contains_key(i) && self@[i] == mid@[i]);
                    }
                }
            }
            idx = idx + 1;
        }
        proof {
            assert(currencies@.subrange(0, n as int) =~= currencies@);
        }
        if n < 256 {
            n as u8
        } else {
            255
        }
    }
}

} // verus!
