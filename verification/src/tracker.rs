//! Bookkeeping around the engine: the application configuration, the
//! database location, freshness checks for scheduled refreshes, and the
//! per-subsystem last-update tracker.

use vstd::prelude::*;
use vstd::map::*;
use vstd::pervasive::VecAdditionalExecFns;
use vstd::string::StringExecFns;

use crate::text::str_eq;

verus! {

/// The application configuration: which environment the process runs in.
#[derive(Debug)]
pub struct AppConfig {
    pub env: String,
}

/// The database location for a data directory and configuration: the
/// development environment gets a database file of its own.
pub fn get_db_url(app_data_dir: &str, config: &AppConfig) -> (r: String)
    ensures
        r@ == "sqlite:"@ + app_data_dir@ + "/"@ + (if config.env@ == "dev"@ {
            "aura_dev"@
        } else {
            "aura"@
        }) + ".sqlite"@,
{
    let name: &str = if str_eq(config.env.as_str(), "dev") {
        "aura_dev"
    } else {
        "aura"
    };
    let mut url: String = "sqlite:".to_owned();
    url.append(app_data_dir);
    url.append("/");
    url.append(name);
    url.append(".sqlite");
    url
}

/// Whether a refresh is due: when nothing was ever refreshed, or when the
/// last refresh lies more than `max_age` behind `now` (both in seconds).
pub fn require_update(last_updated_at: Option<i64>, now: i64, max_age: i64) -> (r: bool)
    ensures
        r == (match last_updated_at {
            None => true,
            Some(t) => t < now - max_age,
        }),
{
    match last_updated_at {
        None => true,
        Some(t) => (t as i128) < (now as i128) - (max_age as i128),
    }
}

/// One tracked subsystem: its name and when it was last refreshed.
#[derive(Debug)]
struct TrackedEntry {
    name: String,
    last_updated_at: i64,
}

/// The last-update tracker: for each named subsystem, when it last
/// refreshed its data.
#[derive(Debug)]
pub struct SysTracker {
    entries: Vec<TrackedEntry>,
}

impl View for SysTracker {
    type V = Map<Seq<char>, i64>;

    closed spec fn view(&self) -> Map<Seq<char>, i64> {
        Map::new(
            |s: Seq<char>|
                exists|i: int| 0 <= i < self.entries@.len() && self.entries@[i].name@ == s,
            |s: Seq<char>|
                {
                    let i = choose|i: int|
                        0 <= i < self.entries@.len() && self.entries@[i].name@ == s;
                    self.entries@[i].last_updated_at
                },
        )
    }
}

impl SysTracker {
    /// Names are unique.
    pub closed spec fn wf(&self) -> bool {
        forall|i: int, j: int|
            0 <= i < j < self.entries@.len() ==> self.entries@[i].name@ != self.entries@[j].name@
    }

    /// Entry `i` is in the view under its name.
    proof fn lemma_view_index(&self, i: int)
        requires
            self.wf(),
            0 <= i < self.entries@.len(),
        ensures
            self@.contains_key(self.entries@[i].name@),
            self@[self.entries@[i].name@] == self.entries@[i].last_updated_at,
    {
        let s = self.entries@[i].name@;
        assert(self@.contains_key(s));
        let j = choose|j: int| 0 <= j < self.entries@.len() && self.entries@[j].name@ == s;
        if j < i {
            assert(self.entries@[j].name@ != self.entries@[i].name@);
        } else if i < j {
            assert(self.entries@[i].name@ != self.entries@[j].name@);
        }
    }

    /// A key in the view names some entry.
    proof fn lemma_contains_inverts(&self, s: Seq<char>)
        requires
            self@.contains_key(s),
        ensures
            exists|i: int| 0 <= i < self.entries@.len() && self.entries@[i].name@ == s,
    {
    }

    /// An empty tracker.
    pub fn new() -> (r: SysTracker)
        ensures
            r@ == Map::<Seq<char>, i64>::empty(),
            r.wf(),
    {
        let r = SysTracker { entries: Vec::new() };
        proof {
            assert(r@ =~= Map::<Seq<char>, i64>::empty());
        }
        r
    }

    /// When the named subsystem last refreshed, if ever.
    pub fn get_last_updated_at(&self, name: &str) -> (r: Option<i64>)
        requires
            self.wf(),
        ensures
            match r {
                Some(t) => self@.contains_key(name@) && t == self@[name@],
                None => !self@.contains_key(name@),
            },
    {
        let n = self.entries.len();
        let mut idx: usize = 0;
        while idx < n
            invariant
                self.wf(),
                n == self.entries@.len(),
                idx <= n,
                forall|j: int| 0 <= j < idx ==> self.entries@[j].name@ != name@,
            decreases n - idx,
        {
            if str_eq(self.entries[idx].name.as_str(), name) {
                proof {
                    self.lemma_view_index(idx as int);
                }
                return Some(self.entries[idx].last_updated_at);
            }
            idx = idx + 1;
        }
        proof {
            if self@.contains_key(name@) {
                self.lemma_contains_inverts(name@);
            }
        }
        None
    }

    /// Records that the named subsystem refreshed at `now`.
    pub fn update_last_updated_at(&mut self, name: &str, now: i64)
        requires
            old(self).wf(),
        ensures
            final(self).wf(),
            final(self)@ == old(self)@.insert(name@, now),
    {
        let ghost pre = *self;
        let n = self.entries.len();
        let mut idx: usize = 0;
        while idx < n
            invariant
                *self == pre,
                pre == *old(self),
                pre.wf(),
                n == self.entries@.len(),
                idx <= n,
                forall|j: int| 0 <= j < idx ==> self.entries@[j].name@ != name@,
            decreases n - idx,
        {
            if str_eq(self.entries[idx].name.as_str(), name) {
                self.entries.set(
                    idx,
                    TrackedEntry { name: name.to_owned(), last_updated_at: now },
                );
                proof {
                    assert forall|a: int, b: int|
                        0 <= a < b < self.entries@.len() implies self.entries@[a].name@
                        != self.entries@[b].name@ by {
                        assert(pre.entries@[a].name@ != pre.entries@[b].name@);
                    }
                    assert(self.wf());
                    assert_maps_equal!(self@, pre@.insert(name@, now), s => {
                        if self@.contains_key(s) {
                            let i = choose|i: int|
                                0 <= i < self.entries@.len() && self.entries@[i].name@ == s;
                            if s == name@ {
                                if i != idx {
                                    assert(pre.entries@[i].name@ == s);
                                    pre.lemma_view_index(i);
                                    pre.lemma_view_index(idx as int);
                                    assert(false);
                                }
                                self.lemma_view_index(idx as int);
                            } else {
                                assert(self.entries@[i].name@ == s);
                                assert(i != idx);
                                assert(pre.entries@[i].name@ == s);
                                pre.lemma_view_index(i);
                                self.lemma_view_index(i);
                            }
                        }
                        if pre@.insert(name@, now).contains_key(s) {
                            if s == name@ {
                                self.lemma_view_index(idx as int);
                            } else {
                                assert(pre@.contains_key(s));
                                pre.lemma_contains_inverts(s);
                                let i = choose|i: int|
                                    0 <= i < pre.entries@.len() && pre.entries@[i].name@ == s;
                                assert(self.entries@[i].name@ == s);
                                self.lemma_view_index(i);
                                pre.lemma_view_index(i);
                            }
                        }
                    });
                }
                return;
            }
            idx = idx + 1;
        }
        self.entries.push(TrackedEntry { name: name.to_owned(), last_updated_at: now });
        proof {
            assert forall|a: int, b: int|
                0 <= a < b < self.entries@.len() implies self.entries@[a].name@
                != self.entries@[b].name@ by {
                if b < pre.entries@.len() {
                    assert(pre.entries@[a].name@ != pre.entries@[b].name@);
                } else {
                    assert(self.entries@[b].name@ == name@);
                    assert(pre.entries@[a].name@ != name@);
                }
            }
            assert(self.wf());
            assert_maps_equal!(self@, pre@.insert(name@, now), s => {
                if self@.contains_key(s) {
                    let i = choose|i: int|
                        0 <= i < self.entries@.len() && self.entries@[i].name@ == s;
                    if s == name@ {
                    } else {
                        assert(i < pre.entries@.len());
                        assert(pre.entries@[i].name@ == s);
                        pre.lemma_view_index(i);
                        self.lemma_view_index(i);
                    }
                }
                if pre@.insert(name@, now).contains_key(s) {
                    if s == name@ {
                        self.lemma_view_index(pre.entries@.len() as int);
                    } else {
                        assert(pre@.contains_key(s));
                        pre.lemma_contains_inverts(s);
                        let i = choose|i: int|
                            0 <= i < pre.entries@.len() && pre.entries@[i].name@ == s;
                        assert(self.entries@[i].name@ == s);
                        self.lemma_view_index(i);
                        pre.lemma_view_index(i);
                    }
                }
            });
        }
    }
}

} // verus!
