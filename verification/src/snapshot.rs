//! Metric snapshots.
//!
//! A [`MetricsSnapshot`] is an immutable-by-convention mapping from metric
//! name to fixed-point value, captured once per evaluation tick. Its view is
//! a `Map<Seq<char>, i64>`; every entry is reachable under exactly one name.

use vstd::prelude::*;

use crate::text::string_eq_str;

verus! {

/// Whether an entry list holds the key `k`.
pub open spec fn spec_has_key(s: Seq<(String, i64)>, k: Seq<char>) -> bool {
    exists|i: int| 0 <= i < s.len() && s[i].0@ == k
}

/// The index of the entry holding the key `k` (meaningful only when the keys
/// are distinct and `spec_has_key` holds).
pub open spec fn spec_key_index(s: Seq<(String, i64)>, k: Seq<char>) -> int {
    choose|i: int| 0 <= i < s.len() && s[i].0@ == k
}

/// Distinctness of the keys of an entry list.
pub open spec fn spec_distinct_keys(s: Seq<(String, i64)>) -> bool {
    forall|i: int, j: int| #![trigger s[i].0@, s[j].0@]
        0 <= i < j < s.len() ==> s[i].0@ != s[j].0@
}

/// With distinct keys, `spec_key_index` is the one index holding `k`.
proof fn lemma_key_index_unique(s: Seq<(String, i64)>, k: Seq<char>, i: int)
    requires
        spec_distinct_keys(s),
        0 <= i < s.len(),
        s[i].0@ == k,
    ensures
        spec_has_key(s, k),
        spec_key_index(s, k) == i,
{
    assert(spec_has_key(s, k));
    let w = spec_key_index(s, k);
    assert(0 <= w < s.len() && s[w].0@ == k);
    if w < i {
        assert(s[w].0@ != s[i].0@);
    } else if w > i {
        assert(s[i].0@ != s[w].0@);
    }
}

/// A mapping from metric name to fixed-point metric value.
pub struct MetricsSnapshot {
    entries: Vec<(String, i64)>,
}

impl View for MetricsSnapshot {
    type V = Map<Seq<char>, i64>;

    closed spec fn view(&self) -> Map<Seq<char>, i64> {
        Map::new(
            |k: Seq<char>| spec_has_key(self.entries@, k),
            |k: Seq<char>| self.entries@[spec_key_index(self.entries@, k)].1,
        )
    }
}

impl MetricsSnapshot {
    /// No two entries share a name.
    pub closed spec fn wf(&self) -> bool {
        spec_distinct_keys(self.entries@)
    }

    /// Creates an empty snapshot.
    pub fn new() -> (r: MetricsSnapshot)
        ensures
            r.wf(),
            r@ == Map::<Seq<char>, i64>::empty(),
    {
        let r = MetricsSnapshot { entries: Vec::new() };
        proof {
            assert(r@ =~= Map::<Seq<char>, i64>::empty());
        }
        r
    }

    /// The stored value of the metric `name`, if the snapshot holds one.
    pub fn get(&self, name: &str) -> (r: Option<i64>)
        requires
            self.wf(),
        ensures
            match r {
                Some(v) => self@.contains_key(name@) && v == self@[name@],
                None => !self@.contains_key(name@),
            },
    {
        let mut i: usize = 0;
        while i < self.entries.len()
            invariant
                self.wf(),
                i <= self.entries@.len(),
                forall|j: int| 0 <= j < i ==> self.entries@[j].0@ != name@,
        decreases self.entries@.len() - i,
        {
            if string_eq_str(&self.entries[i].0, name) {
                proof {
                    lemma_key_index_unique(self.entries@, name@, i as int);
                }
                return Some(self.entries[i].1);
            }
            i = i + 1;
        }
        proof {
            assert(!spec_has_key(self.entries@, name@));
        }
        None
    }

    /// Stores `value` under `name`, replacing any earlier value of that name.
    pub fn insert(&mut self, name: &str, value: i64)
        requires
            old(self).wf(),
        ensures
            final(self).wf(),
            final(self)@ == old(self)@.insert(name@, value),
    {
        let ghost s0 = self.entries@;
        let mut i: usize = 0;
        let mut found: Option<usize> = None;
        while i < self.entries.len()
            invariant
                i <= self.entries@.len(),
                self.entries@ == s0,
                match found {
                    Some(fi) => fi < i && s0[fi as int].0@ == name@,
                    None => forall|j: int| 0 <= j < i ==> s0[j].0@ != name@,
                },
            decreases self.entries@.len() - i,
        {
            if found.is_none() && string_eq_str(&self.entries[i].0, name) {
                found = Some(i);
            }
            i = i + 1;
        }
        match found {
            Some(fi) => {
                self.entries.remove(fi);
                self.entries.insert(fi, (name.to_owned(), value));
                proof {
                    let s1 = self.entries@;
                    assert(s1 =~= s0.update(fi as int, (s1[fi as int].0, value)));
                    assert forall|k: Seq<char>| #[trigger] spec_has_key(s1, k)
                        <==> spec_has_key(s0, k) by {
                        if spec_has_key(s1, k) {
                            let w = choose|w: int| 0 <= w < s1.len() && s1[w].0@ == k;
                            assert(s0[w].0@ == k);
                        }
                        if spec_has_key(s0, k) {
                            let w = choose|w: int| 0 <= w < s0.len() && s0[w].0@ == k;
                            assert(s1[w].0@ == k);
                        }
                    }
                    assert forall|k: Seq<char>| spec_has_key(s1, k) implies (#[trigger] self@[k])
                        == old(self)@.insert(name@, value)[k] by {
                        let w = spec_key_index(s1, k);
                        assert(0 <= w < s1.len() && s1[w].0@ == k);
                        if k == name@ {
                            assert(w == fi);
                        } else {
                            assert(w != fi);
                            let w0 = spec_key_index(s0, k);
                            assert(0 <= w0 < s0.len() && s0[w0].0@ == k);
                            assert(w0 == w);
                        }
                    }
                    assert(self@ =~= old(self)@.insert(name@, value));
                }
            },
            None => {
                self.entries.push((name.to_owned(), value));
                proof {
                    let s1 = self.entries@;
                    assert forall|k: Seq<char>| #[trigger] spec_has_key(s1, k)
                        <==> (spec_has_key(s0, k) || k == name@) by {
                        if spec_has_key(s1, k) {
                            let w = choose|w: int| 0 <= w < s1.len() && s1[w].0@ == k;
                            if w < s0.len() {
                                assert(s0[w].0@ == k);
                            }
                        }
                        if spec_has_key(s0, k) {
                            let w = choose|w: int| 0 <= w < s0.len() && s0[w].0@ == k;
                            assert(s1[w].0@ == k);
                        }
                        if k == name@ {
                            assert(s1[s0.len() as int].0@ == k);
                        }
                    }
                    assert forall|k: Seq<char>| spec_has_key(s1, k) implies (#[trigger] self@[k])
                        == old(self)@.insert(name@, value)[k] by {
                        let w = spec_key_index(s1, k);
                        assert(0 <= w < s1.len() && s1[w].0@ == k);
                        if k == name@ {
                            assert(forall|j: int| 0 <= j < s0.len() ==> s0[j].0@ != name@);
                            assert(w == s0.len());
                        } else {
                            assert(w < s0.len());
                            let w0 = spec_key_index(s0, k);
                            assert(s0[w0].0@ == k);
                            assert(w0 == w);
                        }
                    }
                    assert(self@ =~= old(self)@.insert(name@, value));
                }
            },
        }
    }
}

} // verus!
