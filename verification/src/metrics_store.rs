//! The metric time-series store.
//!
//! A per-metric, capacity-bounded sequence of timestamped samples. Appending
//! beyond the per-metric capacity drops the oldest sample of that metric
//! (the length bound protects memory under high-frequency writes); a sweep
//! additionally discards samples older than a cutoff (the age bound enforces
//! retention even for low-frequency metrics). Sample order is preserved.

use vstd::prelude::*;

use crate::bounded::{lemma_filter_empty, lemma_filter_take_step, spec_bounded_push};
use crate::json::{append_json_int, append_json_string, lemma_json_join_step, spec_json_array,
    spec_json_join, spec_json_object, spec_json_string};
use crate::numfmt::spec_dec_signed;
use crate::clock::now_millis;
use crate::fixed::{div_trunc_sum, spec_div_trunc};
use crate::text::string_eq_str;

verus! {

/// One sample: a timestamp in milliseconds and a fixed-point metric value.
#[derive(Debug, Clone, Copy, PartialEq, Eq, Structural)]
pub struct MetricDataPoint {
    /// When the sample was taken, in milliseconds since the Unix epoch.
    pub timestamp: i64,
    /// The sampled fixed-point metric value.
    pub value: i64,
}

/// Whether an entry list holds the metric `k`.
pub open spec fn spec_has_metric(s: Seq<(String, Vec<MetricDataPoint>)>, k: Seq<char>) -> bool {
    exists|i: int| 0 <= i < s.len() && s[i].0@ == k
}

/// The index of the entry holding the metric `k` (meaningful only when the
/// keys are distinct and `spec_has_metric` holds).
pub open spec fn spec_metric_index(s: Seq<(String, Vec<MetricDataPoint>)>, k: Seq<char>) -> int {
    choose|i: int| 0 <= i < s.len() && s[i].0@ == k
}

/// Distinctness of the keys of an entry list.
pub open spec fn spec_distinct_metrics(s: Seq<(String, Vec<MetricDataPoint>)>) -> bool {
    forall|i: int, j: int| #![trigger s[i].0@, s[j].0@]
        0 <= i < j < s.len() ==> s[i].0@ != s[j].0@
}

/// With distinct keys, `spec_metric_index` is the one index holding `k`.
proof fn lemma_metric_index_unique(s: Seq<(String, Vec<MetricDataPoint>)>, k: Seq<char>, i: int)
    requires
        spec_distinct_metrics(s),
        0 <= i < s.len(),
        s[i].0@ == k,
    ensures
        spec_has_metric(s, k),
        spec_metric_index(s, k) == i,
{
    assert(spec_has_metric(s, k));
    let w = spec_metric_index(s, k);
    assert(0 <= w < s.len() && s[w].0@ == k);
    if w < i {
        assert(s[w].0@ != s[i].0@);
    } else if w > i {
        assert(s[i].0@ != s[w].0@);
    }
}

/// The retained series of a metric: what the store holds, or empty for a
/// metric never observed.
pub open spec fn spec_series(
    m: Map<Seq<char>, Seq<MetricDataPoint>>,
    k: Seq<char>,
) -> Seq<MetricDataPoint> {
    if m.contains_key(k) {
        m[k]
    } else {
        Seq::empty()
    }
}

/// The sum of the values of a series, as a mathematical integer.
pub open spec fn spec_sum(points: Seq<MetricDataPoint>) -> int
    decreases points.len(),
{
    if points.len() == 0 {
        0
    } else {
        spec_sum(points.drop_last()) + points.last().value
    }
}

/// The average over the last `n` samples of a series (or all, if fewer),
/// truncated toward zero. Meaningful for a non-empty series and `n >= 1`.
pub open spec fn spec_average(points: Seq<MetricDataPoint>, n: int) -> int {
    let start = if points.len() > n {
        points.len() - n
    } else {
        0
    };
    let window = points.skip(start);
    spec_div_trunc(spec_sum(window), window.len() as int)
}

/// What a sweep at `cutoff` does: the metric set is unchanged, and each
/// series keeps exactly its samples younger than the cutoff, in order.
pub open spec fn spec_swept(
    pre: Map<Seq<char>, Seq<MetricDataPoint>>,
    post: Map<Seq<char>, Seq<MetricDataPoint>>,
    cutoff: int,
) -> bool {
    &&& post.dom() == pre.dom()
    &&& forall|k: Seq<char>|
        pre.contains_key(k) ==> #[trigger] post[k] == pre[k].filter(
            |p: MetricDataPoint| p.timestamp > cutoff,
        )
}

/// The per-metric, capacity-bounded store of samples.
pub struct MetricsStore {
    data: Vec<(String, Vec<MetricDataPoint>)>,
    max_data_points: usize,
}

impl View for MetricsStore {
    type V = Map<Seq<char>, Seq<MetricDataPoint>>;

    closed spec fn view(&self) -> Map<Seq<char>, Seq<MetricDataPoint>> {
        Map::new(
            |k: Seq<char>| spec_has_metric(self.data@, k),
            |k: Seq<char>| self.data@[spec_metric_index(self.data@, k)].1@,
        )
    }
}

impl MetricsStore {
    /// The per-metric capacity the store was created with.
    pub closed spec fn spec_capacity(&self) -> int {
        self.max_data_points as int
    }

    /// Metric names are distinct and no series exceeds the capacity.
    pub closed spec fn wf(&self) -> bool {
        &&& spec_distinct_metrics(self.data@)
        &&& forall|i: int|
            0 <= i < self.data@.len() ==> #[trigger] self.data@[i].1@.len()
                <= self.max_data_points
    }

    /// Creates an empty store with the given per-metric capacity.
    pub fn new(max_data_points: usize) -> (r: MetricsStore)
        ensures
            r@ == Map::<Seq<char>, Seq<MetricDataPoint>>::empty(),
            r.spec_capacity() == max_data_points,
            r.wf(),
    {
        let r = MetricsStore { data: Vec::new(), max_data_points };
        proof {
            assert(r@ =~= Map::<Seq<char>, Seq<MetricDataPoint>>::empty());
        }
        r
    }

    /// Appends the sample `(timestamp, value)` to the series of
    /// `metric_name`, trimming that series' oldest sample if its capacity is
    /// exceeded.
    pub fn add_metric_at(&mut self, metric_name: &str, value: i64, timestamp: i64)
        requires
            old(self).wf(),
        ensures
            final(self).wf(),
            final(self).spec_capacity() == old(self).spec_capacity(),
            final(self)@ == old(self)@.insert(
                metric_name@,
                spec_bounded_push(
                    spec_series(old(self)@, metric_name@),
                    MetricDataPoint { timestamp, value },
                    old(self).spec_capacity(),
                ),
            ),
    {
        let ghost s0 = self.data@;
        let point = MetricDataPoint { timestamp, value };
        let mut i: usize = 0;
        let mut found: Option<usize> = None;
        while i < self.data.len()
            invariant
                self.data@ == s0,
                i <= s0.len(),
                match found {
                    Some(fi) => fi < i && s0[fi as int].0@ == metric_name@,
                    None => forall|j: int| 0 <= j < i ==> s0[j].0@ != metric_name@,
                },
            decreases s0.len() - i,
        {
            if found.is_none() && string_eq_str(&self.data[i].0, metric_name) {
                found = Some(i);
            }
            i = i + 1;
        }
        match found {
            Some(fi) => {
                let (name_held, mut points) = self.data.remove(fi);
                let ghost series0 = points@;
                points.push(point);
                if points.len() > self.max_data_points {
                    points.remove(0);
                    proof {
                        assert(points@ =~= series0.push(point).drop_first());
                    }
                }
                self.data.insert(fi, (name_held, points));
                proof {
                    let s1 = self.data@;
                    assert(s1 =~= s0.update(fi as int, (s1[fi as int].0, s1[fi as int].1)));
                    assert(s1[fi as int].0@ == metric_name@);
                    assert(s1[fi as int].1@ == spec_bounded_push(
                        series0,
                        point,
                        self.max_data_points as int,
                    ));
                    lemma_metric_index_unique(s0, metric_name@, fi as int);
                    assert(spec_series(old(self)@, metric_name@) == series0);
                    assert forall|k: Seq<char>| #[trigger] spec_has_metric(s1, k)
                        <==> spec_has_metric(s0, k) by {
                        if spec_has_metric(s1, k) {
                            let w = choose|w: int| 0 <= w < s1.len() && s1[w].0@ == k;
                            assert(s0[w].0@ == k);
                        }
                        if spec_has_metric(s0, k) {
                            let w = choose|w: int| 0 <= w < s0.len() && s0[w].0@ == k;
                            assert(s1[w].0@ == k);
                        }
                    }
                    assert forall|k: Seq<char>| spec_has_metric(s1, k) implies (#[trigger] self@[k])
                        == old(self)@.insert(
                        metric_name@,
                        spec_bounded_push(series0, point, self.max_data_points as int),
                    )[k] by {
                        let w = spec_metric_index(s1, k);
                        assert(0 <= w < s1.len() && s1[w].0@ == k);
                        assert(spec_distinct_metrics(s1));
                        if k == metric_name@ {
                            lemma_metric_index_unique(s1, k, fi as int);
                        } else {
                            assert(w != fi);
                            assert(s0[w].0@ == k);
                            lemma_metric_index_unique(s0, k, w);
                        }
                    }
                    assert(self@ =~= old(self)@.insert(
                        metric_name@,
                        spec_bounded_push(series0, point, self.max_data_points as int),
                    ));
                }
            },
            None => {
                let mut points: Vec<MetricDataPoint> = Vec::new();
                points.push(point);
                if points.len() > self.max_data_points {
                    points.remove(0);
                    proof {
                        assert(points@ =~= Seq::<MetricDataPoint>::empty().push(
                            point,
                        ).drop_first());
                    }
                }
                self.data.push((metric_name.to_owned(), points));
                proof {
                    let s1 = self.data@;
                    assert(s1[s0.len() as int].0@ == metric_name@);
                    assert(s1[s0.len() as int].1@ == spec_bounded_push(
                        Seq::<MetricDataPoint>::empty(),
                        point,
                        self.max_data_points as int,
                    ));
                    assert(!spec_has_metric(s0, metric_name@));
                    assert(spec_series(old(self)@, metric_name@) == Seq::<
                        MetricDataPoint,
                    >::empty());
                    assert forall|k: Seq<char>| #[trigger] spec_has_metric(s1, k)
                        <==> (spec_has_metric(s0, k) || k == metric_name@) by {
                        if spec_has_metric(s1, k) {
                            let w = choose|w: int| 0 <= w < s1.len() && s1[w].0@ == k;
                            if w < s0.len() {
                                assert(s0[w].0@ == k);
                            }
                        }
                        if spec_has_metric(s0, k) {
                            let w = choose|w: int| 0 <= w < s0.len() && s0[w].0@ == k;
                            assert(s1[w].0@ == k);
                        }
                        if k == metric_name@ {
                            assert(s1[s0.len() as int].0@ == k);
                        }
                    }
                    assert forall|a: int, b: int| 0 <= a < b < s1.len() implies s1[a].0@
                        != s1[b].0@ by {
                        if b < s0.len() {
                            assert(s0[a].0@ != s0[b].0@);
                        } else {
                            assert(s0[a].0@ != metric_name@);
                        }
                    }
                    assert forall|k: Seq<char>| spec_has_metric(s1, k) implies (#[trigger] self@[k])
                        == old(self)@.insert(
                        metric_name@,
                        spec_bounded_push(
                            Seq::<MetricDataPoint>::empty(),
                            point,
                            self.max_data_points as int,
                        ),
                    )[k] by {
                        let w = spec_metric_index(s1, k);
                        assert(0 <= w < s1.len() && s1[w].0@ == k);
                        if k == metric_name@ {
                            assert(spec_distinct_metrics(s1));
                            lemma_metric_index_unique(s1, k, s0.len() as int);
                        } else {
                            assert(w < s0.len());
                            assert(s0[w].0@ == k);
                            lemma_metric_index_unique(s0, k, w);
                        }
                    }
                    assert(self@ =~= old(self)@.insert(
                        metric_name@,
                        spec_bounded_push(
                            Seq::<MetricDataPoint>::empty(),
                            point,
                            self.max_data_points as int,
                        ),
                    ));
                }
            },
        }
    }

    /// Appends a sample of `metric_name` taken at the current system time.
    pub fn add_metric(&mut self, metric_name: &str, value: i64)
        requires
            old(self).wf(),
        ensures
            final(self).wf(),
            final(self).spec_capacity() == old(self).spec_capacity(),
            exists|ts: int|
                final(self)@ == #[trigger] old(self)@.insert(
                    metric_name@,
                    spec_bounded_push(
                        spec_series(old(self)@, metric_name@),
                        MetricDataPoint { timestamp: ts as i64, value },
                        old(self).spec_capacity(),
                    ),
                ),
    {
        let ts: i64 = now_millis();
        self.add_metric_at(metric_name, value, ts);
        proof {
            assert(final(self)@ == old(self)@.insert(
                metric_name@,
                spec_bounded_push(
                    spec_series(old(self)@, metric_name@),
                    MetricDataPoint { timestamp: ts as i64, value },
                    old(self).spec_capacity(),
                ),
            ));
        }
    }

    /// The retained series of a metric, if the store has observed it.
    pub fn get_metric(&self, metric_name: &str) -> (r: Option<&Vec<MetricDataPoint>>)
        requires
            self.wf(),
        ensures
            match r {
                Some(points) => self@.contains_key(metric_name@) && points@ == self@[metric_name@],
                None => !self@.contains_key(metric_name@),
            },
    {
        let mut i: usize = 0;
        while i < self.data.len()
            invariant
                self.wf(),
                i <= self.data@.len(),
                forall|j: int| 0 <= j < i ==> self.data@[j].0@ != metric_name@,
            decreases self.data@.len() - i,
        {
            if string_eq_str(&self.data[i].0, metric_name) {
                proof {
                    lemma_metric_index_unique(self.data@, metric_name@, i as int);
                }
                return Some(&self.data[i].1);
            }
            i = i + 1;
        }
        proof {
            assert(!spec_has_metric(self.data@, metric_name@));
        }
        None
    }

    /// The most recent sample value of a metric, if it has any.
    pub fn get_latest(&self, metric_name: &str) -> (r: Option<i64>)
        requires
            self.wf(),
        ensures
            match r {
                Some(v) => self@.contains_key(metric_name@) && self@[metric_name@].len() > 0 && v
                    == self@[metric_name@].last().value,
                None => !self@.contains_key(metric_name@) || self@[metric_name@].len() == 0,
            },
    {
        match self.get_metric(metric_name) {
            Some(points) => {
                if points.len() > 0 {
                    Some(points[points.len() - 1].value)
                } else {
                    None
                }
            },
            None => None,
        }
    }

    /// The average of the last `last_n_points` samples of a metric (or of
    /// all its samples, if it has fewer), truncated toward zero; nothing for
    /// a metric with no samples.
    pub fn get_average(&self, metric_name: &str, last_n_points: usize) -> (r: Option<i64>)
        requires
            self.wf(),
            last_n_points >= 1,
        ensures
            match r {
                Some(a) => self@.contains_key(metric_name@) && self@[metric_name@].len() > 0 && a
                    == spec_average(self@[metric_name@], last_n_points as int),
                None => !self@.contains_key(metric_name@) || self@[metric_name@].len() == 0,
            },
    {
        let points = match self.get_metric(metric_name) {
            Some(points) => points,
            None => {
                return None;
            },
        };
        if points.len() == 0 {
            return None;
        }
        let start: usize = if points.len() > last_n_points {
            points.len() - last_n_points
        } else {
            0
        };
        let ghost window = points@.skip(start as int);
        let mut sum: i128 = 0;
        let mut idx: usize = start;
        proof {
            assert(points@.subrange(start as int, start as int) =~= Seq::<
                MetricDataPoint,
            >::empty());
        }
        while idx < points.len()
            invariant
                start <= idx <= points@.len(),
                points@.len() <= usize::MAX,
                sum == spec_sum(points@.subrange(start as int, idx as int)),
                -((idx - start) as i128 * 0x8000_0000_0000_0000_i128) <= sum <= (idx - start)
                    as i128 * 0x7fff_ffff_ffff_ffff_i128,
            decreases points@.len() - idx,
        {
            let v: i64 = points[idx].value;
            proof {
                let prefix = points@.subrange(start as int, idx as int);
                let grown = points@.subrange(start as int, idx + 1);
                assert(grown.drop_last() =~= prefix);
                assert(grown.last() == points@[idx as int]);
            }
            sum = sum + v as i128;
            idx = idx + 1;
        }
        proof {
            assert(points@.subrange(start as int, points@.len() as int) =~= window);
        }
        let count: usize = points.len() - start;
        let avg: i64 = div_trunc_sum(sum, count);
        proof {
            assert(spec_sum(window) == sum);
            assert(window.len() == count);
            assert(avg as int == spec_average(self@[metric_name@], last_n_points as int));
        }
        Some(avg)
    }

    /// Discards, in every series, the samples whose timestamp is not after
    /// `cutoff_millis`. The set of observed metrics is unchanged.
    pub fn sweep_before(&mut self, cutoff_millis: i64)
        requires
            old(self).wf(),
        ensures
            final(self).wf(),
            final(self).spec_capacity() == old(self).spec_capacity(),
            spec_swept(old(self)@, final(self)@, cutoff_millis as int),
    {
        let ghost s0 = self.data@;
        let mut i: usize = 0;
        while i < self.data.len()
            invariant
                old(self).wf(),
                self.data@.len() == s0.len(),
                s0 == old(self).data@,
                self.max_data_points == old(self).max_data_points,
                i <= s0.len(),
                forall|j: int|
                    0 <= j < s0.len() ==> #[trigger] self.data@[j].0@ == s0[j].0@,
                forall|j: int|
                    i <= j < s0.len() ==> #[trigger] self.data@[j].1@ == s0[j].1@,
                forall|j: int|
                    0 <= j < i ==> #[trigger] self.data@[j].1@ == s0[j].1@.filter(
                        |p: MetricDataPoint| p.timestamp > cutoff_millis,
                    ),
            decreases s0.len() - i,
        {
            let ghost data_pre = self.data@;
            let (name_held, points) = self.data.remove(i);
            let ghost series0 = points@;
            let mut kept: Vec<MetricDataPoint> = Vec::new();
            let mut j: usize = 0;
            proof {
                lemma_filter_empty(|p: MetricDataPoint| p.timestamp > cutoff_millis);
                assert(series0.take(0) =~= Seq::<MetricDataPoint>::empty());
            }
            while j < points.len()
                invariant
                    points@ == series0,
                    j <= series0.len(),
                    kept@.len() <= j,
                    kept@ == series0.take(j as int).filter(
                        |p: MetricDataPoint| p.timestamp > cutoff_millis,
                    ),
                decreases series0.len() - j,
            {
                let ghost kept_pre = kept@;
                if points[j].timestamp > cutoff_millis {
                    kept.push(points[j]);
                    proof {
                        assert(kept@ =~= kept_pre.push(series0[j as int]));
                    }
                }
                proof {
                    lemma_filter_take_step(
                        series0,
                        |p: MetricDataPoint| p.timestamp > cutoff_millis,
                        j as int,
                    );
                }
                j = j + 1;
            }
            proof {
                assert(series0.take(series0.len() as int) =~= series0);
                series0.lemma_filter_len(|p: MetricDataPoint| p.timestamp > cutoff_millis);
            }
            self.data.insert(i, (name_held, kept));
            proof {
                assert(self.data@ =~= data_pre.update(
                    i as int,
                    (self.data@[i as int].0, self.data@[i as int].1),
                ));
            }
            i = i + 1;
        }
        proof {
            let s1 = self.data@;
            assert forall|k: Seq<char>| #[trigger] spec_has_metric(s1, k)
                <==> spec_has_metric(s0, k) by {
                if spec_has_metric(s1, k) {
                    let w = choose|w: int| 0 <= w < s1.len() && s1[w].0@ == k;
                    assert(s0[w].0@ == k);
                }
                if spec_has_metric(s0, k) {
                    let w = choose|w: int| 0 <= w < s0.len() && s0[w].0@ == k;
                    assert(s1[w].0@ == k);
                }
            }
            assert(self@.dom() =~= old(self)@.dom());
            assert forall|a: int, b: int| 0 <= a < b < s1.len() implies s1[a].0@ != s1[b].0@ by {
                assert(s0[a].0@ != s0[b].0@);
            }
            assert forall|k: Seq<char>| old(self)@.contains_key(k) implies (#[trigger] self@[k])
                == old(self)@[k].filter(|p: MetricDataPoint| p.timestamp > cutoff_millis) by {
                let w0 = spec_metric_index(s0, k);
                assert(0 <= w0 < s0.len() && s0[w0].0@ == k);
                assert(s1[w0].0@ == k);
                lemma_metric_index_unique(s1, k, w0);
            }
        }
    }

    /// Discards, in every series, the samples older than `max_age_seconds`
    /// before the current system time.
    pub fn cleanup_old_data(&mut self, max_age_seconds: i64)
        requires
            old(self).wf(),
        ensures
            final(self).wf(),
            final(self).spec_capacity() == old(self).spec_capacity(),
            exists|cutoff: int| #[trigger] spec_swept(old(self)@, final(self)@, cutoff),
    {
        let now: i64 = now_millis();
        let wide: i128 = now as i128 - (max_age_seconds as i128) * 1000;
        let cutoff: i64 = if wide > i64::MAX as i128 {
            i64::MAX
        } else if wide < i64::MIN as i128 {
            i64::MIN
        } else {
            wide as i64
        };
        self.sweep_before(cutoff);
    }
}

/// The JSON text of one sample.
pub open spec fn spec_point_json(p: MetricDataPoint) -> Seq<char> {
    "{\"timestamp\":"@ + spec_dec_signed(p.timestamp as int) + ",\"value\":"@ + spec_dec_signed(
        p.value as int,
    ) + "}"@
}

/// The JSON text of one series, in sample order.
pub open spec fn spec_series_json(points: Seq<MetricDataPoint>) -> Seq<char> {
    spec_json_array(points, |p: MetricDataPoint| spec_point_json(p))
}

/// The JSON text of one `name: series` member.
pub open spec fn spec_entry_json(e: (Seq<char>, Seq<MetricDataPoint>)) -> Seq<char> {
    spec_json_string(e.0) + ":"@ + spec_series_json(e.1)
}

/// The JSON text of a whole store, one member per metric.
pub open spec fn spec_metrics_json(entries: Seq<(Seq<char>, Seq<MetricDataPoint>)>) -> Seq<char> {
    spec_json_object(entries, |e: (Seq<char>, Seq<MetricDataPoint>)| spec_entry_json(e))
}

/// Whether `entries` lists exactly the contents of the store map `m`: the
/// names are distinct, each carries its retained series, and every observed
/// metric appears.
pub open spec fn spec_entries_of(
    m: Map<Seq<char>, Seq<MetricDataPoint>>,
    entries: Seq<(Seq<char>, Seq<MetricDataPoint>)>,
) -> bool {
    &&& forall|i: int, j: int| #![trigger entries[i].0, entries[j].0]
        0 <= i < j < entries.len() ==> entries[i].0 != entries[j].0
    &&& forall|i: int|
        0 <= i < entries.len() ==> m.contains_key(#[trigger] entries[i].0) && m[entries[i].0]
            == entries[i].1
    &&& forall|k: Seq<char>|
        m.contains_key(k) ==> exists|i: int| 0 <= i < entries.len() && (#[trigger] entries[i].0)
            == k
}

/// Appends the JSON text of one series.
fn append_series_json(out: &mut String, points: &Vec<MetricDataPoint>)
    ensures
        final(out)@ == old(out)@ + spec_series_json(points@),
{
    let ghost f = |p: MetricDataPoint| spec_point_json(p);
    let ghost pre = out@;
    out.append("[");
    let mut i: usize = 0;
    while i < points.len()
        invariant
            i <= points@.len(),
            f == (|p: MetricDataPoint| spec_point_json(p)),
            out@ == pre + "["@ + spec_json_join(points@.take(i as int), f),
        decreases points@.len() - i,
    {
        let ghost out_pre = out@;
        if i > 0 {
            out.append(",");
        }
        out.append("{\"timestamp\":");
        append_json_int(out, points[i].timestamp);
        out.append(",\"value\":");
        append_json_int(out, points[i].value);
        out.append("}");
        proof {
            assert(f(points@[i as int]) == spec_point_json(points@[i as int]));
            lemma_json_join_step(points@, f, i as int);
            if i == 0 {
                assert(out@ =~= pre + "["@ + spec_json_join(points@.take(1), f));
            } else {
                assert(out@ =~= pre + "["@ + spec_json_join(points@.take(i + 1), f));
            }
        }
        i = i + 1;
    }
    proof {
        assert(points@.take(points@.len() as int) =~= points@);
    }
    out.append("]");
    proof {
        assert(out@ =~= pre + spec_series_json(points@));
    }
}

impl MetricsStore {
    /// The names of the metrics observed, each exactly once.
    pub fn get_metric_names(&self) -> (r: Vec<String>)
        requires
            self.wf(),
        ensures
            forall|i: int| 0 <= i < r@.len() ==> self@.contains_key(#[trigger] r@[i]@),
            forall|k: Seq<char>|
                self@.contains_key(k) ==> exists|i: int| 0 <= i < r@.len() && (#[trigger] r@[i]@)
                    == k,
            forall|i: int, j: int| #![trigger r@[i]@, r@[j]@]
                0 <= i < j < r@.len() ==> r@[i]@ != r@[j]@,
    {
        let mut r: Vec<String> = Vec::new();
        let mut i: usize = 0;
        while i < self.data.len()
            invariant
                self.wf(),
                i <= self.data@.len(),
                r@.len() == i,
                forall|j: int| 0 <= j < i ==> #[trigger] r@[j]@ == self.data@[j].0@,
            decreases self.data@.len() - i,
        {
            r.push(self.data[i].0.clone());
            i = i + 1;
        }
        proof {
            assert forall|j: int| 0 <= j < r@.len() implies self@.contains_key(
                #[trigger] r@[j]@,
            ) by {
                assert(spec_has_metric(self.data@, self.data@[j].0@));
            }
            assert forall|k: Seq<char>| self@.contains_key(k) implies exists|j: int|
                0 <= j < r@.len() && (#[trigger] r@[j]@) == k by {
                let w = spec_metric_index(self.data@, k);
                assert(0 <= w < self.data@.len() && self.data@[w].0@ == k);
                assert(r@[w]@ == k);
            }
        }
        r
    }

    /// Serialises the whole store as JSON, one member per observed metric,
    /// values in fixed-point units.
    pub fn export_json(&self) -> (r: Result<String, String>)
        requires
            self.wf(),
        ensures
            r matches Ok(out) && exists|entries: Seq<(Seq<char>, Seq<MetricDataPoint>)>|
                #[trigger] spec_entries_of(self@, entries) && out@ == spec_metrics_json(entries),
    {
        let ghost entries = Seq::new(
            self.data@.len(),
            |i: int| (self.data@[i].0@, self.data@[i].1@),
        );
        let ghost f = |e: (Seq<char>, Seq<MetricDataPoint>)| spec_entry_json(e);
        let mut out: String = "{".to_owned();
        let ghost pre = out@;
        let mut i: usize = 0;
        while i < self.data.len()
            invariant
                pre == "{"@,
                entries == Seq::new(
                    self.data@.len(),
                    |j: int| (self.data@[j].0@, self.data@[j].1@),
                ),
                i <= self.data@.len(),
                f == (|e: (Seq<char>, Seq<MetricDataPoint>)| spec_entry_json(e)),
                out@ == pre + spec_json_join(entries.take(i as int), f),
            decreases self.data@.len() - i,
        {
            let ghost out_pre = out@;
            if i > 0 {
                out.append(",");
            }
            append_json_string(&mut out, self.data[i].0.as_str());
            out.append(":");
            append_series_json(&mut out, &self.data[i].1);
            proof {
                assert(f(entries[i as int]) == spec_entry_json(entries[i as int]));
                lemma_json_join_step(entries, f, i as int);
                if i == 0 {
                    assert(out@ =~= pre + spec_json_join(entries.take(1), f));
                } else {
                    assert(out@ =~= pre + spec_json_join(entries.take(i + 1), f));
                }
            }
            i = i + 1;
        }
        proof {
            assert(entries.take(entries.len() as int) =~= entries);
        }
        out.append("}");
        proof {
            assert(out@ =~= spec_metrics_json(entries));
            assert forall|a: int|
                0 <= a < entries.len() implies self@.contains_key(#[trigger] entries[a].0)
                && self@[entries[a].0] == entries[a].1 by {
                lemma_metric_index_unique(self.data@, self.data@[a].0@, a);
            }
            assert forall|k: Seq<char>| self@.contains_key(k) implies exists|a: int|
                0 <= a < entries.len() && (#[trigger] entries[a].0) == k by {
                let w = spec_metric_index(self.data@, k);
                assert(0 <= w < self.data@.len() && self.data@[w].0@ == k);
                assert(entries[w].0 == k);
            }
            assert(spec_entries_of(self@, entries));
        }
        Ok(out)
    }
}

impl MetricsStore {
    /// The retained series of a metric, optionally capped to its most
    /// recent `max_points` samples; empty for a metric never observed.
    pub fn recent_points(&self, metric_name: &str, max_points: Option<usize>) -> (r: Vec<
        MetricDataPoint,
    >)
        requires
            self.wf(),
        ensures
            !self@.contains_key(metric_name@) ==> r@ == Seq::<MetricDataPoint>::empty(),
            self@.contains_key(metric_name@) ==> match max_points {
                None => r@ == self@[metric_name@],
                Some(mx) => r@ == self@[metric_name@].skip(
                    if self@[metric_name@].len() - mx >= 0 {
                        self@[metric_name@].len() - mx
                    } else {
                        0
                    },
                ),
            },
    {
        let points = match self.get_metric(metric_name) {
            Some(points) => points,
            None => {
                let r: Vec<MetricDataPoint> = Vec::new();
                proof {
                    assert(r@ =~= Seq::<MetricDataPoint>::empty());
                }
                return r;
            },
        };
        let start: usize = match max_points {
            Some(mx) => if points.len() > mx {
                points.len() - mx
            } else {
                0
            },
            None => 0,
        };
        let mut r: Vec<MetricDataPoint> = Vec::new();
        let mut i: usize = start;
        while i < points.len()
            invariant
                start <= i <= points@.len(),
                r@ =~= points@.subrange(start as int, i as int),
            decreases points@.len() - i,
        {
            r.push(points[i]);
            i = i + 1;
        }
        proof {
            assert(r@ =~= points@.skip(start as int));
        }
        r
    }
}

} // verus!
