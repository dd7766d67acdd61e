//! Server metrics shown on the dashboard: their summaries by metric id, the
//! time buckets of the charts, and the periods and sections that select them.
use vstd::prelude::*;

use ahash::{AHashMap, RandomState};

use crate::text::{concat, str_eq};
use crate::time::{
    from_timestamp, humanize_ms, is_representable, now, rfc3339_secs, seconds_between, spec_chrono_valid, spec_humanize_ms,
    spec_rfc3339_secs, spec_seconds_between, trunc_div, UtcDateTime,
};

verus! {

#[verifier::external_type_specification]
#[verifier::external_body]
#[verifier::reject_recursive_types(K)]
#[verifier::reject_recursive_types(V)]
#[verifier::reject_recursive_types(S)]
pub struct ExAHashMap<K, V, S>(AHashMap<K, V, S>);

#[verifier::external_type_specification]
#[verifier::external_body]
pub struct ExRandomState(RandomState);

/// A dashboard section.
#[derive(Debug, Clone, Copy, PartialEq, Eq, Structural)]
pub enum Section {
    Overview,
    Network,
    Security,
    Delivery,
    Performance,
}

/// The section a page parameter names; the overview for anything else.
pub open spec fn spec_section(param: Option<Seq<char>>) -> Section {
    match param {
        Some(p) => if p == "network"@ {
            Section::Network
        } else if p == "security"@ {
            Section::Security
        } else if p == "delivery"@ {
            Section::Delivery
        } else if p == "performance"@ {
            Section::Performance
        } else {
            Section::Overview
        },
        None => Section::Overview,
    }
}

impl Section {
    pub fn from_param(param: Option<&str>) -> (r: Section)
        ensures
            r == spec_section(
                match param {
                    Some(p) => Some(p@),
                    None => None,
                },
            ),
    {
        match param {
            Some(p) => if str_eq(p, "network") {
                Section::Network
            } else if str_eq(p, "security") {
                Section::Security
            } else if str_eq(p, "delivery") {
                Section::Delivery
            } else if str_eq(p, "performance") {
                Section::Performance
            } else {
                Section::Overview
            },
            None => Section::Overview,
        }
    }
}

/// How far back the charts look.
#[derive(Debug, Clone, Copy, PartialEq, Eq, Structural)]
pub enum Period {
    LastDay,
    Last7Days,
    Last30Days,
    Last90Days,
}

/// Days covered by a period.
pub open spec fn period_days(p: Period) -> int {
    match p {
        Period::LastDay => 1,
        Period::Last7Days => 7,
        Period::Last30Days => 30,
        Period::Last90Days => 90,
    }
}

/// Seconds before now from which metrics are fetched: the period, one hour
/// and fifteen seconds.
pub open spec fn lookback_secs(p: Period) -> int {
    period_days(p) * 86400 + 3600 + 15
}

/// The instant, in whole seconds, `lookback_secs(p)` before `now_secs`.
pub open spec fn lookback_start(p: Period, now_secs: i64) -> UtcDateTime {
    UtcDateTime { secs: (now_secs - lookback_secs(p)) as i64, nanos: 0 }
}

/// Whether that instant is one chrono can represent.
pub open spec fn lookback_valid(p: Period, now_secs: i64) -> bool {
    now_secs - lookback_secs(p) >= i64::MIN && spec_chrono_valid((now_secs - lookback_secs(p)) as i64, 0)
}

/// The start of the lookback counted from `now_secs`, as RFC 3339 text;
/// none when chrono cannot represent it.
pub open spec fn spec_start_at(p: Period, now_secs: i64) -> Option<Seq<char>> {
    if lookback_valid(p, now_secs) {
        Some(spec_rfc3339_secs(lookback_start(p, now_secs)))
    } else {
        None
    }
}

impl Period {
    /// RFC 3339 text (whole seconds, `Z`) of the instant `lookback_secs`
    /// before `now`; `None` when that instant is outside chrono's range.
    pub fn start_at(&self, now: UtcDateTime) -> (r: Option<String>)
        ensures
            lookback_valid(*self, now.secs) ==> (r matches Some(t) && t@ == spec_rfc3339_secs(
                lookback_start(*self, now.secs),
            )),
            r is Some ==> lookback_valid(*self, now.secs),
    {
        let back: i64 = match self {
            Period::LastDay => 86400 + 3600 + 15,
            Period::Last7Days => 7 * 86400 + 3600 + 15,
            Period::Last30Days => 30 * 86400 + 3600 + 15,
            Period::Last90Days => 90 * 86400 + 3600 + 15,
        };
        match now.secs.checked_sub(back) {
            Some(secs) => match from_timestamp(secs) {
                Some(t) => Some(rfc3339_secs(t)),
                None => None,
            },
            None => None,
        }
    }

    /// The `after` parameter of a metrics request: the start of the period,
    /// one hour and fifteen seconds earlier, counted back from the clock.
    pub fn as_timestamp(&self) -> (r: Option<String>)
        ensures
            exists|n: UtcDateTime|
                spec_chrono_valid(n.secs, n.nanos) && #[trigger] spec_start_at(*self, n.secs) == match r {
                    Some(t) => Some(t@),
                    None => None,
                },
    {
        let n = now();
        let r = self.start_at(n);
        assert(spec_start_at(*self, n.secs) == match r {
            Some(t) => Some(t@),
            None => None,
        });
        r
    }
}

/// The precise English text of a span of `ms` milliseconds; a span too long
/// for a time delta is shown as zero.
pub open spec fn spec_duration(ms: u64) -> Seq<char> {
    if ms <= i64::MAX {
        spec_humanize_ms(ms)
    } else {
        spec_humanize_ms(0)
    }
}

pub fn duration(ms: u64) -> (r: String)
    ensures
        r@ == spec_duration(ms),
{
    if ms <= i64::MAX as u64 {
        humanize_ms(ms)
    } else {
        humanize_ms(0)
    }
}

/// A stored metric reading.
#[derive(Debug, Clone, PartialEq, Eq)]
pub enum Metric {
    Counter { id: String, timestamp: UtcDateTime, value: u64 },
    Gauge { id: String, timestamp: UtcDateTime, value: u64 },
    Histogram { id: String, timestamp: UtcDateTime, count: u64, sum: u64 },
}

/// A live metric reading.
#[derive(Debug, Clone, PartialEq, Eq)]
pub enum LiveMetric {
    Counter { id: String, value: u64 },
    Gauge { id: String, value: u64 },
    Histogram { id: String, count: u64, sum: u64 },
}

/// The id of a metric.
pub open spec fn metric_id(m: Metric) -> Seq<char> {
    match m {
        Metric::Counter { id, .. } => id@,
        Metric::Gauge { id, .. } => id@,
        Metric::Histogram { id, .. } => id@,
    }
}

/// When a metric was read.
pub open spec fn metric_time(m: Metric) -> UtcDateTime {
    match m {
        Metric::Counter { timestamp, .. } => timestamp,
        Metric::Gauge { timestamp, .. } => timestamp,
        Metric::Histogram { timestamp, .. } => timestamp,
    }
}

/// What a metric adds to a total and to a count of readings: a counter or
/// gauge adds its value once, a histogram its sum over its count.
pub open spec fn metric_reading(m: Metric) -> (u64, u64) {
    match m {
        Metric::Counter { value, .. } => (value, 1),
        Metric::Gauge { value, .. } => (value, 1),
        Metric::Histogram { count, sum, .. } => (sum, count),
    }
}

impl Metric {
    pub fn id(&self) -> (r: &str)
        ensures
            r@ == metric_id(*self),
    {
        match self {
            Metric::Counter { id, .. } => id.as_str(),
            Metric::Histogram { id, .. } => id.as_str(),
            Metric::Gauge { id, .. } => id.as_str(),
        }
    }

    fn reading(&self) -> (r: (u64, u64, UtcDateTime))
        ensures
            (r.0, r.1) == metric_reading(*self),
            r.2 == metric_time(*self),
    {
        match self {
            Metric::Counter { value, timestamp, .. } | Metric::Gauge { value, timestamp, .. } => (
                *value,
                1u64,
                *timestamp,
            ),
            Metric::Histogram { sum, count, timestamp, .. } => (*sum, *count, *timestamp),
        }
    }
}

/// Total and number of readings of one metric id.
#[derive(Debug, Clone, Copy, PartialEq, Eq, Default, Structural)]
pub struct MetricSummary {
    pub sum: u64,
    pub count: u64,
}

/// What a map of summaries holds, by metric id.
pub uninterp spec fn summary_entries(m: AHashMap<String, MetricSummary>) -> Map<Seq<char>, MetricSummary>;

/// `AHashMap::new()`: an empty map.
#[verifier::external_body]
fn summaries_new() -> (r: AHashMap<String, MetricSummary>)
    ensures
        summary_entries(r).dom() == Set::<Seq<char>>::empty(),
{
    AHashMap::new()
}

/// `AHashMap::get`: the summary stored under `id`, if any.
#[verifier::external_body]
fn summaries_get(m: &AHashMap<String, MetricSummary>, id: &str) -> (r: Option<MetricSummary>)
    ensures
        r == (if summary_entries(*m).contains_key(id@) {
            Some(summary_entries(*m)[id@])
        } else {
            None
        }),
{
    m.get(id).copied()
}

/// `AHashMap::insert`: stores `v` under `id`, replacing what was there.
#[verifier::external_body]
fn summaries_insert(m: &mut AHashMap<String, MetricSummary>, id: String, v: MetricSummary)
    ensures
        summary_entries(*final(m)) == summary_entries(*old(m)).insert(id@, v),
{
    m.insert(id, v);
}

/// Metric summaries by id.
pub struct MetricSummaries(pub AHashMap<String, MetricSummary>);

impl View for MetricSummaries {
    type V = Map<Seq<char>, MetricSummary>;

    open spec fn view(&self) -> Map<Seq<char>, MetricSummary> {
        summary_entries(self.0)
    }
}

/// Total of the readings of `id` among `ms`.
pub open spec fn id_sum(ms: Seq<Metric>, id: Seq<char>) -> int
    decreases ms.len(),
{
    if ms.len() == 0 {
        0
    } else {
        id_sum(ms.drop_last(), id) + if metric_id(ms.last()) == id {
            metric_reading(ms.last()).0 as int
        } else {
            0
        }
    }
}

/// Number of readings of `id` among `ms`.
pub open spec fn id_count(ms: Seq<Metric>, id: Seq<char>) -> int
    decreases ms.len(),
{
    if ms.len() == 0 {
        0
    } else {
        id_count(ms.drop_last(), id) + if metric_id(ms.last()) == id {
            metric_reading(ms.last()).1 as int
        } else {
            0
        }
    }
}

/// Some metric of `ms` has the id `id`.
pub open spec fn has_id(ms: Seq<Metric>, id: Seq<char>) -> bool {
    exists|i: int| 0 <= i < ms.len() && metric_id(#[trigger] ms[i]) == id
}

/// Totals over a prefix never exceed the totals over the whole.
proof fn lemma_id_totals_prefix(ms: Seq<Metric>, k: int, id: Seq<char>)
    requires
        0 <= k <= ms.len(),
    ensures
        id_sum(ms.take(k), id) <= id_sum(ms, id),
        id_count(ms.take(k), id) <= id_count(ms, id),
    decreases ms.len(),
{
    if k == ms.len() {
        assert(ms.take(k) =~= ms);
    } else {
        assert(ms.drop_last().take(k) =~= ms.take(k));
        lemma_id_totals_prefix(ms.drop_last(), k, id);
    }
}

/// The id of a live metric.
pub open spec fn live_id(m: LiveMetric) -> Seq<char> {
    match m {
        LiveMetric::Counter { id, .. } => id@,
        LiveMetric::Gauge { id, .. } => id@,
        LiveMetric::Histogram { id, .. } => id@,
    }
}

/// The summary a live metric reports.
pub open spec fn live_summary(m: LiveMetric) -> MetricSummary {
    match m {
        LiveMetric::Counter { value, .. } => MetricSummary { sum: value, count: 1 },
        LiveMetric::Gauge { value, .. } => MetricSummary { sum: value, count: 1 },
        LiveMetric::Histogram { count, sum, .. } => MetricSummary { sum, count },
    }
}

/// History law: with no readings a metric has total and count zero, and
/// each reading of a metric adds to them (and to the chart point and series
/// it falls on) its value once for a counter or a gauge, and its sum over
/// its count for a histogram; readings of other metrics add nothing.
pub proof fn lemma_readings_add_up(
    ms: Seq<Metric>,
    m: Metric,
    id: Seq<char>,
    groups: Seq<Seq<Seq<char>>>,
    p: Period,
    now: UtcDateTime,
    k: int,
    g: int,
)
    ensures
        id_sum(Seq::<Metric>::empty(), id) == 0 && id_count(Seq::<Metric>::empty(), id) == 0,
        id_sum(ms.push(m), id) == id_sum(ms, id) + if metric_id(m) == id {
            match m {
                Metric::Counter { value, .. } => value as int,
                Metric::Gauge { value, .. } => value as int,
                Metric::Histogram { sum, .. } => sum as int,
            }
        } else {
            0
        },
        id_count(ms.push(m), id) == id_count(ms, id) + if metric_id(m) == id {
            match m {
                Metric::Counter { .. } => 1,
                Metric::Gauge { .. } => 1,
                Metric::Histogram { count, .. } => count as int,
            }
        } else {
            0
        },
        added(ms.push(m), groups, p, now, k, g) == if group_of(groups, metric_id(m)) == Some(g) && reading_index(
            p,
            now,
            m,
        ) == Some(k) {
            match m {
                Metric::Counter { value, .. } => (added(ms, groups, p, now, k, g).0 + value, added(ms, groups, p, now, k, g).1 + 1),
                Metric::Gauge { value, .. } => (added(ms, groups, p, now, k, g).0 + value, added(ms, groups, p, now, k, g).1 + 1),
                Metric::Histogram { count, sum, .. } => (
                    added(ms, groups, p, now, k, g).0 + sum,
                    added(ms, groups, p, now, k, g).1 + count,
                ),
            }
        } else {
            added(ms, groups, p, now, k, g)
        },
{
    assert(ms.push(m).drop_last() =~= ms);
    assert(ms.push(m).last() == m);
}

/// Live summaries: each id maps to the last reading reported for it.
pub open spec fn live_entries(ms: Seq<LiveMetric>) -> Map<Seq<char>, MetricSummary>
    decreases ms.len(),
{
    if ms.len() == 0 {
        Map::empty()
    } else {
        live_entries(ms.drop_last()).insert(live_id(ms.last()), live_summary(ms.last()))
    }
}

/// Total of the sums stored under the ids (an id listed twice counts twice).
pub open spec fn ids_sum(m: Map<Seq<char>, MetricSummary>, ids: Seq<Seq<char>>) -> int
    decreases ids.len(),
{
    if ids.len() == 0 {
        0
    } else {
        ids_sum(m, ids.drop_last()) + if m.contains_key(ids.last()) {
            m[ids.last()].sum as int
        } else {
            0
        }
    }
}

/// Total of the counts stored under the ids.
pub open spec fn ids_count(m: Map<Seq<char>, MetricSummary>, ids: Seq<Seq<char>>) -> int
    decreases ids.len(),
{
    if ids.len() == 0 {
        0
    } else {
        ids_count(m, ids.drop_last()) + if m.contains_key(ids.last()) {
            m[ids.last()].count as int
        } else {
            0
        }
    }
}

proof fn lemma_ids_totals_prefix(m: Map<Seq<char>, MetricSummary>, ids: Seq<Seq<char>>, k: int)
    requires
        0 <= k <= ids.len(),
    ensures
        ids_sum(m, ids.take(k)) <= ids_sum(m, ids),
        ids_count(m, ids.take(k)) <= ids_count(m, ids),
    decreases ids.len(),
{
    if k == ids.len() {
        assert(ids.take(k) =~= ids);
    } else {
        assert(ids.drop_last().take(k) =~= ids.take(k));
        lemma_ids_totals_prefix(m, ids.drop_last(), k);
    }
}

/// The texts of a list of ids.
pub open spec fn id_texts(ids: Seq<&str>) -> Seq<Seq<char>> {
    ids.map_values(|s: &str| s@)
}

impl MetricSummaries {
    /// Summaries of stored readings: for each id that occurs, the total of
    /// its values and the number of readings. The totals must fit a `u64`.
    pub fn from_history(metrics: &Vec<Metric>) -> (r: MetricSummaries)
        requires
            forall|id: Seq<char>| #[trigger] id_sum(metrics@, id) <= u64::MAX && id_count(metrics@, id) <= u64::MAX,
        ensures
            forall|id: Seq<char>| #[trigger] r@.contains_key(id) <==> has_id(metrics@, id),
            forall|id: Seq<char>|
                #[trigger] r@.contains_key(id) ==> r@[id].sum == id_sum(metrics@, id) && r@[id].count == id_count(
                    metrics@,
                    id,
                ),
    {
        let mut map = summaries_new();
        let mut i: usize = 0;
        while i < metrics.len()
            invariant
                i <= metrics@.len(),
                forall|id: Seq<char>| #[trigger] id_sum(metrics@, id) <= u64::MAX && id_count(metrics@, id) <= u64::MAX,
                forall|id: Seq<char>| #[trigger]
                    summary_entries(map).contains_key(id) <==> has_id(metrics@.take(i as int), id),
                forall|id: Seq<char>| #[trigger]
                    summary_entries(map).contains_key(id) ==> summary_entries(map)[id].sum == id_sum(
                        metrics@.take(i as int),
                        id,
                    ) && summary_entries(map)[id].count == id_count(metrics@.take(i as int), id),
                forall|id: Seq<char>| !#[trigger] summary_entries(map).contains_key(id) ==> id_sum(
                    metrics@.take(i as int),
                    id,
                ) == 0 && id_count(metrics@.take(i as int), id) == 0,
            decreases metrics.len() - i,
        {
            let metric = &metrics[i];
            let id = metric.id();
            let (value, count, _) = metric.reading();
            let ghost pre = metrics@.take(i as int);
            let ghost post = metrics@.take(i + 1);
            proof {
                assert(post.drop_last() =~= pre);
                assert(post.last() == *metric);
                lemma_id_totals_prefix(metrics@, i + 1, id@);
            }
            let entry = match summaries_get(&map, id) {
                Some(e) => e,
                None => MetricSummary { sum: 0, count: 0 },
            };
            assert(id_sum(post, id@) == id_sum(pre, id@) + value);
            let updated = MetricSummary { sum: entry.sum + value, count: entry.count + count };
            let ghost before = summary_entries(map);
            summaries_insert(&mut map, String::from_str(id), updated);
            proof {
                assert forall|k: Seq<char>| #[trigger] summary_entries(map).contains_key(k) <==> has_id(post, k) by {
                    if k == id@ {
                        assert(post[i as int] == *metric);
                    } else {
                        if has_id(post, k) {
                            let j = choose|j: int| 0 <= j < post.len() && metric_id(#[trigger] post[j]) == k;
                            assert(j < i);
                            assert(pre[j] == post[j]);
                        }
                        if has_id(pre, k) {
                            let j = choose|j: int| 0 <= j < pre.len() && metric_id(#[trigger] pre[j]) == k;
                            assert(pre[j] == post[j]);
                        }
                    }
                }
                assert forall|k: Seq<char>| #[trigger] summary_entries(map).contains_key(k) implies summary_entries(
                    map,
                )[k].sum == id_sum(post, k) && summary_entries(map)[k].count == id_count(post, k) by {
                    if k != id@ {
                        assert(before.contains_key(k));
                    }
                }
                assert forall|k: Seq<char>| !#[trigger] summary_entries(map).contains_key(k) implies id_sum(post, k)
                    == 0 && id_count(post, k) == 0 by {
                    assert(k != id@);
                }
            }
            i = i + 1;
        }
        assert(metrics@.take(metrics@.len() as int) =~= metrics@);
        MetricSummaries(map)
    }

    /// Summaries of live readings: each id maps to its last reading.
    pub fn from_live(metrics: &Vec<LiveMetric>) -> (r: MetricSummaries)
        ensures
            r@ == live_entries(metrics@),
    {
        let mut map = summaries_new();
        let mut i: usize = 0;
        while i < metrics.len()
            invariant
                i <= metrics@.len(),
                summary_entries(map) == live_entries(metrics@.take(i as int)),
            decreases metrics.len() - i,
        {
            let (id, summary) = match &metrics[i] {
                LiveMetric::Counter { id, value } => (id, MetricSummary { sum: *value, count: 1 }),
                LiveMetric::Gauge { id, value } => (id, MetricSummary { sum: *value, count: 1 }),
                LiveMetric::Histogram { id, count, sum } => (id, MetricSummary { sum: *sum, count: *count }),
            };
            assert(metrics@.take(i + 1).drop_last() =~= metrics@.take(i as int));
            summaries_insert(&mut map, id.clone(), summary);
            i = i + 1;
        }
        assert(metrics@.take(metrics@.len() as int) =~= metrics@);
        MetricSummaries(map)
    }

    /// The totals of sums and of counts stored under `ids`, or `None` when
    /// either does not fit a `u64`.
    pub fn totals(&self, ids: &[&str]) -> (r: Option<(u64, u64)>)
        ensures
            r matches Some(t) ==> t.0 == ids_sum(self@, id_texts(ids@)) && t.1 == ids_count(self@, id_texts(ids@)),
            r is None <==> ids_sum(self@, id_texts(ids@)) > u64::MAX || ids_count(self@, id_texts(ids@)) > u64::MAX,
    {
        let ghost all = id_texts(ids@);
        let mut sum: u64 = 0;
        let mut count: u64 = 0;
        let mut i: usize = 0;
        while i < ids.len()
            invariant
                i <= ids@.len(),
                all == id_texts(ids@),
                sum == ids_sum(self@, all.take(i as int)),
                count == ids_count(self@, all.take(i as int)),
            decreases ids.len() - i,
        {
            proof {
                assert(all.take(i + 1).drop_last() =~= all.take(i as int));
                lemma_ids_totals_prefix(self@, all, i + 1);
            }
            if let Some(m) = summaries_get(&self.0, ids[i]) {
                match sum.checked_add(m.sum) {
                    Some(s) => {
                        sum = s;
                    },
                    None => {
                        return None;
                    },
                }
                match count.checked_add(m.count) {
                    Some(c) => {
                        count = c;
                    },
                    None => {
                        return None;
                    },
                }
            }
            i = i + 1;
        }
        assert(all.take(ids@.len() as int) =~= all);
        Some((sum, count))
    }

    /// Total of the sums stored under `ids`.
    pub fn sum(&self, ids: &[&str]) -> (r: u64)
        requires
            ids_sum(self@, id_texts(ids@)) <= u64::MAX,
        ensures
            r == ids_sum(self@, id_texts(ids@)),
    {
        let ghost all = id_texts(ids@);
        let mut sum: u64 = 0;
        let mut i: usize = 0;
        while i < ids.len()
            invariant
                i <= ids@.len(),
                all == id_texts(ids@),
                ids_sum(self@, all) <= u64::MAX,
                sum == ids_sum(self@, all.take(i as int)),
            decreases ids.len() - i,
        {
            proof {
                assert(all.take(i + 1).drop_last() =~= all.take(i as int));
                lemma_ids_totals_prefix(self@, all, i + 1);
            }
            if let Some(m) = summaries_get(&self.0, ids[i]) {
                sum = sum + m.sum;
            }
            i = i + 1;
        }
        assert(all.take(ids@.len() as int) =~= all);
        sum
    }

    /// Mean of the readings stored under `ids`: total of sums divided by
    /// total of counts, rounded down; zero when there are none.
    pub fn average(&self, ids: &[&str]) -> (r: u64)
        requires
            ids_sum(self@, id_texts(ids@)) <= u64::MAX,
            ids_count(self@, id_texts(ids@)) <= u64::MAX,
        ensures
            ids_count(self@, id_texts(ids@)) > 0 ==> r == ids_sum(self@, id_texts(ids@)) / ids_count(
                self@,
                id_texts(ids@),
            ),
            ids_count(self@, id_texts(ids@)) == 0 ==> r == 0,
    {
        match self.totals(ids) {
            Some((s, c)) => if c > 0 {
                s / c
            } else {
                0
            },
            None => 0,
        }
    }
}


// ----- chart buckets ----------------------------------------------------------

/// A point of a chart: its position and up to four series values.
#[derive(Debug, Clone, Copy, PartialEq, Eq, Default)]
pub struct DataPoint {
    pub x: u64,
    pub y: [u64; 4],
}

/// Readings of a period gathered by hour (last day) or by day.
pub struct Bucket {
    pub period: Period,
    pub value: Vec<DataPoint>,
    pub count: Vec<DataPoint>,
}

/// Number of points of a period's chart: hours of a day, or days.
pub open spec fn bucket_len(p: Period) -> int {
    match p {
        Period::LastDay => 24,
        Period::Last7Days => 7,
        Period::Last30Days => 30,
        Period::Last90Days => 90,
    }
}

/// The point a reading taken `secs` seconds ago falls in: counted back from
/// the last point by whole hours (last day) or whole days; none when it is
/// older than the period or in the future by a whole unit.
pub open spec fn index_for(p: Period, secs: int) -> Option<int> {
    let hours = trunc_div(secs, 3600);
    let days = trunc_div(secs, 86400);
    match p {
        Period::LastDay => if 0 <= hours < 24 { Some(23 - hours) } else { None },
        Period::Last7Days => if 0 <= days < 7 { Some(6 - days) } else { None },
        Period::Last30Days => if 0 <= days < 30 { Some(29 - days) } else { None },
        Period::Last90Days => if 0 <= days < 90 { Some(89 - days) } else { None },
    }
}

/// The point a metric read before `now` falls in.
pub open spec fn reading_index(p: Period, now: UtcDateTime, m: Metric) -> Option<int> {
    index_for(p, spec_seconds_between(now, metric_time(m)) as int)
}

/// The first group of ids that holds `id`.
pub open spec fn group_of(groups: Seq<Seq<Seq<char>>>, id: Seq<char>) -> Option<int>
    decreases groups.len(),
{
    if groups.len() == 0 {
        None
    } else {
        match group_of(groups.drop_last(), id) {
            Some(i) => Some(i),
            None => if groups.last().contains(id) {
                Some(groups.len() - 1)
            } else {
                None
            },
        }
    }
}

proof fn lemma_group_of_found(groups: Seq<Seq<Seq<char>>>, id: Seq<char>, k: int)
    requires
        0 < k <= groups.len(),
        group_of(groups.take(k - 1), id) is None,
        groups[k - 1].contains(id),
    ensures
        group_of(groups, id) == Some(k - 1),
    decreases groups.len(),
{
    if k == groups.len() {
        assert(groups.drop_last() =~= groups.take(k - 1));
    } else {
        assert(groups.drop_last().take(k - 1) =~= groups.take(k - 1));
        lemma_group_of_found(groups.drop_last(), id, k);
    }
}

/// The texts of groups of ids.
pub open spec fn group_texts(ids: Seq<&[&str]>) -> Seq<Seq<Seq<char>>> {
    ids.map_values(|g: &[&str]| id_texts(g@))
}

/// What a metric adds to point `k`, series `g`: its reading when its id is
/// in group `g` and it falls in point `k`, nothing otherwise.
pub open spec fn contribution(
    m: Metric,
    groups: Seq<Seq<Seq<char>>>,
    p: Period,
    now: UtcDateTime,
    k: int,
    g: int,
) -> (int, int) {
    if group_of(groups, metric_id(m)) == Some(g) && reading_index(p, now, m) == Some(k) {
        (metric_reading(m).0 as int, metric_reading(m).1 as int)
    } else {
        (0, 0)
    }
}

/// What the metrics add to point `k`, series `g`, to the values and to the counts.
pub open spec fn added(
    ms: Seq<Metric>,
    groups: Seq<Seq<Seq<char>>>,
    p: Period,
    now: UtcDateTime,
    k: int,
    g: int,
) -> (int, int)
    decreases ms.len(),
{
    if ms.len() == 0 {
        (0, 0)
    } else {
        let prev = added(ms.drop_last(), groups, p, now, k, g);
        let c = contribution(ms.last(), groups, p, now, k, g);
        (prev.0 + c.0, prev.1 + c.1)
    }
}

proof fn lemma_added_prefix(
    ms: Seq<Metric>,
    groups: Seq<Seq<Seq<char>>>,
    p: Period,
    now: UtcDateTime,
    i: int,
    k: int,
    g: int,
)
    requires
        0 <= i <= ms.len(),
    ensures
        added(ms.take(i), groups, p, now, k, g).0 <= added(ms, groups, p, now, k, g).0,
        added(ms.take(i), groups, p, now, k, g).1 <= added(ms, groups, p, now, k, g).1,
    decreases ms.len(),
{
    if i == ms.len() {
        assert(ms.take(i) =~= ms);
    } else {
        assert(ms.drop_last().take(i) =~= ms.take(i));
        lemma_added_prefix(ms.drop_last(), groups, p, now, i, k, g);
    }
}

/// Every metric was read at an instant chrono can represent.
pub open spec fn readable(ms: Seq<Metric>) -> bool {
    forall|i: int| 0 <= i < ms.len() ==> spec_chrono_valid(#[trigger] metric_time(ms[i]).secs, metric_time(ms[i]).nanos)
}

impl Bucket {
    /// The bucket's two series have one point per hour or day of its period.
    pub open spec fn well_formed(&self) -> bool {
        &&& self.value@.len() == bucket_len(self.period)
        &&& self.count@.len() == bucket_len(self.period)
    }

    /// An empty bucket: one point per hour or day, numbered from zero, all
    /// values and counts zero.
    pub fn create(period: Period) -> (b: Bucket)
        ensures
            b.period == period,
            b.well_formed(),
            forall|k: int| 0 <= k < bucket_len(period) ==> (#[trigger] b.value@[k]).x == k && b.count@[k].x == k,
            forall|k: int, g: int|
                0 <= k < bucket_len(period) && 0 <= g < 4 ==> (#[trigger] b.value@[k].y@[g]) == 0 && b.count@[k].y@[g]
                    == 0,
    {
        let n: u64 = match period {
            Period::LastDay => 24,
            Period::Last7Days => 7,
            Period::Last30Days => 30,
            Period::Last90Days => 90,
        };
        let mut points: Vec<DataPoint> = Vec::new();
        let mut x: u64 = 0;
        while x < n
            invariant
                x <= n,
                n == bucket_len(period),
                points@.len() == x,
                forall|k: int| 0 <= k < x ==> (#[trigger] points@[k]).x == k && points@[k].y@ == seq![0u64, 0, 0, 0],
            decreases n - x,
        {
            let y: [u64; 4] = [0, 0, 0, 0];
            assert(y@ =~= seq![0u64, 0, 0, 0]);
            points.push(DataPoint { x, y });
            x = x + 1;
        }
        let count = clone_points(&points);
        Bucket { period, value: points, count }
    }

    /// Whether adding the metric to series `y_num` would overflow the value
    /// or the count of the point it falls in.
    pub open spec fn overflows(&self, m: Metric, y_num: int, now: UtcDateTime) -> bool {
        match reading_index(self.period, now, m) {
            Some(k) => 0 <= k < bucket_len(self.period) && (self.value@[k].y@[y_num] + metric_reading(m).0 > u64::MAX
                || self.count@[k].y@[y_num] + metric_reading(m).1 > u64::MAX),
            None => false,
        }
    }

    /// Whether every point and series can take what the metrics add to it.
    pub open spec fn fits(&self, ms: Seq<Metric>, groups: Seq<Seq<Seq<char>>>, now: UtcDateTime) -> bool {
        forall|k: int, g: int|
            0 <= k < bucket_len(self.period) && 0 <= g < 4 ==> #[trigger] self.value@[k].y@[g] + added(
                ms,
                groups,
                self.period,
                now,
                k,
                g,
            ).0 <= u64::MAX && self.count@[k].y@[g] + added(ms, groups, self.period, now, k, g).1 <= u64::MAX
    }

    /// `b` is `self` with what the metrics add to each point and series.
    pub open spec fn adds_up_to(&self, b: Bucket, ms: Seq<Metric>, groups: Seq<Seq<Seq<char>>>, now: UtcDateTime) -> bool {
        &&& b.period == self.period
        &&& b.well_formed()
        &&& forall|k: int|
            0 <= k < bucket_len(self.period) ==> (#[trigger] b.value@[k]).x == self.value@[k].x && b.count@[k].x
                == self.count@[k].x
        &&& forall|k: int, g: int|
            0 <= k < bucket_len(self.period) && 0 <= g < 4 ==> (#[trigger] b.value@[k].y@[g]) == self.value@[k].y@[g]
                + added(ms, groups, self.period, now, k, g).0 && b.count@[k].y@[g] == self.count@[k].y@[g] + added(
                ms,
                groups,
                self.period,
                now,
                k,
                g,
            ).1
    }

    /// `b` is `self` with the metric's reading added to series `y_num` of
    /// the point it falls in (nothing when it falls in none).
    pub open spec fn reading_added(&self, b: Bucket, m: Metric, y_num: int, now: UtcDateTime) -> bool {
        &&& b.period == self.period
        &&& b.well_formed()
        &&& forall|k: int|
            0 <= k < bucket_len(self.period) ==> (#[trigger] b.value@[k]).x == self.value@[k].x && b.count@[k].x
                == self.count@[k].x
        &&& forall|k: int, g: int|
            0 <= k < bucket_len(self.period) && 0 <= g < 4 ==> (#[trigger] b.value@[k].y@[g]) == self.value@[k].y@[g]
                + (if reading_index(self.period, now, m) == Some(k) && g == y_num {
                metric_reading(m).0 as int
            } else {
                0
            }) && b.count@[k].y@[g] == self.count@[k].y@[g] + (if reading_index(self.period, now, m) == Some(k) && g
                == y_num {
                metric_reading(m).1 as int
            } else {
                0
            })
    }

    /// Adds a reading to series `y_num` of the point it falls in, counted
    /// back from `now`, unless that would overflow the point; a reading
    /// outside the period is dropped. Returns whether nothing overflowed;
    /// on overflow the bucket is left as it was.
    pub fn add_reading(&mut self, metric: &Metric, y_num: usize, now: UtcDateTime) -> (ok: bool)
        requires
            old(self).well_formed(),
            y_num < 4,
            spec_chrono_valid(now.secs, now.nanos),
            spec_chrono_valid(metric_time(*metric).secs, metric_time(*metric).nanos),
        ensures
            ok == !old(self).overflows(*metric, y_num as int, now),
            !ok ==> *final(self) == *old(self),
            ok ==> old(self).reading_added(*final(self), *metric, y_num as int, now),
    {
        let (value, count, timestamp) = metric.reading();
        let secs = seconds_between(now, timestamp);
        match bucket_index(self.period, secs) {
            Some(k) => {
                let mut v = self.value[k];
                let mut c = self.count[k];
                match (v.y[y_num].checked_add(value), c.y[y_num].checked_add(count)) {
                    (Some(nv), Some(nc)) => {
                        v.y[y_num] = nv;
                        c.y[y_num] = nc;
                        self.value.set(k, v);
                        self.count.set(k, c);
                        true
                    },
                    _ => false,
                }
            },
            None => true,
        }
    }

    /// Adds a metric to the series of the first group that holds its id,
    /// unless that would overflow a point; returns whether nothing overflowed.
    fn add_grouped(&mut self, metric: &Metric, ids: &[&[&str]], now: UtcDateTime) -> (ok: bool)
        requires
            old(self).well_formed(),
            ids@.len() <= 4,
            spec_chrono_valid(now.secs, now.nanos),
            spec_chrono_valid(metric_time(*metric).secs, metric_time(*metric).nanos),
        ensures
            final(self).period == old(self).period,
            final(self).well_formed(),
            !ok ==> *final(self) == *old(self),
            !ok ==> exists|k: int, g: int|
                0 <= k < bucket_len(old(self).period) && 0 <= g < 4 && (#[trigger] old(self).value@[k].y@[g]
                    + contribution(*metric, group_texts(ids@), old(self).period, now, k, g).0 > u64::MAX || old(self).count@[k].y@[g] + contribution(*metric, group_texts(ids@), old(self).period, now, k, g).1
                    > u64::MAX),
            ok ==> forall|k: int|
                0 <= k < bucket_len(old(self).period) ==> (#[trigger] final(self).value@[k]).x == old(self).value@[k].x
                    && final(self).count@[k].x == old(self).count@[k].x,
            ok ==> forall|k: int, g: int|
                0 <= k < bucket_len(old(self).period) && 0 <= g < 4 ==> (#[trigger] final(self).value@[k].y@[g]) == old(self).value@[k].y@[g] + contribution(*metric, group_texts(ids@), old(self).period, now, k, g).0 && final(self).count@[k].y@[g] == old(self).count@[k].y@[g] + contribution(
                    *metric,
                    group_texts(ids@),
                    old(self).period,
                    now,
                    k,
                    g,
                ).1,
    {
        match group_index(ids, metric.id()) {
            Some(g) => {
                let ok = self.add_reading(metric, g, now);
                proof {
                    if !ok {
                        let k = reading_index(old(self).period, now, *metric).unwrap();
                        assert(old(self).value@[k].y@[g as int] + contribution(
                            *metric,
                            group_texts(ids@),
                            old(self).period,
                            now,
                            k,
                            g as int,
                        ).0 > u64::MAX || old(self).count@[k].y@[g as int] + contribution(
                            *metric,
                            group_texts(ids@),
                            old(self).period,
                            now,
                            k,
                            g as int,
                        ).1 > u64::MAX);
                    }
                }
                ok
            },
            None => true,
        }
    }

    /// Adds each metric whose id is in one of the groups to the series of
    /// the first such group, counted back from `now`; `None` when a point
    /// would overflow.
    #[verifier::spinoff_prover]
    pub fn add_readings(self, metrics: &[Metric], ids: &[&[&str]], now: UtcDateTime) -> (r: Option<Bucket>)
        requires
            self.well_formed(),
            ids@.len() <= 4,
            spec_chrono_valid(now.secs, now.nanos),
            readable(metrics@),
        ensures
            r is Some <==> self.fits(metrics@, group_texts(ids@), now),
            r matches Some(b) ==> self.adds_up_to(b, metrics@, group_texts(ids@), now),
    {
        let ghost groups = group_texts(ids@);
        let ghost init = self;
        let mut b = self;
        let mut i: usize = 0;
        while i < metrics.len()
            invariant
                i <= metrics@.len(),
                groups == group_texts(ids@),
                ids@.len() <= 4,
                spec_chrono_valid(now.secs, now.nanos),
                readable(metrics@),
                init.well_formed(),
                init == self,
                init.adds_up_to(b, metrics@.take(i as int), groups, now),
            decreases metrics.len() - i,
        {
            let metric = &metrics[i];
            let ghost pre = metrics@.take(i as int);
            let ghost post = metrics@.take(i + 1);
            proof {
                assert(post.drop_last() =~= pre);
                assert(post.last() == *metric);
                assert(spec_chrono_valid(metric_time(metrics@[i as int]).secs, metric_time(metrics@[i as int]).nanos));
            }
            let ghost old_b = b;
            let ok = b.add_grouped(metric, ids, now);
            if !ok {
                proof {
                    let (k, g) = choose|k: int, g: int|
                        0 <= k < bucket_len(old_b.period) && 0 <= g < 4 && (#[trigger] old_b.value@[k].y@[g]
                            + contribution(*metric, groups, old_b.period, now, k, g).0 > u64::MAX || old_b.count@[k].y@[g]
                            + contribution(*metric, groups, old_b.period, now, k, g).1 > u64::MAX);
                    assert(old_b.value@[k].y@[g] == init.value@[k].y@[g] + added(pre, groups, init.period, now, k, g).0);
                    assert(old_b.count@[k].y@[g] == init.count@[k].y@[g] + added(pre, groups, init.period, now, k, g).1);
                    assert(added(post, groups, init.period, now, k, g) == (
                        added(pre, groups, init.period, now, k, g).0 + contribution(*metric, groups, init.period, now, k, g).0,
                        added(pre, groups, init.period, now, k, g).1 + contribution(*metric, groups, init.period, now, k, g).1,
                    ));
                    lemma_added_prefix(metrics@, groups, init.period, now, i + 1, k, g);
                    assert(!(init.value@[k].y@[g] + added(metrics@, groups, init.period, now, k, g).0 <= u64::MAX
                        && init.count@[k].y@[g] + added(metrics@, groups, init.period, now, k, g).1 <= u64::MAX));
                    assert(0 <= k < bucket_len(init.period) && 0 <= g < 4);
                    assert(!init.fits(metrics@, groups, now));
                }
                return None;
            }
            proof {
                assert forall|k: int, g: int| 0 <= k < bucket_len(init.period) && 0 <= g < 4 implies (
                #[trigger] b.value@[k].y@[g]) == init.value@[k].y@[g] + added(post, groups, init.period, now, k, g).0
                    && b.count@[k].y@[g] == init.count@[k].y@[g] + added(post, groups, init.period, now, k, g).1 by {
                    assert(b.value@[k].y@[g] == old_b.value@[k].y@[g] + contribution(*metric, groups, old_b.period, now, k, g).0);
                    assert(b.count@[k].y@[g] == old_b.count@[k].y@[g] + contribution(*metric, groups, old_b.period, now, k, g).1);
                    assert(old_b.value@[k].y@[g] == init.value@[k].y@[g] + added(pre, groups, init.period, now, k, g).0);
                    assert(old_b.count@[k].y@[g] == init.count@[k].y@[g] + added(pre, groups, init.period, now, k, g).1);
                    assert(added(post, groups, init.period, now, k, g) == (
                        added(pre, groups, init.period, now, k, g).0 + contribution(*metric, groups, init.period, now, k, g).0,
                        added(pre, groups, init.period, now, k, g).1 + contribution(*metric, groups, init.period, now, k, g).1,
                    ));
                }
            }
            i = i + 1;
        }
        proof {
            assert(metrics@.take(metrics@.len() as int) =~= metrics@);
            assert forall|k: int, g: int| 0 <= k < bucket_len(init.period) && 0 <= g < 4 implies #[trigger] init.value@[k].y@[g]
                + added(metrics@, groups, init.period, now, k, g).0 <= u64::MAX && init.count@[k].y@[g] + added(
                metrics@,
                groups,
                init.period,
                now,
                k,
                g,
            ).1 <= u64::MAX by {
                assert(b.value@[k].y@[g] == init.value@[k].y@[g] + added(metrics@, groups, init.period, now, k, g).0);
            }
        }
        Some(b)
    }

    /// Adds the metrics read from the clock's current time; `None` when
    /// there are more than four groups, a metric's time is not one chrono
    /// can represent, or a point would overflow.
    pub fn add_readings_now(self, metrics: &[Metric], ids: &[&[&str]]) -> (r: Option<Bucket>)
        requires
            self.well_formed(),
        ensures
            r matches Some(b) ==> exists|n: UtcDateTime|
                spec_chrono_valid(n.secs, n.nanos) && #[trigger] self.adds_up_to(b, metrics@, group_texts(ids@), n),
            r is None ==> ids@.len() > 4 || !readable(metrics@) || exists|n: UtcDateTime|
                spec_chrono_valid(n.secs, n.nanos) && !#[trigger] self.fits(metrics@, group_texts(ids@), n),
    {
        if ids.len() > 4 {
            return None;
        }
        let mut i: usize = 0;
        while i < metrics.len()
            invariant
                i <= metrics@.len(),
                forall|j: int|
                    0 <= j < i ==> spec_chrono_valid(#[trigger] metric_time(metrics@[j]).secs, metric_time(metrics@[j]).nanos),
            decreases metrics.len() - i,
        {
            let (_, _, t) = metrics[i].reading();
            if !is_representable(t) {
                return None;
            }
            i = i + 1;
        }
        let n = now();
        let ghost init = self;
        let r = self.add_readings(metrics, ids, n);
        proof {
            if r is Some {
                assert(init.adds_up_to(r.unwrap(), metrics@, group_texts(ids@), n));
            } else {
                assert(!init.fits(metrics@, group_texts(ids@), n));
            }
        }
        r
    }

    /// The chart of totals.
    pub fn finish_sum(self) -> (r: Vec<DataPoint>)
        ensures
            r@ == self.value@,
    {
        self.value
    }

    /// The chart of means: the first two series divided by their counts
    /// (rounded down) where a count is not zero; the others are kept.
    pub fn finish_avg(self) -> (r: Vec<DataPoint>)
        requires
            self.well_formed(),
        ensures
            r@.len() == self.value@.len(),
            forall|k: int| 0 <= k < r@.len() ==> (#[trigger] r@[k]).x == self.value@[k].x,
            forall|k: int, g: int|
                0 <= k < r@.len() && 0 <= g < 4 ==> (#[trigger] r@[k].y@[g]) == if g < 2 && self.count@[k].y@[g] > 0 {
                    self.value@[k].y@[g] / self.count@[k].y@[g]
                } else {
                    self.value@[k].y@[g]
                },
    {
        let mut value = self.value;
        let n = value.len();
        let mut k: usize = 0;
        while k < n
            invariant
                k <= n,
                n == value@.len(),
                n == self.value@.len(),
                n == self.count@.len(),
                forall|j: int| 0 <= j < n ==> (#[trigger] value@[j]).x == self.value@[j].x,
                forall|j: int, g: int|
                    0 <= j < n && 0 <= g < 4 ==> (#[trigger] value@[j].y@[g]) == if j < k && g < 2 && self.count@[j].y@[g]
                        > 0 {
                        self.value@[j].y@[g] / self.count@[j].y@[g]
                    } else {
                        self.value@[j].y@[g]
                    },
            decreases n - k,
        {
            let c = self.count[k];
            let mut v = value[k];
            if c.y[0] > 0 {
                v.y[0] = v.y[0] / c.y[0];
            }
            if c.y[1] > 0 {
                v.y[1] = v.y[1] / c.y[1];
            }
            value.set(k, v);
            k = k + 1;
        }
        value
    }
}

/// The point a reading taken `secs` seconds ago falls in.
fn bucket_index(p: Period, secs: i64) -> (r: Option<usize>)
    ensures
        r matches Some(k) ==> index_for(p, secs as int) == Some(k as int) && k < bucket_len(p),
        r is None ==> index_for(p, secs as int) is None,
{
    let hours: i64 = if secs >= 0 {
        secs / 3600
    } else {
        (0 - ((0 - (secs as i128)) / 3600)) as i64
    };
    let days: i64 = if secs >= 0 {
        secs / 86400
    } else {
        (0 - ((0 - (secs as i128)) / 86400)) as i64
    };
    match p {
        Period::LastDay => if 0 <= hours && hours < 24 {
            Some((23 - hours) as usize)
        } else {
            None
        },
        Period::Last7Days => if 0 <= days && days < 7 {
            Some((6 - days) as usize)
        } else {
            None
        },
        Period::Last30Days => if 0 <= days && days < 30 {
            Some((29 - days) as usize)
        } else {
            None
        },
        Period::Last90Days => if 0 <= days && days < 90 {
            Some((89 - days) as usize)
        } else {
            None
        },
    }
}

/// Whether one of the ids is `id`.
fn holds_id(ids: &[&str], id: &str) -> (r: bool)
    ensures
        r == id_texts(ids@).contains(id@),
{
    let mut i: usize = 0;
    while i < ids.len()
        invariant
            i <= ids@.len(),
            forall|j: int| 0 <= j < i ==> (#[trigger] ids@[j])@ != id@,
        decreases ids.len() - i,
    {
        if str_eq(ids[i], id) {
            assert(id_texts(ids@)[i as int] == id@);
            return true;
        }
        i = i + 1;
    }
    proof {
        if id_texts(ids@).contains(id@) {
            let j = choose|j: int| 0 <= j < id_texts(ids@).len() && id_texts(ids@)[j] == id@;
            assert(ids@[j]@ == id@);
        }
    }
    false
}

/// The first group that holds `id`.
fn group_index(ids: &[&[&str]], id: &str) -> (r: Option<usize>)
    ensures
        r matches Some(g) ==> group_of(group_texts(ids@), id@) == Some(g as int) && g < ids@.len(),
        r is None ==> group_of(group_texts(ids@), id@) is None,
{
    let ghost groups = group_texts(ids@);
    let mut i: usize = 0;
    while i < ids.len()
        invariant
            i <= ids@.len(),
            groups == group_texts(ids@),
            group_of(groups.take(i as int), id@) is None,
        decreases ids.len() - i,
    {
        assert(groups.take(i + 1).drop_last() =~= groups.take(i as int));
        if holds_id(ids[i], id) {
            proof {
                lemma_group_of_found(groups, id@, i + 1);
            }
            return Some(i);
        }
        i = i + 1;
    }
    assert(groups.take(ids@.len() as int) =~= groups);
    None
}

fn clone_points(v: &Vec<DataPoint>) -> (r: Vec<DataPoint>)
    ensures
        r@ == v@,
{
    let mut r: Vec<DataPoint> = Vec::new();
    let mut i: usize = 0;
    while i < v.len()
        invariant
            i <= v@.len(),
            r@ == v@.take(i as int),
        decreases v.len() - i,
    {
        r.push(v[i]);
        assert(r@ =~= v@.take(i + 1));
        i = i + 1;
    }
    assert(v@.take(v@.len() as int) =~= v@);
    r
}


/// Live summary law: each id that occurs maps to the reading of the last
/// live metric with that id; no other id occurs.
pub proof fn lemma_live_last_wins(ms: Seq<LiveMetric>, i: int)
    requires
        0 <= i < ms.len(),
        forall|j: int| i < j < ms.len() ==> live_id(#[trigger] ms[j]) != live_id(ms[i]),
    ensures
        live_entries(ms).contains_key(live_id(ms[i])),
        live_entries(ms)[live_id(ms[i])] == live_summary(ms[i]),
    decreases ms.len(),
{
    if i < ms.len() - 1 {
        let k = live_id(ms[i]);
        assert(live_id(ms.last()) != k);
        assert forall|j: int| i < j < ms.drop_last().len() implies live_id(#[trigger] ms.drop_last()[j]) != live_id(
            ms.drop_last()[i],
        ) by {
            assert(ms.drop_last()[j] == ms[j]);
        }
        lemma_live_last_wins(ms.drop_last(), i);
    }
}

/// Live summary law: an id that no live metric has is not summarized.
pub proof fn lemma_live_only_seen(ms: Seq<LiveMetric>, id: Seq<char>)
    requires
        forall|j: int| 0 <= j < ms.len() ==> live_id(#[trigger] ms[j]) != id,
    ensures
        !live_entries(ms).contains_key(id),
    decreases ms.len(),
{
    if ms.len() > 0 {
        assert forall|j: int| 0 <= j < ms.drop_last().len() implies live_id(#[trigger] ms.drop_last()[j]) != id by {
            assert(ms.drop_last()[j] == ms[j]);
        }
        lemma_live_only_seen(ms.drop_last(), id);
    }
}

} // verus!
