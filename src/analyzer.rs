//! The reporting API over a store: every metric of a range at once, each of
//! them also on its own.
use vstd::prelude::*;
use crate::analytics::{
    all_wf, app_hour_breakdown, app_hour_count, average_kpm, backspace_ratio, backspace_ratio_of,
    cat_count, category_breakdown, category_slot, combos_only, group_counts, groups_of, heatmap,
    heatmap_of, hour_breakdown, hour_count, keep_combos, kpm_of, rank_desc, take_first, top_n, views,
    AppTimeData, Heatmap, KeyCombo, NameCount,
};
use crate::clock::{clock_reading, now_epoch_secs};
use crate::health::Ratio;
use crate::counts::{events_between, in_window, Field};
use crate::store::{get_key_count_by_time_range, events_in_window, EventStore, KeyboardEventRecord, StatsError};
use crate::window::{
    instant_in_range, parse_range, today_midnight, previous_of, previous_window, range_of, resolve_window,
    window_of, TimeRange, TimeWindow,
};

verus! {

/// Every metric of a range, with the trend fields of the window before it.
#[derive(Clone, Debug)]
pub struct KeyStats {
    pub total_presses: u64,
    pub kpm: u64,
    pub avg_kpm: Ratio,
    pub backspace_ratio: Ratio,
    pub most_used_keys: Vec<NameCount>,
    pub key_categories: Vec<u64>,
    pub app_usage: Vec<NameCount>,
    pub time_distribution: Vec<u64>,
    pub prev_total_presses: u64,
    pub prev_avg_kpm: Ratio,
    pub prev_backspace_ratio: Ratio,
    pub activity_heatmap: Heatmap,
    pub key_combos: Vec<KeyCombo>,
    pub app_time_distribution: Vec<AppTimeData>,
}

/// The trailing minute that ends with the second `now`.
pub open spec fn last_minute(evs: Seq<KeyboardEventRecord>, now: i64) -> Seq<KeyboardEventRecord> {
    events_between(evs, (now - 59) as i64, (now + 1) as i64)
}

/// `combos` lists the chords `top` gives, in order.
pub open spec fn combos_match(combos: Seq<KeyCombo>, top: Seq<(Seq<char>, nat)>) -> bool {
    &&& combos.len() == top.len()
    &&& forall|i: int| 0 <= i < combos.len() ==> (#[trigger] combos[i]).combo@ == top[i].0 && combos[i].count == top[i].1
}

/// `apps` gives, for each application of `top`, its events per hour in `evs`.
pub open spec fn app_hours_match(apps: Seq<AppTimeData>, top: Seq<(Seq<char>, nat)>, evs: Seq<KeyboardEventRecord>) -> bool {
    &&& apps.len() == top.len()
    &&& forall|i: int|
        0 <= i < apps.len() ==> (#[trigger] apps[i]).label@ == top[i].0 && apps[i].data@.len() == 24
            && forall|h: int| 0 <= h < 24 ==> #[trigger] apps[i].data@[h] == app_hour_count(evs, top[i].0, h)
}

/// `s` holds the metrics of window `w` of `range`, the previous window `p`,
/// and the rate of the minute ending at `now`.
pub open spec fn stats_match(
    evs: Seq<KeyboardEventRecord>,
    s: KeyStats,
    range: TimeRange,
    w: TimeWindow,
    p: TimeWindow,
    now: i64,
) -> bool {
    let win = events_between(evs, w.start, w.end);
    let prev = events_between(evs, p.start, p.end);
    &&& s.total_presses == win.len()
    &&& s.kpm == last_minute(evs, now).len()
    &&& s.avg_kpm == kpm_of(win.len(), w.start, w.end)
    &&& s.backspace_ratio == backspace_ratio_of(win)
    &&& views(s.most_used_keys@) == top_n(groups_of(win, Field::Key), 10)
    &&& s.key_categories@.len() == 8
    &&& forall|c| #[trigger] s.key_categories@[category_slot(c)] == cat_count(win, c)
    &&& s.key_categories@[0] + s.key_categories@[1] + s.key_categories@[2] + s.key_categories@[3]
        + s.key_categories@[4] + s.key_categories@[5] + s.key_categories@[6] + s.key_categories@[7] == win.len()
    &&& views(s.app_usage@) == groups_of(win, Field::App)
    &&& s.time_distribution@.len() == 24
    &&& forall|h: int| 0 <= h < 24 ==> #[trigger] s.time_distribution@[h] == hour_count(win, h)
    &&& s.prev_total_presses == prev.len()
    &&& s.prev_avg_kpm == kpm_of(prev.len(), p.start, p.end)
    &&& s.prev_backspace_ratio == backspace_ratio_of(prev)
    &&& s.activity_heatmap.kind == range
    &&& heatmap_of(win, range, s.activity_heatmap.cells@)
    &&& combos_match(s.key_combos@, top_n(combos_only(groups_of(win, Field::Key)), 10))
    &&& app_hours_match(s.app_time_distribution@, top_n(groups_of(win, Field::App), 5), win)
}

/// `s` holds the metrics of `range` at instant `now`, with `midnight` the
/// local midnight of today.
pub open spec fn stats_for(
    evs: Seq<KeyboardEventRecord>,
    s: KeyStats,
    range: TimeRange,
    now: i64,
    midnight: Option<i64>,
) -> bool {
    let w = window_of(range, now, midnight, crate::store::earliest(evs));
    stats_match(evs, s, range, w, previous_of(range, w), now)
}

proof fn lemma_between_wf(evs: Seq<KeyboardEventRecord>, start: i64, end: i64)
    requires
        all_wf(evs),
    ensures
        all_wf(events_between(evs, start, end)),
    decreases evs.len(),
{
    if evs.len() > 0 {
        let d = evs.drop_last();
        assert(all_wf(d)) by {
            assert forall|j: int| 0 <= j < d.len() implies (#[trigger] d[j]).timestamp.wf() by {
                assert(d[j] == evs[j]);
            }
        }
        lemma_between_wf(d, start, end);
        assert(evs[evs.len() - 1].timestamp.wf());
        let b = events_between(d, start, end);
        if in_window(evs.last(), start, end) {
            assert forall|j: int| 0 <= j < b.len() + 1 implies (#[trigger] b.push(evs.last())[j]).timestamp.wf() by {
                if j < b.len() {
                    assert(b.push(evs.last())[j] == b[j]);
                }
            }
        }
    }
}

/// The analytics engine over a store.
pub struct DataAnalyzer {
    store: EventStore,
}

impl DataAnalyzer {
    pub closed spec fn spec_store(&self) -> EventStore {
        self.store
    }

    pub open spec fn events(&self) -> Seq<KeyboardEventRecord> {
        self.spec_store().events()
    }

    pub fn new(store: EventStore) -> (r: Self)
        ensures
            r.spec_store() == store,
    {
        DataAnalyzer { store }
    }

    pub fn store(&self) -> (r: &EventStore)
        ensures
            *r == self.spec_store(),
    {
        &self.store
    }

    pub fn into_store(self) -> (r: EventStore)
        ensures
            r == self.spec_store(),
    {
        self.store
    }

    fn window_events(&self, start: i64, end: i64) -> (r: Vec<KeyboardEventRecord>)
        requires
            self.spec_store().wf(),
        ensures
            r@ == events_between(self.events(), start, end),
            all_wf(r@),
    {
        proof {
            lemma_between_wf(self.events(), start, end);
        }
        events_in_window(&self.store, start, end)
    }

    /// Events in `[start, end)`.
    pub fn get_total_presses(&self, start: i64, end: i64) -> (r: u64)
        requires
            self.spec_store().wf(),
        ensures
            r == events_between(self.events(), start, end).len(),
    {
        get_key_count_by_time_range(&self.store, start, end)
    }

    /// Events in the minute that ends with the second `now`.
    pub fn kpm_at(&self, now: i64) -> (r: u64)
        requires
            self.spec_store().wf(),
            instant_in_range(now),
        ensures
            r == last_minute(self.events(), now).len(),
    {
        self.get_total_presses(now - 59, now + 1)
    }

    /// The live rate: events in the minute up to the current second.
    pub fn calculate_current_kpm(&self) -> (r: u64)
        requires
            self.spec_store().wf(),
        ensures
            exists|now: i64| clock_reading(now) && r == #[trigger] last_minute(self.events(), now).len(),
    {
        let now = now_epoch_secs();
        self.kpm_at(now)
    }

    /// Average keys per minute over `[start, end)`.
    pub fn calculate_average_kpm(&self, start: i64, end: i64) -> (r: Ratio)
        requires
            self.spec_store().wf(),
        ensures
            r == kpm_of(events_between(self.events(), start, end).len(), start, end),
    {
        let total = self.get_total_presses(start, end);
        average_kpm(total, start, end)
    }

    /// Backspaces as a percentage of the events in `[start, end)`.
    pub fn calculate_backspace_ratio(&self, start: i64, end: i64) -> (r: Ratio)
        requires
            self.spec_store().wf(),
        ensures
            r == backspace_ratio_of(events_between(self.events(), start, end)),
    {
        let evs = self.window_events(start, end);
        backspace_ratio(&evs)
    }

    /// The `limit` most frequent keys or chords of `[start, end)`.
    pub fn get_most_used_keys(&self, start: i64, end: i64, limit: usize) -> (r: Vec<NameCount>)
        requires
            self.spec_store().wf(),
        ensures
            views(r@) == top_n(groups_of(events_between(self.events(), start, end), Field::Key), limit as nat),
    {
        let evs = self.window_events(start, end);
        let groups = group_counts(&evs, Field::Key);
        let ranked = rank_desc(&groups);
        let r = take_first(ranked, limit);
        proof {
            if (limit as nat) < views(r@).len() {
            }
        }
        assert(views(r@) == top_n(views(groups@), limit as nat));
        r
    }

    /// Events of `[start, end)` per key category, at `category_index`.
    pub fn get_key_categories(&self, start: i64, end: i64) -> (r: Vec<u64>)
        requires
            self.spec_store().wf(),
        ensures
            r@.len() == 8,
            forall|c| #[trigger] r@[category_slot(c)] == cat_count(events_between(self.events(), start, end), c),
            r@[0] + r@[1] + r@[2] + r@[3] + r@[4] + r@[5] + r@[6] + r@[7] == events_between(self.events(), start, end).len(),
    {
        let evs = self.window_events(start, end);
        category_breakdown(&evs)
    }

    /// Events of `[start, end)` per application, in order of first use.
    pub fn get_app_usage(&self, start: i64, end: i64) -> (r: Vec<NameCount>)
        requires
            self.spec_store().wf(),
        ensures
            views(r@) == groups_of(events_between(self.events(), start, end), Field::App),
    {
        let evs = self.window_events(start, end);
        group_counts(&evs, Field::App)
    }

    /// Events of `[start, end)` per local hour.
    pub fn get_time_distribution(&self, start: i64, end: i64) -> (r: Vec<u64>)
        requires
            self.spec_store().wf(),
        ensures
            r@.len() == 24,
            forall|h: int| 0 <= h < 24 ==> #[trigger] r@[h] == hour_count(events_between(self.events(), start, end), h),
    {
        let evs = self.window_events(start, end);
        hour_breakdown(&evs)
    }

    /// The heatmap of `range` over its window `w`, on the grid of the range.
    pub fn get_activity_heatmap(&self, range: TimeRange, w: TimeWindow) -> (r: Heatmap)
        requires
            self.spec_store().wf(),
        ensures
            r.kind == range,
            heatmap_of(events_between(self.events(), w.start, w.end), range, r.cells@),
    {
        let evs = self.window_events(w.start, w.end);
        heatmap(&evs, range)
    }

    /// The `limit` most frequent chords of `[start, end)`.
    pub fn get_key_combos(&self, start: i64, end: i64, limit: usize) -> (r: Vec<KeyCombo>)
        requires
            self.spec_store().wf(),
        ensures
            combos_match(
                r@,
                top_n(combos_only(groups_of(events_between(self.events(), start, end), Field::Key)), limit as nat),
            ),
    {
        let evs = self.window_events(start, end);
        let groups = group_counts(&evs, Field::Key);
        let combos = keep_combos(&groups);
        let ranked = rank_desc(&combos);
        let top = take_first(ranked, limit);
        let ghost t = views(top@);
        assert(t == top_n(views(combos@), limit as nat));
        let mut out: Vec<KeyCombo> = Vec::new();
        let mut i: usize = 0;
        while i < top.len()
            invariant
                t == views(top@),
                i <= top@.len(),
                out@.len() == i,
                forall|k: int| 0 <= k < i ==> (#[trigger] out@[k]).combo@ == t[k].0 && out@[k].count == t[k].1,
            decreases top@.len() - i,
        {
            out.push(KeyCombo { combo: top[i].name.clone(), count: top[i].count });
            i = i + 1;
        }
        out
    }

    /// For the five applications with most events in `[start, end)`, their
    /// events per local hour.
    pub fn get_app_time_distribution(&self, start: i64, end: i64) -> (r: Vec<AppTimeData>)
        requires
            self.spec_store().wf(),
        ensures
            app_hours_match(
                r@,
                top_n(groups_of(events_between(self.events(), start, end), Field::App), 5),
                events_between(self.events(), start, end),
            ),
    {
        let evs = self.window_events(start, end);
        let groups = group_counts(&evs, Field::App);
        let ranked = rank_desc(&groups);
        let top = take_first(ranked, 5);
        let ghost t = views(top@);
        assert(t == top_n(views(groups@), 5));
        let mut out: Vec<AppTimeData> = Vec::new();
        let mut i: usize = 0;
        while i < top.len()
            invariant
                t == views(top@),
                all_wf(evs@),
                i <= top@.len(),
                out@.len() == i,
                forall|k: int|
                    0 <= k < i ==> (#[trigger] out@[k]).label@ == t[k].0 && out@[k].data@.len() == 24
                        && forall|h: int| 0 <= h < 24 ==> #[trigger] out@[k].data@[h] == app_hour_count(evs@, t[k].0, h),
            decreases top@.len() - i,
        {
            let data = app_hour_breakdown(&evs, &top[i].name);
            out.push(AppTimeData { label: top[i].name.clone(), data });
            i = i + 1;
        }
        out
    }

    /// Every metric of `range` at instant `now`, with `midnight` the local
    /// midnight of today.
    pub fn stats_at(&self, range: TimeRange, now: i64, midnight: Option<i64>) -> (r: KeyStats)
        requires
            self.spec_store().wf(),
            instant_in_range(now),
        ensures
            stats_for(self.events(), r, range, now, midnight),
    {
        let first = self.store.earliest_event_time();
        let w = resolve_window(range, now, midnight, first);
        let p = previous_window(range, w);
        let total_presses = self.get_total_presses(w.start, w.end);
        let kpm = self.kpm_at(now);
        let avg_kpm = self.calculate_average_kpm(w.start, w.end);
        let backspace_ratio = self.calculate_backspace_ratio(w.start, w.end);
        let most_used_keys = self.get_most_used_keys(w.start, w.end, 10);
        let key_categories = self.get_key_categories(w.start, w.end);
        let app_usage = self.get_app_usage(w.start, w.end);
        let time_distribution = self.get_time_distribution(w.start, w.end);
        let activity_heatmap = self.get_activity_heatmap(range, w);
        let key_combos = self.get_key_combos(w.start, w.end, 10);
        let app_time_distribution = self.get_app_time_distribution(w.start, w.end);
        let prev_total_presses = self.get_total_presses(p.start, p.end);
        let prev_avg_kpm = self.calculate_average_kpm(p.start, p.end);
        let prev_backspace_ratio = self.calculate_backspace_ratio(p.start, p.end);
        KeyStats {
            total_presses,
            kpm,
            avg_kpm,
            backspace_ratio,
            most_used_keys,
            key_categories,
            app_usage,
            time_distribution,
            prev_total_presses,
            prev_avg_kpm,
            prev_backspace_ratio,
            activity_heatmap,
            key_combos,
            app_time_distribution,
        }
    }

    /// Every metric of the range named by `time_range`, at the current
    /// instant.
    pub fn get_stats(&self, time_range: &str) -> (r: Result<KeyStats, StatsError>)
        requires
            self.spec_store().wf(),
        ensures
            range_of(time_range@) is None ==> r == Err::<KeyStats, StatsError>(StatsError::InvalidRange),
            range_of(time_range@) is Some ==> r is Ok,
            r is Ok ==> exists|now: i64, midnight: Option<i64>|
                clock_reading(now) && #[trigger] stats_for(
                    self.events(),
                    r->Ok_0,
                    range_of(time_range@)->0,
                    now,
                    midnight,
                ),
    {
        let range = match parse_range(time_range) {
            Ok(r) => r,
            Err(e) => return Err(e),
        };
        let now = now_epoch_secs();
        let midnight = today_midnight(now);
        let stats = self.stats_at(range, now, midnight);
        assert(range == range_of(time_range@)->0);
        assert(stats_for(self.events(), stats, range_of(time_range@)->0, now, midnight));
        let r = Ok(stats);
        assert(r->Ok_0 == stats);
        assert(exists|n: i64, m: Option<i64>|
            clock_reading(n) && #[trigger] stats_for(self.events(), r->Ok_0, range_of(time_range@)->0, n, m));
        r
    }
}

} // verus!
