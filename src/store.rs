//! The event store: an append-only log of key events with two derived
//! counters, one per key or chord and one per application.
use vstd::prelude::*;
use crate::clock::LocalTime;
use crate::counts::{
    app_names, counts_match, events_between, events_outside, in_window, key_names, lemma_between_len,
    lemma_counts_after_delete, lemma_counts_push_existing, lemma_counts_push_new, lemma_counts_total,
    lemma_occ_le_len, lemma_occ_split, lemma_outside_from, occ, sum_nat, surviving, Field,
};

verus! {

/// One captured key or chord.
#[derive(Clone, Debug)]
pub struct KeyboardEventRecord {
    pub timestamp: LocalTime,
    pub key_code: String,
    pub app_name: String,
    pub window_title: String,
}

/// The running count of one key or chord.
#[derive(Clone, Debug)]
pub struct KeyStat {
    pub key_code: String,
    pub count: u64,
}

/// The running count of one application, with the time of its latest event.
#[derive(Clone, Debug)]
pub struct AppStat {
    pub app_name: String,
    pub key_count: u64,
    pub last_used: i64,
}

/// The least timestamp of `evs`; `None` when it is empty.
pub open spec fn earliest(evs: Seq<KeyboardEventRecord>) -> Option<i64>
    decreases evs.len(),
{
    if evs.len() == 0 {
        None
    } else {
        match earliest(evs.drop_last()) {
            Some(b) => if evs.last().timestamp.epoch_secs < b {
                Some(evs.last().timestamp.epoch_secs)
            } else {
                Some(b)
            },
            None => Some(evs.last().timestamp.epoch_secs),
        }
    }
}

/// A field-by-field copy of an event.
pub fn copy_record(e: &KeyboardEventRecord) -> (r: KeyboardEventRecord)
    ensures
        r == *e,
{
    KeyboardEventRecord {
        timestamp: e.timestamp,
        key_code: e.key_code.clone(),
        app_name: e.app_name.clone(),
        window_title: e.window_title.clone(),
    }
}

/// The failures of the store and of the range resolver.
#[derive(Clone, Copy, Debug, PartialEq, Eq, Structural)]
pub enum StatsError {
    /// The store could not take the change; nothing was changed.
    Persistence,
    /// A range token outside `today`, `week`, `month`, `all`.
    InvalidRange,
}

/// The store: the events in storage order and the two counter tables.
pub struct EventStore {
    events: Vec<KeyboardEventRecord>,
    key_stats: Vec<KeyStat>,
    app_stats: Vec<AppStat>,
}

impl EventStore {
    pub closed spec fn events(&self) -> Seq<KeyboardEventRecord> {
        self.events@
    }

    pub closed spec fn key_stats(&self) -> Seq<KeyStat> {
        self.key_stats@
    }

    pub closed spec fn app_stats(&self) -> Seq<AppStat> {
        self.app_stats@
    }

    /// Every timestamp is well formed and both counter tables match the log.
    pub open spec fn wf(&self) -> bool {
        &&& forall|j: int| 0 <= j < self.events().len() ==> (#[trigger] self.events()[j]).timestamp.wf()
        &&& counts_match(
            self.events(),
            Field::Key,
            key_names(self.key_stats()),
            self.key_stats().map_values(|k: KeyStat| k.count as nat),
        )
        &&& counts_match(
            self.events(),
            Field::App,
            app_names(self.app_stats()),
            self.app_stats().map_values(|a: AppStat| a.key_count as nat),
        )
    }

    /// An empty store.
    pub fn new() -> (r: Self)
        ensures
            r.wf(),
            r.events().len() == 0,
            r.key_stats().len() == 0,
            r.app_stats().len() == 0,
    {
        EventStore { events: Vec::new(), key_stats: Vec::new(), app_stats: Vec::new() }
    }

    /// Index of the counter row of `key`, if there is one.
    fn find_key_row(&self, key: &String) -> (r: Option<usize>)
        ensures
            r is Some ==> r->0 < self.key_stats@.len() && key_names(self.key_stats@)[r->0 as int] == key@,
            r is None ==> !key_names(self.key_stats@).contains(key@),
    {
        let mut i: usize = 0;
        while i < self.key_stats.len()
            invariant
                i <= self.key_stats@.len(),
                forall|j: int| 0 <= j < i ==> self.key_stats@[j].key_code@ != key@,
            decreases self.key_stats@.len() - i,
        {
            if self.key_stats[i].key_code == *key {
                return Some(i);
            }
            i = i + 1;
        }
        proof {
            if key_names(self.key_stats@).contains(key@) {
                let j = choose|j: int| 0 <= j < self.key_stats@.len() && key_names(self.key_stats@)[j] == key@;
            }
        }
        None
    }

    /// Index of the counter row of `app`, if there is one.
    fn find_app_row(&self, app: &String) -> (r: Option<usize>)
        ensures
            r is Some ==> r->0 < self.app_stats@.len() && app_names(self.app_stats@)[r->0 as int] == app@,
            r is None ==> !app_names(self.app_stats@).contains(app@),
    {
        let mut i: usize = 0;
        while i < self.app_stats.len()
            invariant
                i <= self.app_stats@.len(),
                forall|j: int| 0 <= j < i ==> self.app_stats@[j].app_name@ != app@,
            decreases self.app_stats@.len() - i,
        {
            if self.app_stats[i].app_name == *app {
                return Some(i);
            }
            i = i + 1;
        }
        proof {
            if app_names(self.app_stats@).contains(app@) {
                let j = choose|j: int| 0 <= j < self.app_stats@.len() && app_names(self.app_stats@)[j] == app@;
            }
        }
        None
    }

    /// The earliest timestamp in the log; `None` when it is empty.
    pub fn earliest_event_time(&self) -> (r: Option<i64>)
        ensures
            r == earliest(self.events()),
    {
        let mut best: Option<i64> = None;
        let mut i: usize = 0;
        while i < self.events.len()
            invariant
                i <= self.events@.len(),
                best == earliest(self.events@.subrange(0, i as int)),
            decreases self.events@.len() - i,
        {
            proof {
                assert(self.events@.subrange(0, i + 1).drop_last() == self.events@.subrange(0, i as int));
            }
            let t = self.events[i].timestamp.epoch_secs;
            best = match best {
                Some(b) => if t < b { Some(t) } else { Some(b) },
                None => Some(t),
            };
            i = i + 1;
        }
        assert(self.events@.subrange(0, i as int) == self.events@);
        best
    }

    /// All events, in storage order.
    pub fn all_events(&self) -> (r: &Vec<KeyboardEventRecord>)
        ensures
            r@ == self.events(),
    {
        &self.events
    }

    /// The per-key counters, in the order their keys first occurred.
    pub fn key_stat_rows(&self) -> (r: &Vec<KeyStat>)
        ensures
            r@ == self.key_stats(),
    {
        &self.key_stats
    }

    /// The per-application counters, in the order their names first occurred.
    pub fn app_stat_rows(&self) -> (r: &Vec<AppStat>)
        ensures
            r@ == self.app_stats(),
    {
        &self.app_stats
    }
}

/// Appends an event and counts it in its key's and its application's
/// rows, adding a row with count 1 for a name not seen before. Fails,
/// changing nothing, when the log cannot grow.
pub fn insert_event(store: &mut EventStore, event: KeyboardEventRecord) -> (r: Result<(), StatsError>)
    requires
        old(store).wf(),
        event.timestamp.wf(),
    ensures
        final(store).wf(),
        r is Err <==> old(store).events().len() == usize::MAX,
        r is Err ==> r == Err::<(), StatsError>(StatsError::Persistence) && *final(store) == *old(store),
        r is Ok ==> final(store).events() == old(store).events().push(event),
        r is Ok ==> old(store).key_stats().len() <= final(store).key_stats().len() <= old(store).key_stats().len() + 1,
        r is Ok ==> old(store).app_stats().len() <= final(store).app_stats().len() <= old(store).app_stats().len() + 1,
        r is Ok ==> forall|i: int|
            0 <= i < old(store).key_stats().len() ==> (#[trigger] final(store).key_stats()[i]).key_code@
                == old(store).key_stats()[i].key_code@ && (old(store).key_stats()[i].key_code@
                != event.key_code@ ==> final(store).key_stats()[i] == old(store).key_stats()[i]),
        r is Ok ==> forall|i: int|
            0 <= i < old(store).app_stats().len() ==> (#[trigger] final(store).app_stats()[i]).app_name@
                == old(store).app_stats()[i].app_name@ && (old(store).app_stats()[i].app_name@
                != event.app_name@ ==> final(store).app_stats()[i] == old(store).app_stats()[i]),
        r is Ok ==> exists|i: int|
            0 <= i < final(store).app_stats().len() && (#[trigger] final(store).app_stats()[i]).app_name@
                == event.app_name@ && final(store).app_stats()[i].last_used == event.timestamp.epoch_secs,
{
    if store.events.len() == usize::MAX {
        return Err(StatsError::Persistence);
    }
    let ghost evs = store.events@;
    let ghost krows = key_names(store.key_stats@);
    let ghost kcounts = store.key_stats@.map_values(|k: KeyStat| k.count as nat);
    let ghost arows = app_names(store.app_stats@);
    let ghost acounts = store.app_stats@.map_values(|a: AppStat| a.key_count as nat);
    proof {
        assert(evs.len() < usize::MAX);
    }
    match store.find_key_row(&event.key_code) {
        Some(i) => {
            let c = store.key_stats[i].count;
            proof {
                assert(kcounts[i as int] == c);
                assert(c == occ(evs, Field::Key, krows[i as int]));
                lemma_occ_le_len(evs, Field::Key, krows[i as int]);
            }
            let row = KeyStat { key_code: store.key_stats[i].key_code.clone(), count: c + 1 };
            store.key_stats.set(i, row);
            proof {
                lemma_counts_push_existing(evs, event, Field::Key, krows, kcounts, i as int);
                assert(key_names(store.key_stats@) == krows);
                assert(store.key_stats@.map_values(|k: KeyStat| k.count as nat) == kcounts.update(
                    i as int,
                    kcounts[i as int] + 1,
                ));
            }
        },
        None => {
            store.key_stats.push(KeyStat { key_code: event.key_code.clone(), count: 1 });
            proof {
                lemma_counts_push_new(evs, event, Field::Key, krows, kcounts);
                assert(key_names(store.key_stats@) == krows.push(event.key_code@));
                assert(store.key_stats@.map_values(|k: KeyStat| k.count as nat) == kcounts.push(1));
            }
        },
    }
    let ghost li: int;
    match store.find_app_row(&event.app_name) {
        Some(i) => {
            let c = store.app_stats[i].key_count;
            proof {
                assert(acounts[i as int] == c);
                lemma_occ_le_len(evs, Field::App, arows[i as int]);
            }
            let row = AppStat {
                app_name: store.app_stats[i].app_name.clone(),
                key_count: c + 1,
                last_used: event.timestamp.epoch_secs,
            };
            store.app_stats.set(i, row);
            proof {
                li = i as int;
                lemma_counts_push_existing(evs, event, Field::App, arows, acounts, i as int);
                assert(app_names(store.app_stats@) == arows);
                assert(store.app_stats@.map_values(|a: AppStat| a.key_count as nat) == acounts.update(
                    i as int,
                    acounts[i as int] + 1,
                ));
            }
        },
        None => {
            store.app_stats.push(
                AppStat {
                    app_name: event.app_name.clone(),
                    key_count: 1,
                    last_used: event.timestamp.epoch_secs,
                },
            );
            proof {
                li = arows.len() as int;
                lemma_counts_push_new(evs, event, Field::App, arows, acounts);
                assert(app_names(store.app_stats@) == arows.push(event.app_name@));
                assert(store.app_stats@.map_values(|a: AppStat| a.key_count as nat) == acounts.push(1));
            }
        },
    }
    store.events.push(event);
    proof {
        assert(0 <= li < store.app_stats@.len());
        assert(store.app_stats@[li].app_name@ == event.app_name@);
        assert(store.app_stats@[li].last_used == event.timestamp.epoch_secs);
        assert(store.app_stats() == store.app_stats@);
        assert forall|j: int| 0 <= j < store.events@.len() implies (#[trigger] store.events@[j]).timestamp.wf() by {
            if j < evs.len() {
                assert(store.events@[j] == evs[j]);
            }
        }
    }
    Ok(())
}

/// The number of events in the log.
pub fn get_total_key_count(store: &EventStore) -> (r: u64)
    ensures
        r == store.events().len(),
{
    store.events.len() as u64
}

/// The number of events in `[start, end)`.
pub fn get_key_count_by_time_range(store: &EventStore, start: i64, end: i64) -> (r: u64)
    ensures
        r == events_between(store.events(), start, end).len(),
{
    let mut c: u64 = 0;
    let mut i: usize = 0;
    while i < store.events.len()
        invariant
            i <= store.events@.len(),
            c == events_between(store.events@.subrange(0, i as int), start, end).len(),
            c <= i,
        decreases store.events@.len() - i,
    {
        assert(store.events@.subrange(0, i + 1).drop_last() == store.events@.subrange(0, i as int));
        if start <= store.events[i].timestamp.epoch_secs && store.events[i].timestamp.epoch_secs < end {
            c = c + 1;
        }
        i = i + 1;
    }
    assert(store.events@.subrange(0, i as int) == store.events@);
    c
}

/// How many events of `evs` carry `name` in field `f`.
fn count_named(evs: &Vec<KeyboardEventRecord>, f: Field, name: &String) -> (r: u64)
    ensures
        r == occ(evs@, f, name@),
{
    let mut c: u64 = 0;
    let mut i: usize = 0;
    while i < evs.len()
        invariant
            i <= evs@.len(),
            c == occ(evs@.subrange(0, i as int), f, name@),
        decreases evs@.len() - i,
    {
        proof {
            assert(evs@.subrange(0, i + 1).drop_last() == evs@.subrange(0, i as int));
            lemma_occ_le_len(evs@.subrange(0, i as int), f, name@);
        }
        let hit = match f {
            Field::Key => evs[i].key_code == *name,
            Field::App => evs[i].app_name == *name,
        };
        if hit {
            c = c + 1;
        }
        i = i + 1;
    }
    assert(evs@.subrange(0, i as int) == evs@);
    c
}

/// Removes the events of `[start, end)`, subtracts them from the
/// counters and drops the rows left without events. Returns how many
/// events went.
pub fn delete_data_by_time_range(store: &mut EventStore, start: i64, end: i64) -> (r: usize)
    requires
        old(store).wf(),
    ensures
        final(store).wf(),
        final(store).events() == events_outside(old(store).events(), start, end),
        r == events_between(old(store).events(), start, end).len(),
        key_names(final(store).key_stats()) == surviving(
            final(store).events(),
            Field::Key,
            key_names(old(store).key_stats()),
        ),
        app_names(final(store).app_stats()) == surviving(
            final(store).events(),
            Field::App,
            app_names(old(store).app_stats()),
        ),
{
    let ghost evs = store.events@;
    let mut kept: Vec<KeyboardEventRecord> = Vec::new();
    let mut removed: Vec<KeyboardEventRecord> = Vec::new();
    let mut i: usize = 0;
    while i < store.events.len()
        invariant
            evs == store.events@,
            i <= evs.len(),
            kept@ == events_outside(evs.subrange(0, i as int), start, end),
            removed@ == events_between(evs.subrange(0, i as int), start, end),
        decreases evs.len() - i,
    {
        proof {
            assert(evs.subrange(0, i + 1).drop_last() == evs.subrange(0, i as int));
        }
        let e = copy_record(&store.events[i]);
        if start <= e.timestamp.epoch_secs && e.timestamp.epoch_secs < end {
            removed.push(e);
        } else {
            kept.push(e);
        }
        i = i + 1;
    }
    assert(evs.subrange(0, i as int) == evs);
    let ghost krows = key_names(store.key_stats@);
    let ghost kcounts = store.key_stats@.map_values(|k: KeyStat| k.count as nat);
    let ghost arows = app_names(store.app_stats@);
    let ghost acounts = store.app_stats@.map_values(|a: AppStat| a.key_count as nat);
    let mut keys: Vec<KeyStat> = Vec::new();
    let mut j: usize = 0;
    while j < store.key_stats.len()
        invariant
            evs == store.events@,
            krows == key_names(store.key_stats@),
            kcounts == store.key_stats@.map_values(|k: KeyStat| k.count as nat),
            counts_match(evs, Field::Key, krows, kcounts),
            kept@ == events_outside(evs, start, end),
            removed@ == events_between(evs, start, end),
            j <= krows.len(),
            key_names(keys@) == surviving(kept@, Field::Key, krows.subrange(0, j as int)),
            forall|t: int| 0 <= t < keys@.len() ==> #[trigger] keys@[t].count == occ(kept@, Field::Key, keys@[t].key_code@),
        decreases krows.len() - j,
    {
        proof {
            assert(krows.subrange(0, j + 1).drop_last() == krows.subrange(0, j as int));
        }
        let gone = count_named(&removed, Field::Key, &store.key_stats[j].key_code);
        let have = store.key_stats[j].count;
        proof {
            assert(kcounts[j as int] == have);
            lemma_occ_split(evs, start, end, Field::Key, krows[j as int]);
        }
        if have > gone {
            let ghost before = keys@;
            keys.push(KeyStat { key_code: store.key_stats[j].key_code.clone(), count: have - gone });
            proof {
                assert(key_names(keys@) == key_names(before).push(krows[j as int]));
            }
        }
        j = j + 1;
    }
    assert(krows.subrange(0, j as int) == krows);
    let mut apps: Vec<AppStat> = Vec::new();
    let mut j: usize = 0;
    while j < store.app_stats.len()
        invariant
            evs == store.events@,
            arows == app_names(store.app_stats@),
            acounts == store.app_stats@.map_values(|a: AppStat| a.key_count as nat),
            counts_match(evs, Field::App, arows, acounts),
            kept@ == events_outside(evs, start, end),
            removed@ == events_between(evs, start, end),
            j <= arows.len(),
            app_names(apps@) == surviving(kept@, Field::App, arows.subrange(0, j as int)),
            forall|t: int| 0 <= t < apps@.len() ==> #[trigger] apps@[t].key_count == occ(kept@, Field::App, apps@[t].app_name@),
        decreases arows.len() - j,
    {
        proof {
            assert(arows.subrange(0, j + 1).drop_last() == arows.subrange(0, j as int));
        }
        let gone = count_named(&removed, Field::App, &store.app_stats[j].app_name);
        let have = store.app_stats[j].key_count;
        proof {
            assert(acounts[j as int] == have);
            lemma_occ_split(evs, start, end, Field::App, arows[j as int]);
        }
        if have > gone {
            let ghost before = apps@;
            apps.push(
                AppStat {
                    app_name: store.app_stats[j].app_name.clone(),
                    key_count: have - gone,
                    last_used: store.app_stats[j].last_used,
                },
            );
            proof {
                assert(app_names(apps@) == app_names(before).push(arows[j as int]));
            }
        }
        j = j + 1;
    }
    assert(arows.subrange(0, j as int) == arows);
    let n = removed.len();
    proof {
        lemma_counts_after_delete(evs, start, end, Field::Key, krows, kcounts);
        lemma_counts_after_delete(evs, start, end, Field::App, arows, acounts);
        let kk = kept@;
        let r2 = surviving(kk, Field::Key, krows);
        let mk = keys@.map_values(|k: KeyStat| k.count as nat);
        let rk = r2.map_values(|x: Seq<char>| occ(kk, Field::Key, x));
        assert(key_names(keys@) == r2);
        assert forall|t: int| 0 <= t < keys@.len() implies #[trigger] mk[t] == rk[t] by {
            assert(key_names(keys@)[t] == keys@[t].key_code@);
        }
        assert(mk == rk);
        let a2 = surviving(kk, Field::App, arows);
        let ma = apps@.map_values(|a: AppStat| a.key_count as nat);
        let ra = a2.map_values(|x: Seq<char>| occ(kk, Field::App, x));
        assert(app_names(apps@) == a2);
        assert forall|t: int| 0 <= t < apps@.len() implies #[trigger] ma[t] == ra[t] by {
            assert(app_names(apps@)[t] == apps@[t].app_name@);
        }
        assert(ma == ra);
        assert forall|t: int| 0 <= t < kk.len() implies (#[trigger] kk[t]).timestamp.wf() by {
            lemma_outside_from(evs, start, end, t);
        }
        lemma_between_len(evs, start, end);
    }
    store.events = kept;
    store.key_stats = keys;
    store.app_stats = apps;
    n
}

/// Empties the log and both counter tables.
pub fn clear_all_data(store: &mut EventStore)
    ensures
        final(store).wf(),
        final(store).events().len() == 0,
        final(store).key_stats().len() == 0,
        final(store).app_stats().len() == 0,
{
    store.events = Vec::new();
    store.key_stats = Vec::new();
    store.app_stats = Vec::new();
}

/// Timestamps are non-increasing along `evs`: newest first.
pub open spec fn newest_first_order(evs: Seq<KeyboardEventRecord>) -> bool {
    forall|i: int, j: int| 0 <= i <= j < evs.len() ==> evs[i].timestamp.epoch_secs >= evs[j].timestamp.epoch_secs
}

/// Relies on `slice::sort_by_key`, with the key `Reverse` of the timestamp:
/// the same events, ordered by timestamp from newest to oldest.
#[verifier::external_body]
fn sort_newest_first(v: &mut Vec<KeyboardEventRecord>)
    ensures
        final(v)@.to_multiset() == old(v)@.to_multiset(),
        newest_first_order(final(v)@),
{
    v.sort_by_key(|e| std::cmp::Reverse(e.timestamp.epoch_secs))
}

/// The events of `[start, end)`, newest first.
pub fn query_events_by_time_range(store: &EventStore, start: i64, end: i64) -> (r: Vec<KeyboardEventRecord>)
    ensures
        r@.to_multiset() == events_between(store.events(), start, end).to_multiset(),
        newest_first_order(r@),
{
    let mut v = events_in_window(store, start, end);
    sort_newest_first(&mut v);
    v
}

/// The events of `[start, end)`, in storage order.
pub fn events_in_window(store: &EventStore, start: i64, end: i64) -> (r: Vec<KeyboardEventRecord>)
    ensures
        r@ == events_between(store.events(), start, end),
{
    let mut out: Vec<KeyboardEventRecord> = Vec::new();
    let mut i: usize = 0;
    while i < store.events.len()
        invariant
            i <= store.events@.len(),
            out@ == events_between(store.events@.subrange(0, i as int), start, end),
        decreases store.events@.len() - i,
    {
        proof {
            assert(store.events@.subrange(0, i + 1).drop_last() == store.events@.subrange(0, i as int));
        }
        if start <= store.events[i].timestamp.epoch_secs && store.events[i].timestamp.epoch_secs < end {
            out.push(copy_record(&store.events[i]));
        }
        i = i + 1;
    }
    assert(store.events@.subrange(0, i as int) == store.events@);
    out
}

} // verus!

verus! {

/// In a well-formed store the per-key counts and the per-application counts
/// each add up to the number of events. Every operation of the store keeps
/// it well formed, so this holds after any sequence of them.
pub proof fn lemma_counters_total(store: EventStore)
    requires
        store.wf(),
    ensures
        sum_nat(store.key_stats().map_values(|k: KeyStat| k.count as nat)) == store.events().len(),
        sum_nat(store.app_stats().map_values(|a: AppStat| a.key_count as nat)) == store.events().len(),
{
    lemma_counts_total(
        store.events(),
        Field::Key,
        key_names(store.key_stats()),
        store.key_stats().map_values(|k: KeyStat| k.count as nat),
    );
    lemma_counts_total(
        store.events(),
        Field::App,
        app_names(store.app_stats()),
        store.app_stats().map_values(|a: AppStat| a.key_count as nat),
    );
}

/// Once the events of a window are gone, the window holds none, and each
/// name's count drops by exactly the number of its events that went.
pub proof fn lemma_deleted_window_is_empty(
    evs: Seq<KeyboardEventRecord>,
    start: i64,
    end: i64,
    f: Field,
    x: Seq<char>,
)
    ensures
        events_between(events_outside(evs, start, end), start, end).len() == 0,
        occ(events_outside(evs, start, end), f, x) == occ(evs, f, x) - occ(
            events_between(evs, start, end),
            f,
            x,
        ),
{
    lemma_occ_split(evs, start, end, f, x);
    lemma_nothing_between(evs, start, end);
}

proof fn lemma_nothing_between(evs: Seq<KeyboardEventRecord>, start: i64, end: i64)
    ensures
        events_between(events_outside(evs, start, end), start, end).len() == 0,
    decreases evs.len(),
{
    if evs.len() > 0 {
        lemma_nothing_between(evs.drop_last(), start, end);
        let o = events_outside(evs.drop_last(), start, end);
        if !in_window(evs.last(), start, end) {
            assert(o.push(evs.last()).drop_last() == o);
        }
    }
}

} // verus!
