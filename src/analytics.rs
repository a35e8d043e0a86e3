//! The analytics engine: counts, rates, rankings, breakdowns and heatmaps
//! over the events of a window. Nothing here changes the store.
use vstd::prelude::*;
use crate::keys::{categorize_key, category_of, KeyCategory};
use crate::window::TimeRange;
use crate::health::Ratio;
use crate::text::{contains_seq, contains_str};
use crate::counts::{
    counts_match, events_between, lemma_counts_push_existing, lemma_counts_push_new,
    lemma_occ_le_len, name_of, occ, Field,
};
use crate::store::{get_key_count_by_time_range, EventStore, KeyboardEventRecord};

verus! {

/// A name with its count.
#[derive(Clone, Debug)]
pub struct NameCount {
    pub name: String,
    pub count: u64,
}

impl View for NameCount {
    type V = (Seq<char>, nat);

    open spec fn view(&self) -> (Seq<char>, nat) {
        (self.name@, self.count as nat)
    }
}

pub open spec fn views(s: Seq<NameCount>) -> Seq<(Seq<char>, nat)> {
    s.map_values(|g: NameCount| g@)
}

/// The distinct names of `evs` in the order they first occur.
pub open spec fn first_seen(evs: Seq<KeyboardEventRecord>, f: Field) -> Seq<Seq<char>>
    decreases evs.len(),
{
    if evs.len() == 0 {
        Seq::empty()
    } else {
        let d = first_seen(evs.drop_last(), f);
        if d.contains(name_of(evs.last(), f)) {
            d
        } else {
            d.push(name_of(evs.last(), f))
        }
    }
}

/// Each distinct name of `evs` with its count, in order of first occurrence.
pub open spec fn groups_of(evs: Seq<KeyboardEventRecord>, f: Field) -> Seq<(Seq<char>, nat)> {
    first_seen(evs, f).map_values(|x: Seq<char>| (x, occ(evs, f, x)))
}

/// Counts are non-increasing along `s`.
pub open spec fn sorted_desc(s: Seq<(Seq<char>, nat)>) -> bool {
    forall|i: int, j: int| 0 <= i <= j < s.len() ==> s[i].1 >= s[j].1
}

/// `x` placed after every entry whose count is at least its own.
pub open spec fn insert_desc(s: Seq<(Seq<char>, nat)>, x: (Seq<char>, nat)) -> Seq<(Seq<char>, nat)>
    decreases s.len(),
{
    if s.len() == 0 {
        seq![x]
    } else if s.last().1 >= x.1 {
        s.push(x)
    } else {
        insert_desc(s.drop_last(), x).push(s.last())
    }
}

/// The stable ranking of `s` by descending count: entries with equal counts
/// keep their order.
pub open spec fn ranked(s: Seq<(Seq<char>, nat)>) -> Seq<(Seq<char>, nat)>
    decreases s.len(),
{
    if s.len() == 0 {
        s
    } else {
        insert_desc(ranked(s.drop_last()), s.last())
    }
}

/// The first `n` entries of the ranking (all of them when fewer).
pub open spec fn top_n(s: Seq<(Seq<char>, nat)>, n: nat) -> Seq<(Seq<char>, nat)> {
    let r = ranked(s);
    if n < r.len() {
        r.take(n as int)
    } else {
        r
    }
}

proof fn lemma_insert_desc(s: Seq<(Seq<char>, nat)>, x: (Seq<char>, nat), p: int)
    requires
        sorted_desc(s),
        0 <= p <= s.len(),
        forall|i: int| 0 <= i < p ==> s[i].1 >= x.1,
        p < s.len() ==> s[p].1 < x.1,
    ensures
        insert_desc(s, x) == s.insert(p, x),
        sorted_desc(s.insert(p, x)),
    decreases s.len(),
{
    let t = s.insert(p, x);
    assert forall|i: int, j: int| 0 <= i <= j < t.len() implies t[i].1 >= t[j].1 by {
        if i < p && j < p {
        } else if i < p && j == p {
        } else if i < p {
            assert(t[j] == s[j - 1]);
        } else if i == p && j > p {
            assert(t[j] == s[j - 1]);
            assert(s[p].1 >= s[j - 1].1);
        } else if i > p {
            assert(t[i] == s[i - 1] && t[j] == s[j - 1]);
        }
    }
    if s.len() > 0 {
        if s.last().1 >= x.1 {
            if p < s.len() {
                assert(s[p].1 >= s[s.len() - 1].1);
            }
            assert(s.insert(p, x) == s.push(x));
        } else {
            let d = s.drop_last();
            if p == s.len() {
                assert(s[s.len() - 1].1 >= x.1);
            }
            assert(sorted_desc(d));
            lemma_insert_desc(d, x, p);
            assert(d.insert(p, x).push(s.last()) == s.insert(p, x));
        }
    }
}

/// Stable ranking of `groups` by descending count.
pub fn rank_desc(groups: &Vec<NameCount>) -> (r: Vec<NameCount>)
    ensures
        views(r@) == ranked(views(groups@)),
        sorted_desc(views(r@)),
{
    let ghost g = views(groups@);
    let mut out: Vec<NameCount> = Vec::new();
    let mut i: usize = 0;
    while i < groups.len()
        invariant
            g == views(groups@),
            i <= groups@.len(),
            views(out@) == ranked(g.subrange(0, i as int)),
            sorted_desc(views(out@)),
        decreases groups@.len() - i,
    {
        let x = NameCount { name: groups[i].name.clone(), count: groups[i].count };
        let mut p: usize = 0;
        while p < out.len() && out[p].count >= x.count
            invariant
                p <= out@.len(),
                forall|k: int| 0 <= k < p ==> out@[k].count >= x.count,
            decreases out@.len() - p,
        {
            p = p + 1;
        }
        proof {
            let v = views(out@);
            assert(g.subrange(0, i + 1).drop_last() == g.subrange(0, i as int));
            assert(g.subrange(0, i + 1).last() == x@);
            assert forall|k: int| 0 <= k < p implies v[k].1 >= x@.1 by {
                assert(v[k] == out@[k]@);
            }
            if p < out@.len() {
                assert(v[p as int] == out@[p as int]@);
            }
            lemma_insert_desc(v, x@, p as int);
        }
        let ghost before = out@;
        out.insert(p, x);
        assert(views(out@) == views(before).insert(p as int, x@));
        i = i + 1;
    }
    assert(g.subrange(0, i as int) == g);
    out
}

/// The first `n` entries of a ranking.
pub fn take_first(s: Vec<NameCount>, n: usize) -> (r: Vec<NameCount>)
    ensures
        n < s@.len() ==> r@ == s@.take(n as int),
        n >= s@.len() ==> r@ == s@,
{
    let mut s = s;
    if n < s.len() {
        s.truncate(n);
    }
    s
}

/// Each distinct name of `evs` with its count, in order of first occurrence.
pub fn group_counts(evs: &Vec<KeyboardEventRecord>, f: Field) -> (r: Vec<NameCount>)
    ensures
        views(r@) == groups_of(evs@, f),
{
    let mut names: Vec<NameCount> = Vec::new();
    let mut i: usize = 0;
    while i < evs.len()
        invariant
            i <= evs@.len(),
            names@.map_values(|g: NameCount| g.name@) == first_seen(evs@.subrange(0, i as int), f),
            counts_match(
                evs@.subrange(0, i as int),
                f,
                names@.map_values(|g: NameCount| g.name@),
                names@.map_values(|g: NameCount| g.count as nat),
            ),
        decreases evs@.len() - i,
    {
        let ghost pre = evs@.subrange(0, i as int);
        let ghost rows = names@.map_values(|g: NameCount| g.name@);
        let ghost counts = names@.map_values(|g: NameCount| g.count as nat);
        let e = &evs[i];
        proof {
            assert(evs@.subrange(0, i + 1) == pre.push(*e));
            assert(pre.push(*e).drop_last() == pre);
        }
        let name = match f {
            Field::Key => &e.key_code,
            Field::App => &e.app_name,
        };
        assert(name@ == name_of(*e, f));
        let mut j: usize = 0;
        while j < names.len() && names[j].name != *name
            invariant
                j <= names@.len(),
                forall|k: int| 0 <= k < j ==> names@[k].name@ != name@,
            decreases names@.len() - j,
        {
            j = j + 1;
        }
        if j < names.len() {
            let c = names[j].count;
            proof {
                assert(counts[j as int] == c);
                assert(rows[j as int] == name@);
                lemma_occ_le_len(pre, f, name@);
                lemma_counts_push_existing(pre, *e, f, rows, counts, j as int);
            }
            let g = NameCount { name: names[j].name.clone(), count: c + 1 };
            names.set(j, g);
            proof {
                assert(rows.contains(name@));
                assert(names@.map_values(|g: NameCount| g.name@) == rows);
                assert(names@.map_values(|g: NameCount| g.count as nat) == counts.update(j as int, counts[j as int] + 1));
            }
        } else {
            proof {
                assert(!rows.contains(name@)) by {
                    if rows.contains(name@) {
                        let k = choose|k: int| 0 <= k < rows.len() && rows[k] == name@;
                        assert(names@[k].name@ == name@);
                    }
                }
                lemma_counts_push_new(pre, *e, f, rows, counts);
            }
            names.push(NameCount { name: name.clone(), count: 1 });
            proof {
                assert(names@.map_values(|g: NameCount| g.name@) == rows.push(name@));
                assert(names@.map_values(|g: NameCount| g.count as nat) == counts.push(1));
            }
        }
        i = i + 1;
    }
    proof {
        let pre = evs@.subrange(0, i as int);
        assert(pre == evs@);
        let rows = names@.map_values(|g: NameCount| g.name@);
        let counts = names@.map_values(|g: NameCount| g.count as nat);
        assert forall|k: int| 0 <= k < names@.len() implies #[trigger] views(names@)[k] == groups_of(evs@, f)[k] by {
            assert(rows[k] == names@[k].name@);
            assert(counts[k] == names@[k].count);
        }
        assert(views(names@) == groups_of(evs@, f));
    }
    names
}

} // verus!

verus! {

/// Events of `evs` in the category `c`.
pub open spec fn cat_count(evs: Seq<KeyboardEventRecord>, c: KeyCategory) -> nat
    decreases evs.len(),
{
    if evs.len() == 0 {
        0
    } else {
        cat_count(evs.drop_last(), c) + if category_of(evs.last().key_code@) == c { 1nat } else { 0nat }
    }
}

/// Events of `evs` in local hour `h`.
pub open spec fn hour_count(evs: Seq<KeyboardEventRecord>, h: int) -> nat
    decreases evs.len(),
{
    if evs.len() == 0 {
        0
    } else {
        hour_count(evs.drop_last(), h) + if evs.last().timestamp.hour == h { 1nat } else { 0nat }
    }
}

/// Events of application `app` in local hour `h`.
pub open spec fn app_hour_count(evs: Seq<KeyboardEventRecord>, app: Seq<char>, h: int) -> nat
    decreases evs.len(),
{
    if evs.len() == 0 {
        0
    } else {
        app_hour_count(evs.drop_last(), app, h) + if evs.last().app_name@ == app
            && evs.last().timestamp.hour == h {
            1nat
        } else {
            0nat
        }
    }
}

pub open spec fn all_wf(evs: Seq<KeyboardEventRecord>) -> bool {
    forall|j: int| 0 <= j < evs.len() ==> (#[trigger] evs[j]).timestamp.wf()
}

/// The position of a category in a breakdown.
pub open spec fn category_slot(c: KeyCategory) -> int {
    match c {
        KeyCategory::Letter => 0,
        KeyCategory::Digit => 1,
        KeyCategory::Symbol => 2,
        KeyCategory::Modifier => 3,
        KeyCategory::Function => 4,
        KeyCategory::Navigation => 5,
        KeyCategory::Editing => 6,
        KeyCategory::Other => 7,
    }
}

/// The position of a category in a breakdown.
pub fn category_index(c: KeyCategory) -> (r: usize)
    ensures
        r == category_slot(c),
        r < 8,
{
    match c {
        KeyCategory::Letter => 0,
        KeyCategory::Digit => 1,
        KeyCategory::Symbol => 2,
        KeyCategory::Modifier => 3,
        KeyCategory::Function => 4,
        KeyCategory::Navigation => 5,
        KeyCategory::Editing => 6,
        KeyCategory::Other => 7,
    }
}

/// The counts of all eight categories, added up.
pub open spec fn cat_total(evs: Seq<KeyboardEventRecord>) -> nat {
    cat_count(evs, KeyCategory::Letter) + cat_count(evs, KeyCategory::Digit) + cat_count(evs, KeyCategory::Symbol)
        + cat_count(evs, KeyCategory::Modifier) + cat_count(evs, KeyCategory::Function) + cat_count(
        evs,
        KeyCategory::Navigation,
    ) + cat_count(evs, KeyCategory::Editing) + cat_count(evs, KeyCategory::Other)
}

/// Every event falls in exactly one category, so the category counts add up
/// to the number of events.
pub proof fn lemma_categories_cover(evs: Seq<KeyboardEventRecord>)
    ensures
        cat_total(evs) == evs.len(),
    decreases evs.len(),
{
    if evs.len() > 0 {
        lemma_categories_cover(evs.drop_last());
    }
}

/// How many events of `evs` fall in each category, at `category_index`.
pub fn category_breakdown(evs: &Vec<KeyboardEventRecord>) -> (r: Vec<u64>)
    ensures
        r@.len() == 8,
        forall|c: KeyCategory| #[trigger] r@[category_slot(c)] == cat_count(evs@, c),
        r@[0] + r@[1] + r@[2] + r@[3] + r@[4] + r@[5] + r@[6] + r@[7] == evs@.len(),
{
    proof {
        lemma_categories_cover(evs@);
    }
    let mut out: Vec<u64> = vec![0, 0, 0, 0, 0, 0, 0, 0];
    let mut i: usize = 0;
    while i < evs.len()
        invariant
            i <= evs@.len(),
            out@.len() == 8,
            forall|c: KeyCategory| #[trigger] out@[category_slot(c)] == cat_count(evs@.subrange(0, i as int), c),
            forall|c: KeyCategory| #[trigger] cat_count(evs@.subrange(0, i as int), c) <= i,
        decreases evs@.len() - i,
    {
        let ghost pre = evs@.subrange(0, i as int);
        assert(evs@.subrange(0, i + 1).drop_last() == pre);
        let c = categorize_key(evs[i].key_code.as_str());
        let k = category_index(c);
        let v = out[k];
        assert(v == cat_count(pre, c));
        out.set(k, v + 1);
        i = i + 1;
        assert forall|d: KeyCategory| #[trigger] cat_count(evs@.subrange(0, i as int), d) <= i by {
            assert(cat_count(pre, d) <= i - 1);
        }
        assert forall|d: KeyCategory| #[trigger] out@[category_slot(d)] == cat_count(evs@.subrange(0, i as int), d) by {
            if d != c {
                assert(category_slot(d) != category_slot(c));
            }
        }
    }
    assert(evs@.subrange(0, i as int) == evs@);
    assert(out@[category_slot(KeyCategory::Letter)] == cat_count(evs@, KeyCategory::Letter));
    assert(out@[category_slot(KeyCategory::Digit)] == cat_count(evs@, KeyCategory::Digit));
    assert(out@[category_slot(KeyCategory::Symbol)] == cat_count(evs@, KeyCategory::Symbol));
    assert(out@[category_slot(KeyCategory::Modifier)] == cat_count(evs@, KeyCategory::Modifier));
    assert(out@[category_slot(KeyCategory::Function)] == cat_count(evs@, KeyCategory::Function));
    assert(out@[category_slot(KeyCategory::Navigation)] == cat_count(evs@, KeyCategory::Navigation));
    assert(out@[category_slot(KeyCategory::Editing)] == cat_count(evs@, KeyCategory::Editing));
    assert(out@[category_slot(KeyCategory::Other)] == cat_count(evs@, KeyCategory::Other));
    out
}

/// How many events of `evs` fall in each local hour, at index `hour`.
pub fn hour_breakdown(evs: &Vec<KeyboardEventRecord>) -> (r: Vec<u64>)
    requires
        all_wf(evs@),
    ensures
        r@.len() == 24,
        forall|h: int| 0 <= h < 24 ==> #[trigger] r@[h] == hour_count(evs@, h),
{
    let mut out: Vec<u64> = Vec::new();
    let mut k: usize = 0;
    while k < 24
        invariant
            k <= 24,
            out@.len() == k,
            forall|h: int| 0 <= h < k ==> out@[h] == 0,
        decreases 24 - k,
    {
        out.push(0);
        k = k + 1;
    }
    let mut i: usize = 0;
    while i < evs.len()
        invariant
            all_wf(evs@),
            i <= evs@.len(),
            out@.len() == 24,
            forall|h: int| 0 <= h < 24 ==> #[trigger] out@[h] == hour_count(evs@.subrange(0, i as int), h),
            forall|h: int| #[trigger] hour_count(evs@.subrange(0, i as int), h) <= i,
        decreases evs@.len() - i,
    {
        let ghost pre = evs@.subrange(0, i as int);
        assert(evs@.subrange(0, i + 1).drop_last() == pre);
        assert(evs@[i as int].timestamp.wf());
        let h = evs[i].timestamp.hour as usize;
        let v = out[h];
        assert(v == hour_count(pre, h as int));
        out.set(h, v + 1);
        i = i + 1;
        assert forall|g: int| #[trigger] hour_count(evs@.subrange(0, i as int), g) <= i by {
            assert(hour_count(pre, g) <= i - 1);
        }
    }
    assert(evs@.subrange(0, i as int) == evs@);
    out
}

/// How many events of application `app` fall in each local hour.
pub fn app_hour_breakdown(evs: &Vec<KeyboardEventRecord>, app: &String) -> (r: Vec<u64>)
    requires
        all_wf(evs@),
    ensures
        r@.len() == 24,
        forall|h: int| 0 <= h < 24 ==> #[trigger] r@[h] == app_hour_count(evs@, app@, h),
{
    let mut out: Vec<u64> = Vec::new();
    let mut k: usize = 0;
    while k < 24
        invariant
            k <= 24,
            out@.len() == k,
            forall|h: int| 0 <= h < k ==> out@[h] == 0,
        decreases 24 - k,
    {
        out.push(0);
        k = k + 1;
    }
    let mut i: usize = 0;
    while i < evs.len()
        invariant
            all_wf(evs@),
            i <= evs@.len(),
            out@.len() == 24,
            forall|h: int| 0 <= h < 24 ==> #[trigger] out@[h] == app_hour_count(evs@.subrange(0, i as int), app@, h),
            forall|h: int| #[trigger] app_hour_count(evs@.subrange(0, i as int), app@, h) <= i,
        decreases evs@.len() - i,
    {
        let ghost pre = evs@.subrange(0, i as int);
        assert(evs@.subrange(0, i + 1).drop_last() == pre);
        assert(evs@[i as int].timestamp.wf());
        if evs[i].app_name == *app {
            let h = evs[i].timestamp.hour as usize;
            let v = out[h];
            assert(v == app_hour_count(pre, app@, h as int));
            out.set(h, v + 1);
        }
        i = i + 1;
        assert forall|g: int| #[trigger] app_hour_count(evs@.subrange(0, i as int), app@, g) <= i by {
            assert(app_hour_count(pre, app@, g) <= i - 1);
        }
    }
    assert(evs@.subrange(0, i as int) == evs@);
    out
}

} // verus!

verus! {

/// A non-empty heatmap bucket: a row (0 for today, the weekday for a week or
/// all time, the day of month for a month), an hour and its count.
#[derive(Clone, Copy, Debug, PartialEq, Eq, Structural)]
pub struct HeatCell {
    pub row: u8,
    pub hour: u8,
    pub count: u64,
}

/// A sparse heatmap, tagged with the range whose grid shape it has.
#[derive(Clone, Debug)]
pub struct Heatmap {
    pub kind: TimeRange,
    pub cells: Vec<HeatCell>,
}

pub open spec fn heat_row(e: KeyboardEventRecord, range: TimeRange) -> int {
    match range {
        TimeRange::Today => 0,
        TimeRange::Week => e.timestamp.weekday as int,
        TimeRange::All => e.timestamp.weekday as int,
        TimeRange::Month => e.timestamp.day as int,
    }
}

/// The number of rows of a range's grid.
pub open spec fn heat_rows(range: TimeRange) -> int {
    match range {
        TimeRange::Today => 1,
        TimeRange::Week => 7,
        TimeRange::All => 7,
        TimeRange::Month => 32,
    }
}

/// Events of `evs` in the bucket `(row, h)` of the range's grid.
pub open spec fn cell_count(evs: Seq<KeyboardEventRecord>, range: TimeRange, row: int, h: int) -> nat
    decreases evs.len(),
{
    if evs.len() == 0 {
        0
    } else {
        cell_count(evs.drop_last(), range, row, h) + if heat_row(evs.last(), range) == row
            && evs.last().timestamp.hour == h {
            1nat
        } else {
            0nat
        }
    }
}

pub open spec fn heat_slot(c: HeatCell) -> int {
    c.row * 24 + c.hour
}

/// `cells` lists exactly the non-empty buckets of `evs`, in row-major order.
pub open spec fn heatmap_of(evs: Seq<KeyboardEventRecord>, range: TimeRange, cells: Seq<HeatCell>) -> bool {
    &&& forall|i: int|
        0 <= i < cells.len() ==> (#[trigger] cells[i]).row < heat_rows(range) && cells[i].hour < 24
            && cells[i].count == cell_count(evs, range, cells[i].row as int, cells[i].hour as int)
            && cells[i].count > 0
    &&& forall|i: int, j: int| 0 <= i < j < cells.len() ==> heat_slot(cells[i]) < heat_slot(cells[j])
    &&& forall|row: int, h: int|
        0 <= row < heat_rows(range) && 0 <= h < 24 && #[trigger] cell_count(evs, range, row, h) > 0
            ==> exists|i: int| 0 <= i < cells.len() && cells[i].row == row && cells[i].hour == h
}

proof fn lemma_cell_count_bounds(evs: Seq<KeyboardEventRecord>, range: TimeRange, row: int, h: int)
    requires
        all_wf(evs),
    ensures
        cell_count(evs, range, row, h) <= evs.len(),
        (row < 0 || row >= heat_rows(range) || h < 0 || h >= 24) ==> cell_count(evs, range, row, h) == 0,
    decreases evs.len(),
{
    if evs.len() > 0 {
        let d = evs.drop_last();
        assert(all_wf(d)) by {
            assert forall|j: int| 0 <= j < d.len() implies (#[trigger] d[j]).timestamp.wf() by {
                assert(d[j] == evs[j]);
            }
        }
        assert(evs[evs.len() - 1].timestamp.wf());
        lemma_cell_count_bounds(d, range, row, h);
    }
}

/// The sparse heatmap of `evs` on the grid of `range`.
pub fn heatmap(evs: &Vec<KeyboardEventRecord>, range: TimeRange) -> (r: Heatmap)
    requires
        all_wf(evs@),
    ensures
        r.kind == range,
        heatmap_of(evs@, range, r.cells@),
{
    let rows: usize = match range {
        TimeRange::Today => 1,
        TimeRange::Week => 7,
        TimeRange::All => 7,
        TimeRange::Month => 32,
    };
    let size = rows * 24;
    let mut grid: Vec<u64> = Vec::new();
    let mut k: usize = 0;
    while k < size
        invariant
            k <= size,
            grid@.len() == k,
            forall|x: int| 0 <= x < k ==> grid@[x] == 0,
        decreases size - k,
    {
        grid.push(0);
        k = k + 1;
    }
    let mut i: usize = 0;
    while i < evs.len()
        invariant
            all_wf(evs@),
            rows == heat_rows(range),
            size == rows * 24,
            i <= evs@.len(),
            grid@.len() == size,
            forall|row: int, h: int|
                0 <= row < rows && 0 <= h < 24 ==> #[trigger] grid@[row * 24 + h] == cell_count(
                    evs@.subrange(0, i as int),
                    range,
                    row,
                    h,
                ),
        decreases evs@.len() - i,
    {
        let ghost pre = evs@.subrange(0, i as int);
        assert(evs@.subrange(0, i + 1).drop_last() == pre);
        assert(evs@[i as int].timestamp.wf());
        let e = &evs[i];
        let row: usize = match range {
            TimeRange::Today => 0,
            TimeRange::Week => e.timestamp.weekday as usize,
            TimeRange::All => e.timestamp.weekday as usize,
            TimeRange::Month => e.timestamp.day as usize,
        };
        let h = e.timestamp.hour as usize;
        let slot = row * 24 + h;
        let v = grid[slot];
        proof {
            lemma_cell_count_bounds(pre, range, row as int, h as int);
        }
        grid.set(slot, v + 1);
        i = i + 1;
        assert forall|r2: int, h2: int| 0 <= r2 < rows && 0 <= h2 < 24 implies #[trigger] grid@[r2 * 24 + h2]
            == cell_count(evs@.subrange(0, i as int), range, r2, h2) by {
            if r2 != row || h2 != h {
                assert(r2 * 24 + h2 != slot);
            }
        }
    }
    assert(evs@.subrange(0, i as int) == evs@);
    let mut cells: Vec<HeatCell> = Vec::new();
    let mut row: usize = 0;
    while row < rows
        invariant
            all_wf(evs@),
            rows == heat_rows(range),
            size == rows * 24,
            row <= rows,
            grid@.len() == size,
            forall|r2: int, h2: int|
                0 <= r2 < rows && 0 <= h2 < 24 ==> #[trigger] grid@[r2 * 24 + h2] == cell_count(evs@, range, r2, h2),
            forall|x: int|
                0 <= x < cells@.len() ==> (#[trigger] cells@[x]).row < heat_rows(range) && cells@[x].hour < 24
                    && cells@[x].count == cell_count(evs@, range, cells@[x].row as int, cells@[x].hour as int)
                    && cells@[x].count > 0 && heat_slot(cells@[x]) < row * 24,
            forall|x: int, y: int| 0 <= x < y < cells@.len() ==> heat_slot(cells@[x]) < heat_slot(cells@[y]),
            forall|r2: int, h2: int|
                0 <= r2 < row && 0 <= h2 < 24 && #[trigger] cell_count(evs@, range, r2, h2) > 0 ==> exists|x: int|
                    0 <= x < cells@.len() && cells@[x].row == r2 && cells@[x].hour == h2,
        decreases rows - row,
    {
        let mut h: usize = 0;
        while h < 24
            invariant
                all_wf(evs@),
                rows == heat_rows(range),
                size == rows * 24,
                row < rows,
                h <= 24,
                grid@.len() == size,
                forall|r2: int, h2: int|
                    0 <= r2 < rows && 0 <= h2 < 24 ==> #[trigger] grid@[r2 * 24 + h2] == cell_count(evs@, range, r2, h2),
                forall|x: int|
                    0 <= x < cells@.len() ==> (#[trigger] cells@[x]).row < heat_rows(range) && cells@[x].hour < 24
                        && cells@[x].count == cell_count(evs@, range, cells@[x].row as int, cells@[x].hour as int)
                        && cells@[x].count > 0 && heat_slot(cells@[x]) < row * 24 + h,
                forall|x: int, y: int| 0 <= x < y < cells@.len() ==> heat_slot(cells@[x]) < heat_slot(cells@[y]),
                forall|r2: int, h2: int|
                    ((0 <= r2 < row && 0 <= h2 < 24) || (r2 == row && 0 <= h2 < h)) && #[trigger] cell_count(
                        evs@,
                        range,
                        r2,
                        h2,
                    ) > 0 ==> exists|x: int| 0 <= x < cells@.len() && cells@[x].row == r2 && cells@[x].hour == h2,
            decreases 24 - h,
        {
            let v = grid[row * 24 + h];
            if v > 0 {
                let ghost before = cells@;
                cells.push(HeatCell { row: row as u8, hour: h as u8, count: v });
                proof {
                    assert forall|r2: int, h2: int|
                        ((0 <= r2 < row && 0 <= h2 < 24) || (r2 == row && 0 <= h2 < h + 1)) && #[trigger] cell_count(
                            evs@,
                            range,
                            r2,
                            h2,
                        ) > 0 implies exists|x: int| 0 <= x < cells@.len() && cells@[x].row == r2 && cells@[x].hour == h2 by {
                        if r2 == row && h2 == h {
                            assert(cells@[before.len() as int].row == r2);
                        } else {
                            let x = choose|x: int| 0 <= x < before.len() && before[x].row == r2 && before[x].hour == h2;
                            assert(cells@[x] == before[x]);
                        }
                    }
                }
            }
            h = h + 1;
        }
        row = row + 1;
    }
    proof {
        assert forall|r2: int, h2: int|
            0 <= r2 < heat_rows(range) && 0 <= h2 < 24 && #[trigger] cell_count(evs@, range, r2, h2) > 0 implies exists|x: int|
                0 <= x < cells@.len() && cells@[x].row == r2 && cells@[x].hour == h2 by {
        }
    }
    Heatmap { kind: range, cells }
}

} // verus!

verus! {

/// A chord with its count.
#[derive(Clone, Debug)]
pub struct KeyCombo {
    pub combo: String,
    pub count: u64,
}

/// An application's events per local hour, index 0 to 23.
#[derive(Clone, Debug)]
pub struct AppTimeData {
    pub label: String,
    pub data: Vec<u64>,
}

/// The entries of `g` whose name is a chord (holds a `+`).
pub open spec fn combos_only(g: Seq<(Seq<char>, nat)>) -> Seq<(Seq<char>, nat)>
    decreases g.len(),
{
    if g.len() == 0 {
        g
    } else if contains_seq(g.last().0, "+"@) {
        combos_only(g.drop_last()).push(g.last())
    } else {
        combos_only(g.drop_last())
    }
}

/// The entries of `groups` whose name is a chord.
pub fn keep_combos(groups: &Vec<NameCount>) -> (r: Vec<NameCount>)
    ensures
        views(r@) == combos_only(views(groups@)),
{
    let ghost g = views(groups@);
    let mut out: Vec<NameCount> = Vec::new();
    let mut i: usize = 0;
    while i < groups.len()
        invariant
            g == views(groups@),
            i <= groups@.len(),
            views(out@) == combos_only(g.subrange(0, i as int)),
        decreases groups@.len() - i,
    {
        assert(g.subrange(0, i + 1).drop_last() == g.subrange(0, i as int));
        assert(g.subrange(0, i + 1).last() == groups@[i as int]@);
        if contains_str(groups[i].name.as_str(), "+") {
            let ghost before = out@;
            out.push(NameCount { name: groups[i].name.clone(), count: groups[i].count });
            assert(views(out@) == views(before).push(groups@[i as int]@));
        }
        i = i + 1;
    }
    assert(g.subrange(0, i as int) == g);
    out
}

/// Average keys per minute over `[start, end)` with `total` events: none
/// when the window spans less than a minute.
pub open spec fn kpm_of(total: nat, start: i64, end: i64) -> Ratio {
    let minutes = (end - start) / 60;
    if minutes <= 0 {
        Ratio { num: 0, den: 1 }
    } else {
        Ratio { num: total as u128, den: minutes as u128 }
    }
}

/// Backspaces as a percentage of all events; none without events.
pub open spec fn backspace_ratio_of(evs: Seq<KeyboardEventRecord>) -> Ratio {
    if evs.len() == 0 {
        Ratio { num: 0, den: 1 }
    } else {
        Ratio { num: (occ(evs, Field::Key, "Backspace"@) * 100) as u128, den: evs.len() as u128 }
    }
}

pub fn average_kpm(total: u64, start: i64, end: i64) -> (r: Ratio)
    ensures
        r == kpm_of(total as nat, start, end),
        r.wf(),
{
    let span: i128 = end as i128 - start as i128;
    if span < 60 {
        Ratio { num: 0, den: 1 }
    } else {
        Ratio { num: total as u128, den: (span / 60) as u128 }
    }
}

pub fn backspace_ratio(evs: &Vec<KeyboardEventRecord>) -> (r: Ratio)
    ensures
        r == backspace_ratio_of(evs@),
        r.wf(),
{
    if evs.len() == 0 {
        return Ratio { num: 0, den: 1 };
    }
    let key = "Backspace".to_owned();
    let mut c: u64 = 0;
    let mut i: usize = 0;
    while i < evs.len()
        invariant
            key@ == "Backspace"@,
            i <= evs@.len(),
            c == occ(evs@.subrange(0, i as int), Field::Key, key@),
        decreases evs@.len() - i,
    {
        proof {
            assert(evs@.subrange(0, i + 1).drop_last() == evs@.subrange(0, i as int));
            lemma_occ_le_len(evs@.subrange(0, i as int), Field::Key, key@);
        }
        if evs[i].key_code == key {
            c = c + 1;
        }
        i = i + 1;
    }
    assert(evs@.subrange(0, i as int) == evs@);
    Ratio { num: c as u128 * 100, den: evs.len() as u128 }
}

/// Average keys per minute over `[start, end)` of `store`.
pub fn calculate_average_kpm(store: &EventStore, start: i64, end: i64) -> (r: Ratio)
    ensures
        r == kpm_of(events_between(store.events(), start, end).len(), start, end),
        r.wf(),
{
    let total = get_key_count_by_time_range(store, start, end);
    average_kpm(total, start, end)
}

} // verus!
