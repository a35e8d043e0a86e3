//! Counting events by name, and the facts about counts that the store's
//! counters rest on.
use vstd::prelude::*;
use crate::store::{AppStat, KeyStat, KeyboardEventRecord};

verus! {

/// Which name of an event a count is about.
pub enum Field {
    Key,
    App,
}

pub open spec fn name_of(e: KeyboardEventRecord, f: Field) -> Seq<char> {
    match f {
        Field::Key => e.key_code@,
        Field::App => e.app_name@,
    }
}

/// How many events carry the name `x`.
pub open spec fn occ(evs: Seq<KeyboardEventRecord>, f: Field, x: Seq<char>) -> nat
    decreases evs.len(),
{
    if evs.len() == 0 {
        0
    } else {
        occ(evs.drop_last(), f, x) + if name_of(evs.last(), f) == x { 1nat } else { 0nat }
    }
}

pub open spec fn in_window(e: KeyboardEventRecord, start: i64, end: i64) -> bool {
    start <= e.timestamp.epoch_secs < end
}

/// The events of `[start, end)`, in storage order.
pub open spec fn events_between(evs: Seq<KeyboardEventRecord>, start: i64, end: i64) -> Seq<
    KeyboardEventRecord,
>
    decreases evs.len(),
{
    if evs.len() == 0 {
        evs
    } else if in_window(evs.last(), start, end) {
        events_between(evs.drop_last(), start, end).push(evs.last())
    } else {
        events_between(evs.drop_last(), start, end)
    }
}

/// The events outside `[start, end)`, in storage order.
pub open spec fn events_outside(evs: Seq<KeyboardEventRecord>, start: i64, end: i64) -> Seq<
    KeyboardEventRecord,
>
    decreases evs.len(),
{
    if evs.len() == 0 {
        evs
    } else if in_window(evs.last(), start, end) {
        events_outside(evs.drop_last(), start, end)
    } else {
        events_outside(evs.drop_last(), start, end).push(evs.last())
    }
}

pub open spec fn sum_nat(s: Seq<nat>) -> nat
    decreases s.len(),
{
    if s.len() == 0 {
        0
    } else {
        sum_nat(s.drop_last()) + s.last()
    }
}

/// The occurrence counts of all the names in `rows`, added up.
pub open spec fn occ_sum(evs: Seq<KeyboardEventRecord>, f: Field, rows: Seq<Seq<char>>) -> nat
    decreases rows.len(),
{
    if rows.len() == 0 {
        0
    } else {
        occ_sum(evs, f, rows.drop_last()) + occ(evs, f, rows.last())
    }
}

/// How many rows equal `x`.
pub open spec fn hits(rows: Seq<Seq<char>>, x: Seq<char>) -> nat
    decreases rows.len(),
{
    if rows.len() == 0 {
        0
    } else {
        hits(rows.drop_last(), x) + if rows.last() == x { 1nat } else { 0nat }
    }
}

pub(crate) proof fn lemma_hits_one(rows: Seq<Seq<char>>, x: Seq<char>)
    requires
        rows.no_duplicates(),
        rows.contains(x),
    ensures
        hits(rows, x) == 1,
    decreases rows.len(),
{
    let d = rows.drop_last();
    assert(d.no_duplicates()) by {
        assert forall|i: int, j: int| 0 <= i < d.len() && 0 <= j < d.len() && i != j implies d[i] != d[j] by {
            assert(rows[i] == d[i] && rows[j] == d[j]);
        }
    }
    let i = choose|i: int| 0 <= i < rows.len() && rows[i] == x;
    if rows.last() == x {
        assert(!d.contains(x)) by {
            if d.contains(x) {
                let j = choose|j: int| 0 <= j < d.len() && d[j] == x;
                assert(rows[j] == rows[rows.len() - 1]);
            }
        }
        lemma_hits_zero(d, x);
    } else {
        assert(d[i] == x);
        lemma_hits_one(d, x);
    }
}

pub(crate) proof fn lemma_hits_zero(rows: Seq<Seq<char>>, x: Seq<char>)
    requires
        !rows.contains(x),
    ensures
        hits(rows, x) == 0,
    decreases rows.len(),
{
    if rows.len() > 0 {
        let d = rows.drop_last();
        assert(!d.contains(x)) by {
            if d.contains(x) {
                let j = choose|j: int| 0 <= j < d.len() && d[j] == x;
                assert(rows[j] == x);
            }
        }
        assert(rows[rows.len() - 1] == rows.last());
        lemma_hits_zero(d, x);
    }
}

pub(crate) proof fn lemma_occ_sum_step(evs: Seq<KeyboardEventRecord>, f: Field, rows: Seq<Seq<char>>)
    requires
        evs.len() > 0,
    ensures
        occ_sum(evs, f, rows) == occ_sum(evs.drop_last(), f, rows) + hits(rows, name_of(evs.last(), f)),
    decreases rows.len(),
{
    if rows.len() > 0 {
        lemma_occ_sum_step(evs, f, rows.drop_last());
    }
}

pub(crate) proof fn lemma_occ_sum_len(evs: Seq<KeyboardEventRecord>, f: Field, rows: Seq<Seq<char>>)
    requires
        rows.no_duplicates(),
        forall|j: int| 0 <= j < evs.len() ==> rows.contains(#[trigger] name_of(evs[j], f)),
    ensures
        occ_sum(evs, f, rows) == evs.len(),
    decreases evs.len(),
{
    if evs.len() == 0 {
        lemma_occ_sum_empty(evs, f, rows);
    } else {
        let d = evs.drop_last();
        assert forall|j: int| 0 <= j < d.len() implies rows.contains(#[trigger] name_of(d[j], f)) by {
            assert(d[j] == evs[j]);
        }
        lemma_occ_sum_len(d, f, rows);
        lemma_occ_sum_step(evs, f, rows);
        assert(rows.contains(name_of(evs[evs.len() - 1], f)));
        lemma_hits_one(rows, name_of(evs.last(), f));
    }
}

pub(crate) proof fn lemma_occ_sum_empty(evs: Seq<KeyboardEventRecord>, f: Field, rows: Seq<Seq<char>>)
    requires
        evs.len() == 0,
    ensures
        occ_sum(evs, f, rows) == 0,
    decreases rows.len(),
{
    if rows.len() > 0 {
        lemma_occ_sum_empty(evs, f, rows.drop_last());
    }
}

pub(crate) proof fn lemma_sum_counts(evs: Seq<KeyboardEventRecord>, f: Field, rows: Seq<Seq<char>>, counts: Seq<nat>)
    requires
        rows.len() == counts.len(),
        forall|i: int| 0 <= i < rows.len() ==> #[trigger] counts[i] == occ(evs, f, rows[i]),
    ensures
        sum_nat(counts) == occ_sum(evs, f, rows),
    decreases rows.len(),
{
    if rows.len() > 0 {
        let dr = rows.drop_last();
        let dc = counts.drop_last();
        assert forall|i: int| 0 <= i < dr.len() implies #[trigger] dc[i] == occ(evs, f, dr[i]) by {
            assert(dc[i] == counts[i] && dr[i] == rows[i]);
        }
        lemma_sum_counts(evs, f, dr, dc);
        assert(counts[counts.len() - 1] == occ(evs, f, rows[rows.len() - 1]));
    }
}

/// Counter rows that match the log add up to the number of events.
pub proof fn lemma_counts_total(
    evs: Seq<KeyboardEventRecord>,
    f: Field,
    rows: Seq<Seq<char>>,
    counts: Seq<nat>,
)
    requires
        counts_match(evs, f, rows, counts),
    ensures
        sum_nat(counts) == evs.len(),
{
    lemma_sum_counts(evs, f, rows, counts);
    lemma_occ_sum_len(evs, f, rows);
}

pub open spec fn key_names(s: Seq<KeyStat>) -> Seq<Seq<char>> {
    s.map_values(|k: KeyStat| k.key_code@)
}

pub open spec fn app_names(s: Seq<AppStat>) -> Seq<Seq<char>> {
    s.map_values(|a: AppStat| a.app_name@)
}

/// The counter rows `rows` match the events `evs` exactly: one row per name
/// that occurs, none for a name that does not, each with its count.
pub open spec fn counts_match(
    evs: Seq<KeyboardEventRecord>,
    f: Field,
    rows: Seq<Seq<char>>,
    counts: Seq<nat>,
) -> bool {
    &&& rows.len() == counts.len()
    &&& rows.no_duplicates()
    &&& forall|i: int| 0 <= i < rows.len() ==> #[trigger] counts[i] == occ(evs, f, rows[i])
    &&& forall|i: int| 0 <= i < rows.len() ==> #[trigger] counts[i] > 0
    &&& forall|j: int| 0 <= j < evs.len() ==> rows.contains(#[trigger] name_of(evs[j], f))
}


pub(crate) proof fn lemma_occ_le_len(evs: Seq<KeyboardEventRecord>, f: Field, x: Seq<char>)
    ensures
        occ(evs, f, x) <= evs.len(),
    decreases evs.len(),
{
    if evs.len() > 0 {
        lemma_occ_le_len(evs.drop_last(), f, x);
    }
}

pub(crate) proof fn lemma_occ_zero(evs: Seq<KeyboardEventRecord>, f: Field, x: Seq<char>)
    requires
        forall|j: int| 0 <= j < evs.len() ==> name_of(#[trigger] evs[j], f) != x,
    ensures
        occ(evs, f, x) == 0,
    decreases evs.len(),
{
    if evs.len() > 0 {
        let d = evs.drop_last();
        assert forall|j: int| 0 <= j < d.len() implies name_of(#[trigger] d[j], f) != x by {
            assert(d[j] == evs[j]);
        }
        assert(evs[evs.len() - 1] == evs.last());
        lemma_occ_zero(d, f, x);
    }
}

pub(crate) proof fn lemma_counts_push_existing(
    evs: Seq<KeyboardEventRecord>,
    e: KeyboardEventRecord,
    f: Field,
    rows: Seq<Seq<char>>,
    counts: Seq<nat>,
    i: int,
)
    requires
        counts_match(evs, f, rows, counts),
        0 <= i < rows.len(),
        rows[i] == name_of(e, f),
    ensures
        counts_match(evs.push(e), f, rows, counts.update(i, counts[i] + 1)),
{
    let n = evs.push(e);
    assert(n.drop_last() == evs);
    let c = counts.update(i, counts[i] + 1);
    assert forall|k: int| 0 <= k < rows.len() implies #[trigger] c[k] == occ(n, f, rows[k]) by {
        if k != i {
            assert(rows[k] != rows[i]);
        }
    }
    assert forall|j: int| 0 <= j < n.len() implies rows.contains(#[trigger] name_of(n[j], f)) by {
        if j < evs.len() {
            assert(n[j] == evs[j]);
        } else {
            assert(rows[i] == name_of(n[j], f));
        }
    }
}

pub(crate) proof fn lemma_counts_push_new(
    evs: Seq<KeyboardEventRecord>,
    e: KeyboardEventRecord,
    f: Field,
    rows: Seq<Seq<char>>,
    counts: Seq<nat>,
)
    requires
        counts_match(evs, f, rows, counts),
        !rows.contains(name_of(e, f)),
    ensures
        counts_match(evs.push(e), f, rows.push(name_of(e, f)), counts.push(1)),
{
    let n = evs.push(e);
    let x = name_of(e, f);
    assert(n.drop_last() == evs);
    assert forall|j: int| 0 <= j < evs.len() implies name_of(#[trigger] evs[j], f) != x by {
        assert(rows.contains(name_of(evs[j], f)));
    }
    lemma_occ_zero(evs, f, x);
    let r2 = rows.push(x);
    let c2 = counts.push(1);
    assert forall|k: int| 0 <= k < r2.len() implies #[trigger] c2[k] == occ(n, f, r2[k]) by {
        if k < rows.len() {
            assert(r2[k] == rows[k]);
            assert(rows.contains(rows[k]));
        }
    }
    assert forall|a: int, b: int| 0 <= a < r2.len() && 0 <= b < r2.len() && a != b implies r2[a] != r2[b] by {
        if a == rows.len() {
            assert(rows.contains(r2[b]));
        } else if b == rows.len() {
            assert(rows.contains(r2[a]));
        }
    }
    assert forall|j: int| 0 <= j < n.len() implies r2.contains(#[trigger] name_of(n[j], f)) by {
        if j < evs.len() {
            assert(n[j] == evs[j]);
            let k = choose|k: int| 0 <= k < rows.len() && rows[k] == name_of(evs[j], f);
            assert(r2[k] == rows[k]);
        } else {
            assert(r2[rows.len() as int] == x);
        }
    }
}

/// The rows whose names still occur among `evs`, in order.
pub open spec fn surviving(evs: Seq<KeyboardEventRecord>, f: Field, rows: Seq<Seq<char>>) -> Seq<Seq<char>>
    decreases rows.len(),
{
    if rows.len() == 0 {
        rows
    } else if occ(evs, f, rows.last()) > 0 {
        surviving(evs, f, rows.drop_last()).push(rows.last())
    } else {
        surviving(evs, f, rows.drop_last())
    }
}

pub(crate) proof fn lemma_surviving(evs: Seq<KeyboardEventRecord>, f: Field, rows: Seq<Seq<char>>, x: Seq<char>)
    ensures
        surviving(evs, f, rows).contains(x) <==> (rows.contains(x) && occ(evs, f, x) > 0),
        rows.no_duplicates() ==> surviving(evs, f, rows).no_duplicates(),
    decreases rows.len(),
{
    if rows.len() > 0 {
        let d = rows.drop_last();
        let w = surviving(evs, f, d);
        let l = rows.last();
        lemma_surviving(evs, f, d, x);
        lemma_surviving(evs, f, d, l);
        assert(rows == d.push(l));
        if rows.contains(x) && occ(evs, f, x) > 0 {
            let i = choose|i: int| 0 <= i < rows.len() && rows[i] == x;
            if i < d.len() {
                assert(d[i] == x);
                let j = choose|j: int| 0 <= j < w.len() && w[j] == x;
                if occ(evs, f, l) > 0 {
                    assert(w.push(l)[j] == x);
                }
            } else {
                assert(w.push(l)[w.len() as int] == x);
            }
        }
        if surviving(evs, f, rows).contains(x) {
            if occ(evs, f, l) > 0 {
                let v = w.push(l);
                let j = choose|j: int| 0 <= j < v.len() && v[j] == x;
                if j < w.len() {
                    assert(w[j] == x);
                    assert(w.contains(x));
                    let i = choose|i: int| 0 <= i < d.len() && d[i] == x;
                    assert(rows[i] == x);
                } else {
                    assert(rows[rows.len() - 1] == x);
                }
            } else {
                assert(w.contains(x));
                let i = choose|i: int| 0 <= i < d.len() && d[i] == x;
                assert(rows[i] == x);
            }
        }
        if rows.no_duplicates() {
            assert(d.no_duplicates()) by {
                assert forall|i: int, j: int| 0 <= i < d.len() && 0 <= j < d.len() && i != j implies d[i] != d[j] by {
                    assert(rows[i] == d[i] && rows[j] == d[j]);
                }
            }
            lemma_surviving(evs, f, d, l);
            if occ(evs, f, l) > 0 {
                assert(!d.contains(l)) by {
                    if d.contains(l) {
                        let i = choose|i: int| 0 <= i < d.len() && d[i] == l;
                        assert(rows[i] == rows[rows.len() - 1]);
                    }
                }
                let v = w.push(l);
                assert forall|a: int, b: int| 0 <= a < v.len() && 0 <= b < v.len() && a != b implies v[a] != v[b] by {
                    if a == w.len() {
                        assert(w.contains(v[b]));
                    } else if b == w.len() {
                        assert(w.contains(v[a]));
                    }
                }
            }
        }
    }
}

pub(crate) proof fn lemma_occ_pos(evs: Seq<KeyboardEventRecord>, f: Field, j: int)
    requires
        0 <= j < evs.len(),
    ensures
        occ(evs, f, name_of(evs[j], f)) > 0,
    decreases evs.len(),
{
    if j < evs.len() - 1 {
        assert(evs.drop_last()[j] == evs[j]);
        lemma_occ_pos(evs.drop_last(), f, j);
    }
}

/// Splitting the log at a window splits every count.
pub(crate) proof fn lemma_occ_split(evs: Seq<KeyboardEventRecord>, start: i64, end: i64, f: Field, x: Seq<char>)
    ensures
        occ(evs, f, x) == occ(events_outside(evs, start, end), f, x) + occ(
            events_between(evs, start, end),
            f,
            x,
        ),
    decreases evs.len(),
{
    if evs.len() > 0 {
        lemma_occ_split(evs.drop_last(), start, end, f, x);
        let o = events_outside(evs.drop_last(), start, end);
        let b = events_between(evs.drop_last(), start, end);
        assert(o.push(evs.last()).drop_last() == o);
        assert(b.push(evs.last()).drop_last() == b);
    }
}

pub(crate) proof fn lemma_outside_from(evs: Seq<KeyboardEventRecord>, start: i64, end: i64, t: int)
    requires
        0 <= t < events_outside(evs, start, end).len(),
    ensures
        exists|j: int| 0 <= j < evs.len() && evs[j] == #[trigger] events_outside(evs, start, end)[t],
        !in_window(events_outside(evs, start, end)[t], start, end),
    decreases evs.len(),
{
    let d = evs.drop_last();
    let o = events_outside(d, start, end);
    if in_window(evs.last(), start, end) || t < o.len() {
        lemma_outside_from(d, start, end, t);
        let j = choose|j: int| 0 <= j < d.len() && d[j] == o[t];
        assert(evs[j] == d[j]);
        if !in_window(evs.last(), start, end) {
            assert(o.push(evs.last())[t] == o[t]);
        }
    } else {
        assert(evs[evs.len() - 1] == events_outside(evs, start, end)[t]);
    }
}

pub(crate) proof fn lemma_between_len(evs: Seq<KeyboardEventRecord>, start: i64, end: i64)
    ensures
        events_between(evs, start, end).len() + events_outside(evs, start, end).len() == evs.len(),
    decreases evs.len(),
{
    if evs.len() > 0 {
        lemma_between_len(evs.drop_last(), start, end);
    }
}

/// After the events of a window go, the rows that still have events match
/// the remaining log.
pub(crate) proof fn lemma_counts_after_delete(
    evs: Seq<KeyboardEventRecord>,
    start: i64,
    end: i64,
    f: Field,
    rows: Seq<Seq<char>>,
    counts: Seq<nat>,
)
    requires
        counts_match(evs, f, rows, counts),
    ensures
        ({
            let kept = events_outside(evs, start, end);
            let r2 = surviving(kept, f, rows);
            counts_match(kept, f, r2, r2.map_values(|x: Seq<char>| occ(kept, f, x)))
        }),
{
    let kept = events_outside(evs, start, end);
    let r2 = surviving(kept, f, rows);
    let c2 = r2.map_values(|x: Seq<char>| occ(kept, f, x));
    lemma_surviving(kept, f, rows, Seq::empty());
    assert forall|i: int| 0 <= i < r2.len() implies #[trigger] c2[i] > 0 by {
        assert(r2.contains(r2[i]));
        lemma_surviving(kept, f, rows, r2[i]);
    }
    assert forall|j: int| 0 <= j < kept.len() implies r2.contains(#[trigger] name_of(kept[j], f)) by {
        lemma_outside_from(evs, start, end, j);
        let k = choose|k: int| 0 <= k < evs.len() && evs[k] == kept[j];
        assert(rows.contains(name_of(evs[k], f)));
        lemma_occ_pos(kept, f, j);
        lemma_surviving(kept, f, rows, name_of(kept[j], f));
    }
}

} // verus!
