//! The chord capture state machine: turns press and release signals into
//! deduplicated, modifier-aware key or chord names.
use vstd::prelude::*;
use vstd::string::*;
use indexmap::IndexSet;
use crate::keys::{is_modifier, is_modifier_name, key_name, key_to_string};

verus! {

#[verifier::external_type_specification]
#[verifier::external_body]
#[verifier::reject_recursive_types(T)]
#[verifier::reject_recursive_types(S)]
pub struct ExIndexSet<T, S>(IndexSet<T, S>);

/// The names held by an insertion-ordered set, in insertion order.
pub uninterp spec fn held_names(s: IndexSet<String>) -> Seq<Seq<char>>;

/// Relies on `IndexSet::new`: a new set is empty.
#[verifier::external_body]
fn set_new() -> (r: IndexSet<String>)
    ensures
        held_names(r) == Seq::<Seq<char>>::empty(),
{
    IndexSet::new()
}

/// Relies on `IndexSet::contains`: whether an equal item is in the set.
#[verifier::external_body]
fn set_contains(s: &IndexSet<String>, k: &String) -> (r: bool)
    ensures
        r == held_names(*s).contains(k@),
{
    s.contains(k)
}

/// Relies on `IndexSet::insert`: an absent item goes last and `true` comes
/// back; a present one leaves the set and its order as they were.
#[verifier::external_body]
fn set_insert(s: &mut IndexSet<String>, k: String) -> (r: bool)
    ensures
        r == !held_names(*old(s)).contains(k@),
        r ==> held_names(*final(s)) == held_names(*old(s)).push(k@),
        !r ==> held_names(*final(s)) == held_names(*old(s)),
{
    s.insert(k)
}

/// Relies on `IndexSet::shift_remove`: the item equal to `k`, if any, goes,
/// and the others keep their relative order.
#[verifier::external_body]
fn set_shift_remove(s: &mut IndexSet<String>, k: &String) -> (r: bool)
    ensures
        r == held_names(*old(s)).contains(k@),
        held_names(*final(s)) == without(held_names(*old(s)), k@),
{
    s.shift_remove(k)
}

/// Relies on `IndexSet::clear`: the set becomes empty.
#[verifier::external_body]
fn set_clear(s: &mut IndexSet<String>)
    ensures
        held_names(*final(s)) == Seq::<Seq<char>>::empty(),
{
    s.clear()
}

/// Relies on `IndexSet::iter`: the items, in their order.
#[verifier::external_body]
fn set_items(s: &IndexSet<String>) -> (r: Vec<String>)
    ensures
        r@.len() == held_names(*s).len(),
        forall|i: int| 0 <= i < r@.len() ==> #[trigger] r@[i]@ == held_names(*s)[i],
{
    s.iter().cloned().collect()
}

/// `s` with every occurrence of `k` taken out, the rest in order.
pub open spec fn without(s: Seq<Seq<char>>, k: Seq<char>) -> Seq<Seq<char>>
    decreases s.len(),
{
    if s.len() == 0 {
        s
    } else if s.last() == k {
        without(s.drop_last(), k)
    } else {
        without(s.drop_last(), k).push(s.last())
    }
}

/// The names joined with `+`, in order.
pub open spec fn join_plus(s: Seq<Seq<char>>) -> Seq<char>
    decreases s.len(),
{
    if s.len() == 0 {
        Seq::empty()
    } else if s.len() == 1 {
        s[0]
    } else {
        join_plus(s.drop_last()) + "+"@ + s.last()
    }
}

pub open spec fn holds_modifier(s: Seq<Seq<char>>) -> bool {
    exists|i: int| 0 <= i < s.len() && is_modifier_name(#[trigger] s[i])
}

/// The held set after a press of `k`, and the chord that the press emits.
pub open spec fn press_step(held: Seq<Seq<char>>, k: Seq<char>) -> (Seq<Seq<char>>, Option<Seq<char>>) {
    if held.contains(k) {
        (held, None)
    } else {
        let next = if holds_modifier(held) { held.push(k) } else { seq![k] };
        (next, Some(join_plus(next)))
    }
}

pub proof fn lemma_without_absent(s: Seq<Seq<char>>, k: Seq<char>)
    requires
        !s.contains(k),
    ensures
        without(s, k) == s,
    decreases s.len(),
{
    if s.len() > 0 {
        assert(!s.drop_last().contains(k)) by {
            if s.drop_last().contains(k) {
                let i = choose|i: int| 0 <= i < s.drop_last().len() && s.drop_last()[i] == k;
                assert(s[i] == k);
            }
        }
        lemma_without_absent(s.drop_last(), k);
        assert(s.last() != k) by {
            assert(s[s.len() - 1] == s.last());
        }
        assert(s.drop_last().push(s.last()) == s);
    }
}

proof fn lemma_without_contains(s: Seq<Seq<char>>, k: Seq<char>, x: Seq<char>)
    ensures
        without(s, k).contains(x) <==> (s.contains(x) && x != k),
    decreases s.len(),
{
    if s.len() > 0 {
        let d = s.drop_last();
        let w = without(d, k);
        lemma_without_contains(d, k, x);
        assert(s == d.push(s.last()));
        if s.contains(x) && x != k {
            let i = choose|i: int| 0 <= i < s.len() && s[i] == x;
            if i < s.len() - 1 {
                assert(d[i] == x);
                assert(d.contains(x));
                let j = choose|j: int| 0 <= j < w.len() && w[j] == x;
                if s.last() != k {
                    assert(w.push(s.last())[j] == x);
                }
            } else {
                assert(w.push(s.last())[w.len() as int] == x);
            }
        }
        if without(s, k).contains(x) {
            if s.last() == k {
                assert(w.contains(x));
                let i = choose|i: int| 0 <= i < d.len() && d[i] == x;
                assert(s[i] == x);
            } else {
                let v = w.push(s.last());
                let j = choose|j: int| 0 <= j < v.len() && v[j] == x;
                if j < w.len() {
                    assert(w[j] == x);
                    assert(w.contains(x));
                    let i = choose|i: int| 0 <= i < d.len() && d[i] == x;
                    assert(s[i] == x);
                } else {
                    assert(s[s.len() - 1] == x);
                }
            }
        }
    }
}

proof fn lemma_without_no_duplicates(s: Seq<Seq<char>>, k: Seq<char>)
    requires
        s.no_duplicates(),
    ensures
        without(s, k).no_duplicates(),
    decreases s.len(),
{
    if s.len() > 0 {
        let d = s.drop_last();
        assert(d.no_duplicates()) by {
            assert forall|i: int, j: int| 0 <= i < d.len() && 0 <= j < d.len() && i != j implies d[i]
                != d[j] by {
                assert(s[i] == d[i] && s[j] == d[j]);
            }
        }
        lemma_without_no_duplicates(d, k);
        if s.last() != k {
            lemma_without_contains(d, k, s.last());
            assert(!d.contains(s.last())) by {
                if d.contains(s.last()) {
                    let i = choose|i: int| 0 <= i < d.len() && d[i] == s.last();
                    assert(s[i] == s[s.len() - 1]);
                }
            }
            let w = without(d, k);
            assert forall|i: int, j: int|
                0 <= i < w.push(s.last()).len() && 0 <= j < w.push(s.last()).len() && i != j implies w.push(
                s.last(),
            )[i] != w.push(s.last())[j] by {
                if i == w.len() {
                    assert(w.contains(w[j]));
                } else if j == w.len() {
                    assert(w.contains(w[i]));
                }
            }
        }
    }
}

fn join_names(items: &Vec<String>) -> (r: String)
    ensures
        r@ == join_plus(items@.map_values(|x: String| x@)),
{
    let ghost names = items@.map_values(|x: String| x@);
    let mut out = String::new();
    let mut i: usize = 0;
    while i < items.len()
        invariant
            names == items@.map_values(|x: String| x@),
            i <= items@.len(),
            out@ == join_plus(names.subrange(0, i as int)),
        decreases items@.len() - i,
    {
        let ghost before = names.subrange(0, i as int);
        assert(names.subrange(0, i + 1).drop_last() == before);
        if i > 0 {
            out.append("+");
        }
        out.append(items[i].as_str());
        proof {
            reveal_strlit("+");
            if i == 0 {
                assert(out@ == names.subrange(0, 1)[0]);
            }
        }
        i = i + 1;
    }
    assert(names.subrange(0, i as int) == names);
    out
}

/// The capture context: whether recording is enabled, whether a listener has
/// been registered, and the set of keys currently held.
pub struct KeyboardMonitor {
    enabled: bool,
    running: bool,
    pressed: IndexSet<String>,
}

impl KeyboardMonitor {
    /// The held keys, in press order.
    pub closed spec fn held(&self) -> Seq<Seq<char>> {
        held_names(self.pressed)
    }

    pub closed spec fn spec_enabled(&self) -> bool {
        self.enabled
    }

    pub closed spec fn spec_running(&self) -> bool {
        self.running
    }

    /// A held key appears once.
    pub open spec fn wf(&self) -> bool {
        self.held().no_duplicates()
    }

    /// A monitor that is enabled, has no listener yet and holds no key.
    pub fn new() -> (r: Self)
        ensures
            r.wf(),
            r.held() == Seq::<Seq<char>>::empty(),
            r.spec_enabled(),
            !r.spec_running(),
    {
        KeyboardMonitor { enabled: true, running: false, pressed: set_new() }
    }

    pub fn is_running(&self) -> (r: bool)
        ensures
            r == self.spec_running(),
    {
        self.running
    }

    pub fn is_enabled(&self) -> (r: bool)
        ensures
            r == self.spec_enabled(),
    {
        self.enabled
    }

    /// Starts recording. Returns `true` when the caller must register a
    /// listener; when one is running already, recording is only resumed.
    pub fn start(&mut self) -> (r: bool)
        ensures
            r == !old(self).spec_running(),
            final(self).spec_running(),
            final(self).spec_enabled(),
            final(self).held() == old(self).held(),
    {
        let fresh = !self.running;
        self.running = true;
        self.enabled = true;
        fresh
    }

    /// Records that registering the listener failed: nothing runs until the
    /// next start.
    pub fn listener_failed(&mut self)
        ensures
            !final(self).spec_running(),
            final(self).spec_enabled() == old(self).spec_enabled(),
            final(self).held() == old(self).held(),
    {
        self.running = false;
    }

    /// Pauses recording: later signals are ignored; the listener stays.
    pub fn stop(&mut self)
        ensures
            !final(self).spec_enabled(),
            final(self).spec_running() == old(self).spec_running(),
            final(self).held() == old(self).held(),
    {
        self.enabled = false;
    }

    /// Resumes recording.
    pub fn resume(&mut self)
        ensures
            final(self).spec_enabled(),
            final(self).spec_running() == old(self).spec_running(),
            final(self).held() == old(self).held(),
    {
        self.enabled = true;
    }

    /// The held keys, in press order.
    pub fn held_keys(&self) -> (r: Vec<String>)
        ensures
            r@.map_values(|x: String| x@) == self.held(),
    {
        let r = set_items(&self.pressed);
        assert(r@.map_values(|x: String| x@) == self.held());
        r
    }

    /// A press of the key with symbolic name `key`. A key already held (an
    /// automatic repeat) changes nothing and emits nothing. Otherwise the key
    /// joins the held set; when no modifier was held it starts a new chord
    /// alone. The chord emitted is the held set joined with `+`.
    pub fn press(&mut self, key: String) -> (r: Option<String>)
        requires
            old(self).wf(),
        ensures
            final(self).wf(),
            final(self).spec_enabled() == old(self).spec_enabled(),
            final(self).spec_running() == old(self).spec_running(),
            !old(self).spec_enabled() ==> final(self).held() == old(self).held() && r is None,
            old(self).spec_enabled() ==> final(self).held() == press_step(old(self).held(), key@).0,
            old(self).spec_enabled() ==> (r is Some <==> press_step(old(self).held(), key@).1 is Some),
            old(self).spec_enabled() && r is Some ==> r->0@ == press_step(old(self).held(), key@).1->0,
    {
        if !self.enabled {
            return None;
        }
        if set_contains(&self.pressed, &key) {
            return None;
        }
        let held = set_items(&self.pressed);
        let mut has_modifier = false;
        let mut i: usize = 0;
        while i < held.len()
            invariant
                i <= held@.len(),
                held@.len() == self.held().len(),
                forall|j: int| 0 <= j < held@.len() ==> #[trigger] held@[j]@ == self.held()[j],
                has_modifier == exists|j: int| 0 <= j < i && is_modifier_name(#[trigger] self.held()[j]),
            decreases held@.len() - i,
        {
            if is_modifier(held[i].as_str()) {
                has_modifier = true;
            }
            i = i + 1;
        }
        let ghost before = self.held();
        let key2 = key.clone();
        let key3 = key.clone();
        assert(key2@ == key@ && key3@ == key@);
        set_insert(&mut self.pressed, key2);
        if !has_modifier {
            set_clear(&mut self.pressed);
            set_insert(&mut self.pressed, key3);
            assert(self.held() == seq![key@]);
        }
        proof {
            if has_modifier {
                assert forall|a: int, b: int| 0 <= a < self.held().len() && 0 <= b < self.held().len() && a != b
                    implies self.held()[a] != self.held()[b] by {
                    if a == before.len() {
                        assert(before.contains(before[b]));
                    } else if b == before.len() {
                        assert(before.contains(before[a]));
                    }
                }
            }
        }
        let items = set_items(&self.pressed);
        assert(items@.map_values(|x: String| x@) == self.held());
        Some(join_names(&items))
    }

    /// A release of the key with symbolic name `key`: it leaves the held set;
    /// a key not held changes nothing.
    pub fn release(&mut self, key: &String)
        requires
            old(self).wf(),
        ensures
            final(self).wf(),
            final(self).spec_enabled() == old(self).spec_enabled(),
            final(self).spec_running() == old(self).spec_running(),
            !old(self).spec_enabled() ==> final(self).held() == old(self).held(),
            old(self).spec_enabled() ==> final(self).held() == without(old(self).held(), key@),
            !old(self).held().contains(key@) ==> final(self).held() == old(self).held(),
    {
        if !self.enabled {
            return;
        }
        proof {
            lemma_without_no_duplicates(self.held(), key@);
            if !self.held().contains(key@) {
                lemma_without_absent(self.held(), key@);
            }
        }
        set_shift_remove(&mut self.pressed, key);
    }

    /// A press signal for the raw key identifier `raw`.
    pub fn on_key_press(&mut self, raw: &str) -> (r: Option<String>)
        requires
            old(self).wf(),
        ensures
            final(self).wf(),
            final(self).spec_enabled() == old(self).spec_enabled(),
            final(self).spec_running() == old(self).spec_running(),
            !old(self).spec_enabled() ==> final(self).held() == old(self).held() && r is None,
            old(self).spec_enabled() ==> final(self).held() == press_step(old(self).held(), key_name(raw@)).0,
            old(self).spec_enabled() ==> (r is Some <==> press_step(old(self).held(), key_name(raw@)).1 is Some),
            old(self).spec_enabled() && r is Some ==> r->0@ == press_step(old(self).held(), key_name(raw@)).1->0,
    {
        let key = key_to_string(raw);
        self.press(key)
    }

    /// A release signal for the raw key identifier `raw`.
    pub fn on_key_release(&mut self, raw: &str)
        requires
            old(self).wf(),
        ensures
            final(self).wf(),
            final(self).spec_enabled() == old(self).spec_enabled(),
            final(self).spec_running() == old(self).spec_running(),
            !old(self).spec_enabled() ==> final(self).held() == old(self).held(),
            old(self).spec_enabled() ==> final(self).held() == without(old(self).held(), key_name(raw@)),
    {
        let key = key_to_string(raw);
        self.release(&key)
    }
}

} // verus!
