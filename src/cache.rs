//! A map from beatmap id to value that holds at most a fixed number of
//! entries and, when full, drops the entries that were inserted first.

use vstd::prelude::*;

verus! {

/// No id occurs twice.
pub open spec fn keys_unique<V>(s: Seq<(i32, V)>) -> bool {
    forall|i: int, j: int|
        0 <= i < s.len() && 0 <= j < s.len() && i != j ==> #[trigger] s[i].0 != #[trigger] s[j].0
}

pub open spec fn has_key<V>(s: Seq<(i32, V)>, id: i32) -> bool {
    exists|i: int| 0 <= i < s.len() && #[trigger] s[i].0 == id
}

pub open spec fn key_position<V>(s: Seq<(i32, V)>, id: i32) -> int {
    choose|i: int| 0 <= i < s.len() && #[trigger] s[i].0 == id
}

/// The value stored under `id`.
pub open spec fn lookup<V>(s: Seq<(i32, V)>, id: i32) -> Option<V> {
    if has_key(s, id) {
        Some(s[key_position(s, id)].1)
    } else {
        None
    }
}

/// `s` without the entry for `id`.
pub open spec fn without_key<V>(s: Seq<(i32, V)>, id: i32) -> Seq<(i32, V)> {
    if has_key(s, id) {
        s.remove(key_position(s, id))
    } else {
        s
    }
}

/// The last `bound` entries of `s`.
pub open spec fn keep_newest<V>(s: Seq<(i32, V)>, bound: nat) -> Seq<(i32, V)> {
    if s.len() > bound {
        s.subrange(s.len() - bound, s.len() as int)
    } else {
        s
    }
}

/// The entries after storing `v` under `id`: the id becomes the newest entry,
/// and the oldest entries beyond `bound` are dropped.
pub open spec fn after_insert<V>(s: Seq<(i32, V)>, id: i32, v: V, bound: nat) -> Seq<(i32, V)> {
    keep_newest(without_key(s, id).push((id, v)), bound)
}

/// The entries after storing each of `items` in turn.
pub open spec fn insert_all<V>(s: Seq<(i32, V)>, items: Seq<(i32, V)>, bound: nat) -> Seq<
    (i32, V),
>
    decreases items.len(),
{
    if items.len() == 0 {
        s
    } else {
        let last = items.last();
        after_insert(insert_all(s, items.drop_last(), bound), last.0, last.1, bound)
    }
}

/// The bounded map. Entries are kept oldest first.
pub struct BeatmapCache<V> {
    entries: Vec<(i32, V)>,
    bound: usize,
}

impl<V> View for BeatmapCache<V> {
    type V = Seq<(i32, V)>;

    closed spec fn view(&self) -> Seq<(i32, V)> {
        self.entries@
    }
}

proof fn lemma_unique_position<V>(s: Seq<(i32, V)>, id: i32, i: int)
    requires
        keys_unique(s),
        0 <= i < s.len(),
        s[i].0 == id,
    ensures
        has_key(s, id),
        key_position(s, id) == i,
        lookup(s, id) == Some(s[i].1),
{
    assert(has_key(s, id));
}

proof fn lemma_unique_subrange<V>(s: Seq<(i32, V)>, a: int, b: int)
    requires
        keys_unique(s),
        0 <= a <= b <= s.len(),
    ensures
        keys_unique(s.subrange(a, b)),
{
    let t = s.subrange(a, b);
    assert forall|i: int, j: int|
        0 <= i < t.len() && 0 <= j < t.len() && i != j implies #[trigger] t[i].0
        != #[trigger] t[j].0 by {
        assert(t[i] == s[a + i]);
        assert(t[j] == s[a + j]);
    }
}

proof fn lemma_without_key<V>(s: Seq<(i32, V)>, id: i32)
    requires
        keys_unique(s),
    ensures
        keys_unique(without_key(s, id)),
        !has_key(without_key(s, id), id),
{
    if has_key(s, id) {
        let p = key_position(s, id);
        let t = s.remove(p);
        assert(s[p].0 == id);
        assert forall|i: int, j: int|
            0 <= i < t.len() && 0 <= j < t.len() && i != j implies #[trigger] t[i].0
            != #[trigger] t[j].0 by {
            let si = if i < p {
                i
            } else {
                i + 1
            };
            let sj = if j < p {
                j
            } else {
                j + 1
            };
            assert(t[i] == s[si]);
            assert(t[j] == s[sj]);
        }
        if has_key(t, id) {
            let q = choose|q: int| 0 <= q < t.len() && #[trigger] t[q].0 == id;
            let m = if q < p {
                q
            } else {
                q + 1
            };
            assert(t[q] == s[m]);
        }
    }
}

proof fn lemma_after_insert_unique<V>(s: Seq<(i32, V)>, id: i32, v: V, bound: nat)
    requires
        keys_unique(s),
    ensures
        keys_unique(after_insert(s, id, v, bound)),
        after_insert(s, id, v, bound).len() <= bound,
{
    lemma_without_key(s, id);
    let w = without_key(s, id);
    let t = w.push((id, v));
    assert forall|i: int, j: int|
        0 <= i < t.len() && 0 <= j < t.len() && i != j implies #[trigger] t[i].0
        != #[trigger] t[j].0 by {
        if i < w.len() && j < w.len() {
            assert(t[i] == w[i] && t[j] == w[j]);
        } else if i < w.len() {
            assert(t[i] == w[i]);
        } else {
            assert(t[j] == w[j]);
        }
    }
    if t.len() > bound {
        lemma_unique_subrange(t, t.len() - bound, t.len() as int);
    }
}


impl<V> BeatmapCache<V> {
    /// The largest number of entries kept.
    pub closed spec fn bound(&self) -> nat {
        self.bound as nat
    }

    /// Ids are unique and the bound is respected.
    pub open spec fn wf(&self) -> bool {
        keys_unique(self@) && self@.len() <= self.bound()
    }

    /// An empty cache that keeps at most `bound` entries.
    pub fn new(bound: usize) -> (r: Self)
        ensures
            r.wf(),
            r@ == Seq::<(i32, V)>::empty(),
            r.bound() == bound,
    {
        BeatmapCache { entries: Vec::new(), bound }
    }

    pub fn len(&self) -> (r: usize)
        ensures
            r == self@.len(),
    {
        self.entries.len()
    }

    fn position(&self, id: i32) -> (r: Option<usize>)
        requires
            self.wf(),
        ensures
            match r {
                Some(i) => i < self@.len() && self@[i as int].0 == id && key_position(self@, id)
                    == i,
                None => !has_key(self@, id),
            },
    {
        let mut i: usize = 0;
        while i < self.entries.len()
            invariant
                self.wf(),
                i <= self.entries@.len(),
                forall|k: int| 0 <= k < i ==> #[trigger] self.entries@[k].0 != id,
            decreases self.entries@.len() - i,
        {
            if self.entries[i].0 == id {
                proof {
                    lemma_unique_position(self@, id, i as int);
                }
                return Some(i);
            }
            i = i + 1;
        }
        None
    }

    /// The value stored under `id`.
    pub fn get(&self, id: i32) -> (r: Option<&V>)
        requires
            self.wf(),
        ensures
            match r {
                Some(v) => lookup(self@, id) == Some(*v),
                None => lookup(self@, id) is None,
            },
    {
        match self.position(id) {
            Some(i) => Some(&self.entries[i].1),
            None => None,
        }
    }

    /// Stores `value` under `id` as the newest entry, replacing an earlier
    /// value for `id`, then drops the oldest entries beyond the bound.
    pub fn insert(&mut self, id: i32, value: V)
        requires
            old(self).wf(),
        ensures
            final(self).wf(),
            final(self).bound() == old(self).bound(),
            final(self)@ == after_insert(old(self)@, id, value, old(self).bound()),
    {
        proof {
            lemma_without_key(self@, id);
            lemma_after_insert_unique(self@, id, value, self.bound());
        }
        match self.position(id) {
            Some(i) => {
                self.entries.remove(i);
            },
            None => {},
        }
        assert(self.entries@ == without_key(old(self)@, id));
        self.entries.push((id, value));
        let ghost t = self.entries@;
        assert(t == without_key(old(self)@, id).push((id, value)));
        while self.entries.len() > self.bound
            invariant
                self.bound == old(self).bound,
                self.entries@ == t.subrange(t.len() - self.entries@.len(), t.len() as int),
                self.entries@.len() <= t.len(),
                self.entries@.len() >= self.bound || self.entries@.len() == t.len(),
            decreases self.entries@.len(),
        {
            self.entries.remove(0);
            assert(self.entries@ =~= t.subrange(t.len() - self.entries@.len(), t.len() as int));
        }
        proof {
            if t.len() <= self.bound {
                assert(self.entries@ =~= t);
            }
        }
    }
}

/// Inserting ids that are all distinct into an empty cache leaves the last
/// `bound` of them (all of them when there are fewer), in insertion order.
pub proof fn lemma_keeps_newest<V>(items: Seq<(i32, V)>, bound: nat)
    requires
        keys_unique(items),
    ensures
        insert_all(Seq::<(i32, V)>::empty(), items, bound) == keep_newest(items, bound),
    decreases items.len(),
{
    if items.len() > 0 {
        let p = items.drop_last();
        let x = items.last();
        lemma_unique_subrange(items, 0, items.len() - 1);
        assert(p =~= items.subrange(0, items.len() - 1));
        lemma_keeps_newest(p, bound);
        let r = keep_newest(p, bound);
        assert(!has_key(r, x.0)) by {
            if has_key(r, x.0) {
                let q = choose|q: int| 0 <= q < r.len() && #[trigger] r[q].0 == x.0;
                let m = if p.len() > bound {
                    q + p.len() - bound
                } else {
                    q
                };
                assert(r[q] == p[m]);
                assert(items[m] == p[m]);
                assert(items[items.len() - 1] == x);
            }
        }
        assert(without_key(r, x.0) == r);
        assert(insert_all(Seq::<(i32, V)>::empty(), items, bound) == keep_newest(r.push(x), bound));
        if p.len() <= bound {
            assert(r.push(x) =~= items);
        } else {
            assert(keep_newest(r.push(x), bound) =~= keep_newest(items, bound));
        }
    }
}

/// Right after `id` is stored, looking it up finds the stored value, as long
/// as the cache keeps at least one entry.
pub proof fn lemma_lookup_after_insert<V>(s: Seq<(i32, V)>, id: i32, v: V, bound: nat)
    requires
        keys_unique(s),
        bound > 0,
    ensures
        lookup(after_insert(s, id, v, bound), id) == Some(v),
{
    lemma_after_insert_unique(s, id, v, bound);
    let t = without_key(s, id).push((id, v));
    let r = after_insert(s, id, v, bound);
    assert(r[r.len() - 1] == t[t.len() - 1]);
    lemma_unique_position(r, id, r.len() - 1);
}

} // verus!
