//! Maps with string keys, kept in key order, and maps with grid slots as keys.
use vstd::prelude::*;

use crate::text::{
    comes_before, precedes, precedes_irreflexive, precedes_total, precedes_transitive, same_text,
    texts,
};

verus! {

/// Each key comes before all that follow it.
pub open spec fn ascending(keys: Seq<Seq<char>>) -> bool {
    forall|i: int, j: int| 0 <= i < j < keys.len() ==> precedes(#[trigger] keys[i], #[trigger] keys[j])
}

/// In an ascending sequence no key stands twice.
pub proof fn ascending_distinct(keys: Seq<Seq<char>>)
    requires
        ascending(keys),
    ensures
        keys.no_duplicates(),
{
    assert forall|i: int, j: int| 0 <= i < keys.len() && 0 <= j < keys.len() && i != j implies keys[i]
        != keys[j] by {
        precedes_irreflexive(keys[i]);
        if i < j {
            assert(precedes(keys[i], keys[j]));
        } else {
            assert(precedes(keys[j], keys[i]));
        }
    }
}

/// Two ascending sequences with the same members are the same.
pub proof fn ascending_unique(a: Seq<Seq<char>>, b: Seq<Seq<char>>)
    requires
        ascending(a),
        ascending(b),
        forall|k: Seq<char>| a.contains(k) <==> b.contains(k),
    ensures
        a == b,
    decreases a.len(),
{
    if a.len() == 0 {
        if b.len() > 0 {
            assert(b.contains(b[0]));
            assert(a.contains(b[0]));
        }
        assert(a =~= b);
    } else {
        let x = a[0];
        assert(a.contains(x));
        assert(b.contains(x));
        let j = choose|j: int| 0 <= j < b.len() && b[j] == x;
        let y = b[0];
        assert(b.contains(y));
        assert(a.contains(y));
        let i = choose|i: int| 0 <= i < a.len() && a[i] == y;
        if j > 0 {
            assert(precedes(b[0], b[j]));
            if i > 0 {
                assert(precedes(a[0], a[i]));
                precedes_transitive(x, y, x);
            }
            precedes_irreflexive(x);
        }
        assert(x == y);
        let a1 = a.drop_first();
        let b1 = b.drop_first();
        assert forall|i: int, j: int| 0 <= i < j < a1.len() implies precedes(
            #[trigger] a1[i],
            #[trigger] a1[j],
        ) by {
            assert(precedes(a[i + 1], a[j + 1]));
        }
        assert forall|i: int, j: int| 0 <= i < j < b1.len() implies precedes(
            #[trigger] b1[i],
            #[trigger] b1[j],
        ) by {
            assert(precedes(b[i + 1], b[j + 1]));
        }
        assert forall|k: Seq<char>| a1.contains(k) <==> b1.contains(k) by {
            lemma_tail_members(a, k);
            lemma_tail_members(b, k);
        }
        ascending_unique(a1, b1);
        assert(a =~= seq![x] + a1);
        assert(b =~= seq![y] + b1);
    }
}

/// What the tail of an ascending sequence holds: all but the head.
proof fn lemma_tail_members(a: Seq<Seq<char>>, k: Seq<char>)
    requires
        ascending(a),
        a.len() > 0,
    ensures
        a.drop_first().contains(k) <==> (a.contains(k) && k != a[0]),
{
    let t = a.drop_first();
    if t.contains(k) {
        let i = choose|i: int| 0 <= i < t.len() && t[i] == k;
        assert(a[i + 1] == k);
        assert(precedes(a[0], a[i + 1]));
        precedes_irreflexive(k);
    }
    if a.contains(k) && k != a[0] {
        let i = choose|i: int| 0 <= i < a.len() && a[i] == k;
        assert(t[i - 1] == k);
    }
}

/// A map from strings to values, its entries in the order of their keys.
#[derive(Clone, Debug)]
pub struct KeyMap<V> {
    pub entries: Vec<(String, V)>,
}

/// A set of strings, in their order.
pub type KeySet = KeyMap<()>;

impl<V> KeyMap<V> {
    /// The keys, in order.
    pub open spec fn key_seq(self) -> Seq<Seq<char>> {
        self.entries@.map_values(|e: (String, V)| e.0@)
    }

    /// The keys stand in ascending order, so none stands twice.
    pub open spec fn wf(self) -> bool {
        ascending(self.key_seq())
    }

    /// Is the `i`-th entry that of `k`?
    pub open spec fn is_at(self, k: Seq<char>, i: int) -> bool {
        0 <= i < self.entries.len() && self.entries@[i].0@ == k
    }

    /// The value at `k`.
    pub open spec fn value_at(self, k: Seq<char>) -> V {
        self.entries@[choose|i: int| self.is_at(k, i)].1
    }

    /// The map that this is.
    pub open spec fn view(self) -> Map<Seq<char>, V> {
        Map::new(|k: Seq<char>| self.key_seq().contains(k), |k: Seq<char>| self.value_at(k))
    }

    /// What the map holds for the key of its `i`-th entry.
    pub proof fn entry_value(self, i: int)
        requires
            self.wf(),
            0 <= i < self.entries.len(),
        ensures
            self@.contains_key(self.entries@[i].0@),
            self@[self.entries@[i].0@] == self.entries@[i].1,
    {
        let k = self.entries@[i].0@;
        ascending_distinct(self.key_seq());
        assert(self.key_seq()[i] == k);
        assert(self.is_at(k, i));
        let j = choose|j: int| self.is_at(k, j);
        assert(self.key_seq()[j] == k);
    }

    /// The empty map.
    pub fn new() -> (r: Self)
        ensures
            r.wf(),
            r@ == Map::<Seq<char>, V>::empty(),
            r.entries.len() == 0,
    {
        let r = KeyMap { entries: Vec::new() };
        proof {
            assert(r@ =~= Map::<Seq<char>, V>::empty());
        }
        r
    }

    /// Index of the first entry whose key does not come before `k`.
    pub fn position(&self, k: &str) -> (p: usize)
        requires
            self.wf(),
        ensures
            p <= self.entries.len(),
            forall|i: int| 0 <= i < p ==> precedes(#[trigger] self.key_seq()[i], k@),
            p < self.entries.len() ==> self.key_seq()[p as int] == k@ || precedes(
                k@,
                self.key_seq()[p as int],
            ),
            self@.contains_key(k@) <==> (p < self.entries.len() && self.key_seq()[p as int] == k@),
            self@.contains_key(k@) ==> self@[k@] == self.entries@[p as int].1,
    {
        let mut p: usize = 0;
        while p < self.entries.len() && comes_before(self.entries[p].0.as_str(), k)
            invariant
                p <= self.entries.len(),
                forall|i: int| 0 <= i < p ==> precedes(#[trigger] self.key_seq()[i], k@),
            decreases self.entries.len() - p,
        {
            proof {
                assert(self.key_seq()[p as int] == self.entries@[p as int].0@);
            }
            p = p + 1;
        }
        proof {
            let ks = self.key_seq();
            if p < self.entries.len() {
                assert(ks[p as int] == self.entries@[p as int].0@);
                precedes_total(ks[p as int], k@);
            }
            if ks.contains(k@) {
                let i = choose|i: int| 0 <= i < ks.len() && ks[i] == k@;
                if i < p {
                    precedes_irreflexive(k@);
                } else if i > p {
                    assert(precedes(ks[p as int], ks[i]));
                    if ks[p as int] != k@ {
                        precedes_transitive(k@, ks[p as int], k@);
                    }
                    precedes_irreflexive(k@);
                }
            }
            if p < self.entries.len() && ks[p as int] == k@ {
                self.entry_value(p as int);
            }
        }
        p
    }

    /// Is there an entry for `k`?
    pub fn contains_key(&self, k: &str) -> (r: bool)
        requires
            self.wf(),
        ensures
            r == self@.contains_key(k@),
    {
        let p: usize = self.position(k);
        proof {
            if p < self.entries.len() {
                assert(self.key_seq()[p as int] == self.entries@[p as int].0@);
            }
        }
        p < self.entries.len() && same_text(self.entries[p].0.as_str(), k)
    }

    /// The value for `k`.
    pub fn get(&self, k: &str) -> (r: Option<&V>)
        requires
            self.wf(),
        ensures
            r is Some <==> self@.contains_key(k@),
            r is Some ==> *r->0 == self@[k@],
    {
        let p: usize = self.position(k);
        proof {
            if p < self.entries.len() {
                assert(self.key_seq()[p as int] == self.entries@[p as int].0@);
            }
        }
        if p < self.entries.len() && same_text(self.entries[p].0.as_str(), k) {
            Some(&self.entries[p].1)
        } else {
            None
        }
    }

    /// Set the value for `k`, whether there was one or not.
    pub fn insert(&mut self, k: String, v: V)
        requires
            old(self).wf(),
        ensures
            final(self).wf(),
            final(self)@ == old(self)@.insert(k@, v),
            final(self)@.dom() == old(self)@.dom().insert(k@),
    {
        let p: usize = self.position(k.as_str());
        let ghost old_map = *self;
        let ghost ks = self.key_seq();
        let ghost kv = k@;
        proof {
            if p < self.entries.len() {
                assert(ks[p as int] == self.entries@[p as int].0@);
            }
        }
        if p < self.entries.len() && same_text(self.entries[p].0.as_str(), k.as_str()) {
            self.entries[p] = (k, v);
            proof {
                assert(self.key_seq() =~= ks);
            }
        } else {
            self.entries.insert(p, (k, v));
            proof {
                let n = self.key_seq();
                assert(n =~= ks.insert(p as int, kv));
                assert forall|i: int, j: int| 0 <= i < j < n.len() implies precedes(
                    #[trigger] n[i],
                    #[trigger] n[j],
                ) by {
                    if j < p {
                        assert(precedes(ks[i], ks[j]));
                    } else if j == p {
                        assert(precedes(ks[i], kv));
                    } else if i < p {
                        assert(precedes(ks[i], ks[j - 1]));
                    } else if i == p {
                        if j - 1 > p {
                            assert(precedes(ks[p as int], ks[j - 1]));
                            precedes_transitive(kv, ks[p as int], ks[j - 1]);
                        }
                    } else {
                        assert(precedes(ks[i - 1], ks[j - 1]));
                    }
                }
            }
        }
        proof {
            let n = self.key_seq();
            self.entry_value(p as int);
            assert forall|q: Seq<char>| n.contains(q) <==> (q == kv || ks.contains(q)) by {
                if ks.contains(q) {
                    let i = choose|i: int| 0 <= i < ks.len() && ks[i] == q;
                    assert(n[if i < p || n.len() == ks.len() { i } else { i + 1 }] == q);
                }
                if n.contains(q) && q != kv {
                    let i = choose|i: int| 0 <= i < n.len() && n[i] == q;
                    assert(ks[if i < p || n.len() == ks.len() { i } else { i - 1 }] == q);
                }
                if q == kv {
                    assert(n[p as int] == kv);
                }
            }
            assert forall|q: Seq<char>| n.contains(q) && q != kv implies self@[q] == old_map@[q] by {
                let i = choose|i: int| 0 <= i < n.len() && n[i] == q;
                self.entry_value(i);
                let j = if i < p || n.len() == ks.len() { i } else { i - 1 };
                assert(ks[j] == q);
                old_map.entry_value(j);
            }
            assert(self@ =~= old_map@.insert(kv, v));
        }
    }

    /// Take the entry for `k` out, and hand back its value.
    pub fn remove(&mut self, k: &str) -> (r: Option<V>)
        requires
            old(self).wf(),
        ensures
            final(self).wf(),
            final(self)@ == old(self)@.remove(k@),
            r is Some <==> old(self)@.contains_key(k@),
            r is Some ==> r->0 == old(self)@[k@],
    {
        let p: usize = self.position(k);
        let ghost old_map = *self;
        let ghost ks = self.key_seq();
        proof {
            if p < self.entries.len() {
                assert(ks[p as int] == self.entries@[p as int].0@);
            }
        }
        if p < self.entries.len() && same_text(self.entries[p].0.as_str(), k) {
            let e = self.entries.remove(p);
            proof {
                let n = self.key_seq();
                assert(n =~= ks.remove(p as int));
                assert forall|i: int, j: int| 0 <= i < j < n.len() implies precedes(
                    #[trigger] n[i],
                    #[trigger] n[j],
                ) by {
                    let i1 = if i < p { i } else { i + 1 };
                    let j1 = if j < p { j } else { j + 1 };
                    assert(precedes(ks[i1], ks[j1]));
                }
                ascending_distinct(ks);
                assert forall|q: Seq<char>| n.contains(q) <==> (q != k@ && ks.contains(q)) by {
                    if ks.contains(q) && q != k@ {
                        let i = choose|i: int| 0 <= i < ks.len() && ks[i] == q;
                        assert(n[if i < p { i } else { i - 1 }] == q);
                    }
                    if n.contains(q) {
                        let i = choose|i: int| 0 <= i < n.len() && n[i] == q;
                        assert(ks[if i < p { i } else { i + 1 }] == q);
                    }
                }
                assert forall|q: Seq<char>| n.contains(q) implies self@[q] == old_map@[q] by {
                    let i = choose|i: int| 0 <= i < n.len() && n[i] == q;
                    self.entry_value(i);
                    let j = if i < p { i } else { i + 1 };
                    assert(ks[j] == q);
                    old_map.entry_value(j);
                }
                assert(self@ =~= old_map@.remove(k@));
            }
            Some(e.1)
        } else {
            proof {
                assert(self@ =~= old_map@.remove(k@));
            }
            None
        }
    }

    /// Take the last entry out, if there is one.
    pub fn pop(&mut self) -> (r: Option<(String, V)>)
        requires
            old(self).wf(),
        ensures
            final(self).wf(),
            r is Some <==> old(self).entries.len() > 0,
            match r {
                Some((k, v)) => {
                    &&& old(self)@.contains_key(k@)
                    &&& v == old(self)@[k@]
                    &&& final(self)@ == old(self)@.remove(k@)
                    &&& final(self).entries.len() + 1 == old(self).entries.len()
                },
                None => {
                    &&& old(self)@ == Map::<Seq<char>, V>::empty()
                    &&& final(self)@ == old(self)@
                },
            },
    {
        let ghost start = *self;
        let ghost ks = self.key_seq();
        match self.entries.pop() {
            None => {
                proof {
                    assert(start@ =~= Map::<Seq<char>, V>::empty());
                    assert(self@ =~= Map::<Seq<char>, V>::empty());
                }
                None
            },
            Some(e) => {
                proof {
                    let p = start.entries.len() - 1;
                    let n = self.key_seq();
                    assert(n =~= ks.drop_last());
                    assert(start.entries@[p] == e);
                    assert(ks[p] == e.0@);
                    start.entry_value(p);
                    ascending_distinct(ks);
                    assert forall|i: int, j: int| 0 <= i < j < n.len() implies precedes(
                        #[trigger] n[i],
                        #[trigger] n[j],
                    ) by {
                        assert(precedes(ks[i], ks[j]));
                    }
                    assert forall|q: Seq<char>| n.contains(q) <==> (q != e.0@ && ks.contains(q)) by {
                        if ks.contains(q) && q != e.0@ {
                            let i = choose|i: int| 0 <= i < ks.len() && ks[i] == q;
                            assert(n[i] == q);
                        }
                        if n.contains(q) {
                            let i = choose|i: int| 0 <= i < n.len() && n[i] == q;
                            assert(ks[i] == q);
                        }
                    }
                    assert forall|q: Seq<char>| n.contains(q) implies self@[q] == start@[q] by {
                        let i = choose|i: int| 0 <= i < n.len() && n[i] == q;
                        self.entry_value(i);
                        start.entry_value(i);
                    }
                    assert(self@ =~= start@.remove(e.0@));
                }
                Some(e)
            },
        }
    }

    /// The keys, in order.
    pub fn keys(&self) -> (r: Vec<String>)
        requires
            self.wf(),
        ensures
            texts(r@) == self.key_seq(),
            ascending(texts(r@)),
            forall|k: Seq<char>| texts(r@).contains(k) <==> self@.contains_key(k),
    {
        let mut out: Vec<String> = Vec::new();
        let mut i: usize = 0;
        while i < self.entries.len()
            invariant
                i <= self.entries.len(),
                texts(out@) =~= self.key_seq().take(i as int),
            decreases self.entries.len() - i,
        {
            let ghost before = out@;
            out.push(self.entries[i].0.clone());
            proof {
                assert(texts(out@) =~= texts(before).push(self.entries@[i as int].0@));
                assert(self.key_seq().take(i + 1) =~= self.key_seq().take(i as int).push(
                    self.key_seq()[i as int],
                ));
            }
            i = i + 1;
        }
        proof {
            assert(texts(out@) =~= self.key_seq());
        }
        out
    }
}

/// A map from grid slots to values.
#[derive(Clone, Debug)]
pub struct SlotMap<V> {
    pub entries: Vec<((usize, usize), V)>,
}

impl<V> SlotMap<V> {
    /// No slot has two entries.
    pub open spec fn wf(self) -> bool {
        forall|i: int, j: int|
            0 <= i < self.entries.len() && 0 <= j < self.entries.len() && i != j ==> (
            #[trigger] self.entries@[i]).0 != (#[trigger] self.entries@[j]).0
    }

    /// Is the `i`-th entry that of `slot`?
    pub open spec fn is_at(self, slot: (usize, usize), i: int) -> bool {
        0 <= i < self.entries.len() && self.entries@[i].0 == slot
    }

    /// The map that this is.
    pub open spec fn view(self) -> Map<(usize, usize), V> {
        Map::new(
            |s: (usize, usize)| exists|i: int| self.is_at(s, i),
            |s: (usize, usize)| self.entries@[choose|i: int| self.is_at(s, i)].1,
        )
    }

    /// The empty map.
    pub fn new() -> (r: Self)
        ensures
            r.wf(),
            r@ == Map::<(usize, usize), V>::empty(),
    {
        let r = SlotMap { entries: Vec::new() };
        proof {
            assert(r@ =~= Map::<(usize, usize), V>::empty());
        }
        r
    }

    /// What the map holds for the slot of its `i`-th entry.
    pub proof fn entry_value(self, i: int)
        requires
            self.wf(),
            0 <= i < self.entries.len(),
        ensures
            self@.contains_key(self.entries@[i].0),
            self@[self.entries@[i].0] == self.entries@[i].1,
    {
        assert(self.is_at(self.entries@[i].0, i));
    }

    /// Index of the entry of `slot`, or the number of entries.
    pub fn position(&self, slot: (usize, usize)) -> (p: usize)
        requires
            self.wf(),
        ensures
            p <= self.entries.len(),
            self@.contains_key(slot) <==> p < self.entries.len(),
            p < self.entries.len() ==> self.is_at(slot, p as int) && self@[slot]
                == self.entries@[p as int].1,
    {
        let mut p: usize = 0;
        while p < self.entries.len()
            invariant
                p <= self.entries.len(),
                self.wf(),
                forall|i: int| 0 <= i < p ==> !self.is_at(slot, i),
            decreases self.entries.len() - p,
        {
            if self.entries[p].0.0 == slot.0 && self.entries[p].0.1 == slot.1 {
                proof {
                    self.entry_value(p as int);
                }
                return p;
            }
            p = p + 1;
        }
        p
    }

    /// The value for `slot`.
    pub fn get(&self, slot: (usize, usize)) -> (r: Option<&V>)
        requires
            self.wf(),
        ensures
            r is Some <==> self@.contains_key(slot),
            r is Some ==> *r->0 == self@[slot],
    {
        let p: usize = self.position(slot);
        if p < self.entries.len() {
            Some(&self.entries[p].1)
        } else {
            None
        }
    }

    /// Set the value for `slot`, whether there was one or not.
    pub fn insert(&mut self, slot: (usize, usize), v: V)
        requires
            old(self).wf(),
        ensures
            final(self).wf(),
            final(self)@ == old(self)@.insert(slot, v),
    {
        let p: usize = self.position(slot);
        let ghost old_map = *self;
        if p < self.entries.len() {
            self.entries[p] = (slot, v);
        } else {
            proof {
                assert forall|i: int| 0 <= i < self.entries.len() implies self.entries@[i].0 != slot by {
                    self.entry_value(i);
                }
            }
            self.entries.push((slot, v));
        }
        proof {
            self.entry_value(p as int);
            assert(self.entries@[p as int] == (slot, v));
            assert forall|s: (usize, usize)| s != slot implies (#[trigger] self@.contains_key(s)
                <==> old_map@.contains_key(s)) && (self@.contains_key(s) ==> self@[s] == old_map@[s]) by {
                if self@.contains_key(s) {
                    let i = choose|i: int| self.is_at(s, i);
                    assert(old_map.is_at(s, i));
                    old_map.entry_value(i);
                    self.entry_value(i);
                }
                if old_map@.contains_key(s) {
                    let i = choose|i: int| old_map.is_at(s, i);
                    assert(self.is_at(s, i));
                }
            }
            assert(self@ =~= old_map@.insert(slot, v));
        }
    }
}

} // verus!
