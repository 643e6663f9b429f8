//! Two stores as one: what becomes of the data of a drone that was known under two
//! names.
use vstd::prelude::*;

use crate::history::last_n;
use crate::keymap::{KeyMap, KeySet};
use crate::store::{add_keys, later, Point, TextLogEntry, TraceStore, TEXT_LOG_CAPACITY};

verus! {

// ---------------------------------------------------------------- lists in time

/// What has a time.
pub trait Timed: Sized {
    /// The time.
    spec fn time(&self) -> int;

    /// The time.
    fn when(&self) -> (t: i64)
        ensures
            t == self.time(),
    ;
}

impl Timed for Point {
    open spec fn time(&self) -> int {
        self.t as int
    }

    fn when(&self) -> (t: i64) {
        self.t
    }
}

impl Timed for TextLogEntry {
    open spec fn time(&self) -> int {
        self.ts as int
    }

    fn when(&self) -> (t: i64) {
        self.ts
    }
}

/// Two lists as one, by time: of the two last items the later comes last, that of `b`
/// where they are of one time.
pub open spec fn interleaved<T: Timed>(a: Seq<T>, b: Seq<T>) -> Seq<T>
    decreases a.len() + b.len(),
{
    if a.len() == 0 {
        b
    } else if b.len() == 0 {
        a
    } else if a.last().time() > b.last().time() {
        interleaved(a.drop_last(), b).push(a.last())
    } else {
        interleaved(a, b.drop_last()).push(b.last())
    }
}

/// Two lists as one, by time.
fn interleave<T: Timed>(a: Vec<T>, b: Vec<T>) -> (r: Vec<T>)
    ensures
        r@ == interleaved(a@, b@),
{
    let mut x = a;
    let mut y = b;
    let ghost whole = interleaved(a@, b@);
    let mut back: Vec<T> = Vec::new();
    proof {
        assert(whole =~= interleaved(x@, y@) + back@.reverse());
    }
    while x.len() > 0 && y.len() > 0
        invariant
            whole == interleaved(x@, y@) + back@.reverse(),
        decreases x.len() + y.len(),
    {
        let ghost (p, q, tail) = (x@, y@, back@);
        let take_x = x[x.len() - 1].when() > y[y.len() - 1].when();
        let last = if take_x {
            x.pop()
        } else {
            y.pop()
        };
        match last {
            Some(item) => {
                back.push(item);
                proof {
                    assert(interleaved(p, q) == interleaved(x@, y@).push(item));
                    assert(back@.reverse() =~= seq![item] + tail.reverse());
                    assert(whole =~= interleaved(x@, y@) + back@.reverse());
                }
            },
            None => {},
        }
    }
    let mut out = if x.len() > 0 {
        x
    } else {
        y
    };
    proof {
        assert(out@ == interleaved(x@, y@));
    }
    let ghost front = out@;
    let ghost tail = back@.reverse();
    while back.len() > 0
        invariant
            whole == front + tail,
            back.len() <= tail.len(),
            tail =~= tail.take(tail.len() - back.len()) + back@.reverse(),
            out@ =~= front + tail.take(tail.len() - back.len()),
        decreases back.len(),
    {
        let ghost was = back@;
        match back.pop() {
            Some(item) => {
                out.push(item);
                proof {
                    let n = tail.len() - was.len();
                    assert(was.reverse()[0] == item);
                    assert(tail[n] == was.reverse()[0]);
                    assert(tail.take(n + 1) =~= tail.take(n).push(item));
                    assert(was.reverse() =~= seq![item] + back@.reverse());
                }
            },
            None => {},
        }
    }
    proof {
        assert(tail.take(tail.len() as int) =~= tail);
        assert(out@ =~= whole);
    }
    out
}

/// Making one list of two loses nothing and adds nothing.
pub proof fn interleaving_loses_nothing<T: Timed>(a: Seq<T>, b: Seq<T>)
    ensures
        interleaved(a, b).len() == a.len() + b.len(),
        interleaved(a, b).to_multiset() == a.to_multiset().add(b.to_multiset()),
    decreases a.len() + b.len(),
{
    broadcast use vstd::seq_lib::group_to_multiset_ensures;

    if a.len() == 0 {
        assert(a =~= Seq::empty());
        assert(a.to_multiset() =~= vstd::multiset::Multiset::empty());
        assert(a.to_multiset().add(b.to_multiset()) =~= b.to_multiset());
    } else if b.len() == 0 {
        assert(b =~= Seq::empty());
        assert(b.to_multiset() =~= vstd::multiset::Multiset::empty());
        assert(a.to_multiset().add(b.to_multiset()) =~= a.to_multiset());
    } else if a.last().time() > b.last().time() {
        let t = a.drop_last();
        interleaving_loses_nothing(t, b);
        assert(a =~= t.push(a.last()));
        assert(a.to_multiset() =~= t.to_multiset().insert(a.last()));
        assert(interleaved(a, b).to_multiset() =~= a.to_multiset().add(b.to_multiset()));
    } else {
        let t = b.drop_last();
        interleaving_loses_nothing(a, t);
        assert(b =~= t.push(b.last()));
        assert(b.to_multiset() =~= t.to_multiset().insert(b.last()));
        assert(interleaved(a, b).to_multiset() =~= a.to_multiset().add(b.to_multiset()));
    }
}

/// Is a list in the order of time?
pub open spec fn in_time<T: Timed>(s: Seq<T>) -> bool {
    forall|i: int, j: int| 0 <= i < j < s.len() ==> (#[trigger] s[i]).time() <= (#[trigger] s[j]).time()
}

/// One list of two that are in the order of time is so too.
pub proof fn interleaving_keeps_the_order<T: Timed>(a: Seq<T>, b: Seq<T>)
    requires
        in_time(a),
        in_time(b),
    ensures
        in_time(interleaved(a, b)),
    decreases a.len() + b.len(),
{
    if a.len() > 0 && b.len() > 0 {
        let from_a = a.last().time() > b.last().time();
        let x = if from_a {
            a.drop_last()
        } else {
            a
        };
        let y = if from_a {
            b
        } else {
            b.drop_last()
        };
        let last = if from_a {
            a.last()
        } else {
            b.last()
        };
        assert forall|i: int, j: int| 0 <= i < j < x.len() implies (#[trigger] x[i]).time() <= (
        #[trigger] x[j]).time() by {
            assert(a[i].time() <= a[j].time());
        }
        assert forall|i: int, j: int| 0 <= i < j < y.len() implies (#[trigger] y[i]).time() <= (
        #[trigger] y[j]).time() by {
            assert(b[i].time() <= b[j].time());
        }
        interleaving_keeps_the_order(x, y);
        assert forall|i: int| 0 <= i < x.len() implies (#[trigger] x[i]).time() <= last.time() by {
            assert(a[i].time() <= a[a.len() - 1].time());
        }
        assert forall|i: int| 0 <= i < y.len() implies (#[trigger] y[i]).time() <= last.time() by {
            assert(b[i].time() <= b[b.len() - 1].time());
        }
        lemma_bounded(x, y, last.time());
    }
}

proof fn lemma_bounded<T: Timed>(a: Seq<T>, b: Seq<T>, t: int)
    requires
        forall|i: int| 0 <= i < a.len() ==> (#[trigger] a[i]).time() <= t,
        forall|i: int| 0 <= i < b.len() ==> (#[trigger] b[i]).time() <= t,
    ensures
        forall|i: int|
            0 <= i < interleaved(a, b).len() ==> (#[trigger] interleaved(a, b)[i]).time() <= t,
    decreases a.len() + b.len(),
{
    if a.len() > 0 && b.len() > 0 {
        assert(a[a.len() - 1].time() <= t);
        assert(b[b.len() - 1].time() <= t);
        if a.last().time() > b.last().time() {
            assert forall|i: int| 0 <= i < a.drop_last().len() implies (
            #[trigger] a.drop_last()[i]).time() <= t by {
                assert(a[i].time() <= t);
            }
            lemma_bounded(a.drop_last(), b, t);
            let m = interleaved(a.drop_last(), b);
            assert forall|i: int| 0 <= i < interleaved(a, b).len() implies (
            #[trigger] interleaved(a, b)[i]).time() <= t by {
                if i < m.len() {
                    assert(m[i].time() <= t);
                }
            }
        } else {
            assert forall|i: int| 0 <= i < b.drop_last().len() implies (
            #[trigger] b.drop_last()[i]).time() <= t by {
                assert(b[i].time() <= t);
            }
            lemma_bounded(a, b.drop_last(), t);
            let m = interleaved(a, b.drop_last());
            assert forall|i: int| 0 <= i < interleaved(a, b).len() implies (
            #[trigger] interleaved(a, b)[i]).time() <= t by {
                if i < m.len() {
                    assert(m[i].time() <= t);
                }
            }
        }
    } else {
        let m = interleaved(a, b);
        assert(m == a || m == b);
    }
}

// ---------------------------------------------------------------- maps

/// The list that a map holds for `k`; the empty one if it holds none.
pub open spec fn list_of<T>(m: Map<Seq<char>, Vec<T>>, k: Seq<char>) -> Seq<T> {
    if m.contains_key(k) {
        m[k]@
    } else {
        Seq::empty()
    }
}

/// All of a list, or its last `keep` items.
pub open spec fn kept<T>(s: Seq<T>, keep: Option<usize>) -> Seq<T> {
    match keep {
        Some(n) => last_n(s, n as int),
        None => s,
    }
}

/// What becomes of the list for `k`: one of the two, or the end of it; that of `a` stays
/// as it is where `b` holds none.
pub open spec fn joined_list<T: Timed>(
    a: Map<Seq<char>, Vec<T>>,
    b: Map<Seq<char>, Vec<T>>,
    keep: Option<usize>,
    k: Seq<char>,
) -> Seq<T> {
    if b.contains_key(k) {
        kept(interleaved(list_of(a, k), list_of(b, k)), keep)
    } else {
        list_of(a, k)
    }
}

/// All of a list, or its last `keep` items.
fn trim_list<T>(v: Vec<T>, keep: Option<usize>) -> (r: Vec<T>)
    ensures
        r@ == kept(v@, keep),
{
    let mut v = v;
    let ghost all = v@;
    match keep {
        Some(n) if v.len() > n => {
            let from: usize = v.len() - n;
            let rest = v.split_off(from);
            proof {
                assert(rest@ =~= all.skip(from as int));
            }
            rest
        },
        _ => v,
    }
}

/// Put the lists of `b` to those of `a`.
fn join_lists<T: Timed>(a: &mut KeyMap<Vec<T>>, b: KeyMap<Vec<T>>, keep: Option<usize>)
    requires
        old(a).wf(),
        b.wf(),
    ensures
        final(a).wf(),
        final(a)@.dom() == old(a)@.dom().union(b@.dom()),
        forall|k: Seq<char>| #[trigger]
            list_of(final(a)@, k) == joined_list(old(a)@, b@, keep, k),
{
    let ghost start = a@;
    let ghost whole = b@;
    let mut rest = b;
    while rest.entries.len() > 0
        invariant
            a.wf(),
            rest.wf(),
            forall|k: Seq<char>| #[trigger]
                rest@.contains_key(k) ==> whole.contains_key(k) && rest@[k] == whole[k],
            forall|k: Seq<char>| #[trigger]
                a@.contains_key(k) <==> start.contains_key(k) || (whole.contains_key(k)
                    && !rest@.contains_key(k)),
            forall|k: Seq<char>| #[trigger]
                list_of(a@, k) == if rest@.contains_key(k) {
                    list_of(start, k)
                } else {
                    joined_list(start, whole, keep, k)
                },
        decreases rest.entries.len(),
    {
        let ghost before = a@;
        match rest.pop() {
            Some((k, v)) => {
                let ghost key = k@;
                let ghost theirs = v@;
                let own: Vec<T> = match a.remove(k.as_str()) {
                    Some(w) => w,
                    None => Vec::new(),
                };
                proof {
                    assert(list_of(before, key) == list_of(start, key));
                    assert(own@ =~= list_of(start, key));
                    assert(theirs == list_of(whole, key));
                }
                let both = trim_list(interleave(own, v), keep);
                a.insert(k, both);
                proof {
                    assert forall|q: Seq<char>| #[trigger] list_of(a@, q) == if rest@.contains_key(q) {
                        list_of(start, q)
                    } else {
                        joined_list(start, whole, keep, q)
                    } by {
                        if q != key {
                            assert(list_of(before, q) == list_of(a@, q));
                        }
                    }
                }
            },
            None => {},
        }
    }
    proof {
        assert(rest@ =~= Map::empty()) by {
            assert(rest.key_seq().len() == 0);
        }
        assert(a@.dom() =~= start.dom().union(whole.dom()));
    }
}

/// The entries of two maps, those of `b` where both have one and it counts more.
pub open spec fn united<V>(
    a: Map<Seq<char>, V>,
    b: Map<Seq<char>, V>,
    b_first: bool,
) -> Map<Seq<char>, V> {
    if b_first {
        a.union_prefer_right(b)
    } else {
        b.union_prefer_right(a)
    }
}

/// Put the entries of `b` to those of `a`.
fn unite<V>(a: &mut KeyMap<V>, b: KeyMap<V>, b_first: bool)
    requires
        old(a).wf(),
        b.wf(),
    ensures
        final(a).wf(),
        final(a)@ == united(old(a)@, b@, b_first),
{
    let ghost start = a@;
    let ghost whole = b@;
    let mut rest = b;
    while rest.entries.len() > 0
        invariant
            a.wf(),
            rest.wf(),
            forall|k: Seq<char>| #[trigger]
                rest@.contains_key(k) ==> whole.contains_key(k) && rest@[k] == whole[k],
            forall|k: Seq<char>| #[trigger]
                a@.contains_key(k) <==> start.contains_key(k) || (whole.contains_key(k)
                    && !rest@.contains_key(k)),
            forall|k: Seq<char>| #[trigger]
                a@.contains_key(k) ==> a@[k] == if rest@.contains_key(k) {
                    start[k]
                } else {
                    united(start, whole, b_first)[k]
                },
        decreases rest.entries.len(),
    {
        let ghost before = a@;
        match rest.pop() {
            Some((k, v)) => {
                let ghost key = k@;
                if b_first || !a.contains_key(k.as_str()) {
                    a.insert(k, v);
                }
                proof {
                    assert forall|q: Seq<char>| #[trigger] a@.contains_key(q) implies a@[q]
                        == if rest@.contains_key(q) {
                        start[q]
                    } else {
                        united(start, whole, b_first)[q]
                    } by {
                        if q != key {
                            assert(before.contains_key(q));
                        } else if before.contains_key(q) {
                            assert(start.contains_key(q));
                        }
                    }
                }
            },
            None => {},
        }
    }
    proof {
        assert(rest@ =~= Map::empty()) by {
            assert(rest.key_seq().len() == 0);
        }
        assert(a@ =~= united(start, whole, b_first));
    }
}

// ---------------------------------------------------------------- stores

/// Was the store with latest time `b` heard of after that with latest time `a`?
pub open spec fn heard_later(a: Option<i64>, b: Option<i64>) -> bool {
    match b {
        None => false,
        Some(t) => match a {
            None => true,
            Some(s) => t > s,
        },
    }
}

/// Is `m` the store `a` with the data of `b`? Points and log entries of both come in
/// the order of time; of a text or a vector that both have, it is that of the store
/// heard of last. A channel that one announced and the other has had a value for is
/// known.
pub open spec fn is_merge(a: TraceStore, b: TraceStore, m: TraceStore) -> bool {
    let b_first = heard_later(a.latest, b.latest);
    &&& m.window_us == a.window_us
    &&& m.latest == match b.latest {
        Some(t) => Some(later(a.latest, t)),
        None => a.latest,
    }
    &&& m.traces@.dom() == a.traces@.dom().union(b.traces@.dom())
    &&& forall|k: Seq<char>| #[trigger] m.series(k) == interleaved(a.series(k), b.series(k))
    &&& m.strings@ == united(a.strings@, b.strings@, b_first)
    &&& m.vectors@ == united(a.vectors@, b.vectors@, b_first)
    &&& m.logs@.dom() == a.logs@.dom().union(b.logs@.dom())
    &&& forall|k: Seq<char>| #[trigger]
        m.log(k) == if b.logs@.contains_key(k) {
            last_n(interleaved(a.log(k), b.log(k)), TEXT_LOG_CAPACITY as int)
        } else {
            a.log(k)
        }
    &&& forall|k: Seq<char>| #[trigger]
        m.nulls@.contains_key(k) <==> (a.nulls@.contains_key(k) || b.nulls@.contains_key(k))
            && !m.known(k)
}

impl TraceStore {
    /// Has the channel had a value?
    pub fn is_known(&self, key: &str) -> (r: bool)
        requires
            self.wf(),
        ensures
            r == self.known(key@),
    {
        self.traces.contains_key(key) || self.strings.contains_key(key) || self.logs.contains_key(key)
            || self.vectors.contains_key(key)
    }

    /// Take the data of another store over.
    pub fn absorb(&mut self, other: TraceStore)
        requires
            old(self).wf(),
            other.wf(),
        ensures
            final(self).wf(),
            is_merge(*old(self), other, *final(self)),
    {
        let ghost a = *self;
        let TraceStore { window_us: _, traces, latest, nulls, strings, logs, vectors } = other;
        let b_first = match latest {
            None => false,
            Some(t) => match self.latest {
                None => true,
                Some(s) => t > s,
            },
        };
        if b_first {
            self.latest = latest;
        }
        join_lists(&mut self.traces, traces, None);
        unite(&mut self.strings, strings, b_first);
        unite(&mut self.vectors, vectors, b_first);
        join_lists(&mut self.logs, logs, Some(TEXT_LOG_CAPACITY));
        let mut all: KeySet = KeyMap::new();
        add_keys(&mut all, &self.nulls);
        add_keys(&mut all, &nulls);
        let ghost announced = all@;
        let mut open: KeySet = KeyMap::new();
        while all.entries.len() > 0
            invariant
                self.wf(),
                all.wf(),
                open.wf(),
                forall|k: Seq<char>| #[trigger]
                    all@.contains_key(k) ==> announced.contains_key(k),
                forall|k: Seq<char>| #[trigger]
                    open@.contains_key(k) <==> announced.contains_key(k) && !all@.contains_key(k)
                        && !self.known(k),
            decreases all.entries.len(),
        {
            match all.pop() {
                Some((k, _)) => {
                    if !self.is_known(k.as_str()) {
                        open.insert(k, ());
                    }
                },
                None => {},
            }
        }
        proof {
            assert(all@ =~= Map::empty()) by {
                assert(all.key_seq().len() == 0);
            }
            assert forall|k: Seq<char>| #[trigger] announced.contains_key(k) <==> a.nulls@.contains_key(k)
                || other.nulls@.contains_key(k) by {
                assert(announced.contains_key(k) <==> announced.dom().contains(k));
            }
        }
        self.nulls = open;
        proof {
            assert forall|k: Seq<char>| #[trigger] self.series(k) == interleaved(
                a.series(k),
                other.series(k),
            ) by {
                assert(self.series(k) == list_of(self.traces@, k));
                assert(list_of(self.traces@, k) == joined_list(
                    a.traces@,
                    other.traces@,
                    None,
                    k,
                ));
            }
            assert forall|k: Seq<char>| #[trigger] self.log(k) == if other.logs@.contains_key(k) {
                last_n(interleaved(a.log(k), other.log(k)), TEXT_LOG_CAPACITY as int)
            } else {
                a.log(k)
            } by {
                assert(self.log(k) == list_of(self.logs@, k));
            }
        }
    }
}

/// A store with the data of another holds every point of both and no other, and no
/// channel is both announced and known in it.
pub proof fn merged_stores_hold_both(a: TraceStore, b: TraceStore, m: TraceStore, k: Seq<char>)
    requires
        is_merge(a, b, m),
    ensures
        m.series(k).to_multiset() == a.series(k).to_multiset().add(b.series(k).to_multiset()),
        m.apart(),
{
    assert(m.series(k) == interleaved(a.series(k), b.series(k)));
    interleaving_loses_nothing(a.series(k), b.series(k));
}

} // verus!
