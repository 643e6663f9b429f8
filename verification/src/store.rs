//! Trace storage: a rolling window of points for each channel, and the latest
//! text, log and vector of the channels that carry no numbers.
use vstd::prelude::*;

use crate::history::last_n;
use crate::keymap::{ascending, KeyMap, KeySet};
use crate::num::{Num, ONE_WORD};
use crate::template::CellSource;
use crate::text::{owned, precedes, texts};

verus! {

/// Retention when none is asked for, in microseconds.
pub const DEFAULT_WINDOW_US: u64 = 60_000_000;

/// How many entries a text log keeps.
pub const TEXT_LOG_CAPACITY: usize = 64;

/// A value and the time it was taken, in microseconds.
#[derive(Clone, Copy, Debug, PartialEq, Eq, Structural)]
pub struct Point {
    pub t: i64,
    pub value: Num,
}

/// An entry of a text log.
#[derive(Clone, Debug)]
pub struct TextLogEntry {
    pub ts: i64,
    pub text: String,
    pub severity: u8,
}

/// The points of each channel over a rolling window of time.
#[derive(Clone, Debug)]
pub struct TraceStore {
    /// How far back points are kept, in microseconds.
    pub window_us: u64,
    /// The points of each channel, in the order they came.
    pub traces: KeyMap<Vec<Point>>,
    /// The latest time seen on any channel.
    pub latest: Option<i64>,
    /// Channels that were announced and have had no value yet.
    pub nulls: KeySet,
    /// The latest text of each text channel.
    pub strings: KeyMap<String>,
    /// The last entries of each log channel.
    pub logs: KeyMap<Vec<TextLogEntry>>,
    /// The latest value of each channel of integer vectors.
    pub vectors: KeyMap<Vec<i64>>,
}

/// `s` without the points that are older than `cutoff`.
pub open spec fn fresh(s: Seq<Point>, cutoff: int) -> Seq<Point> {
    s.filter(|p: Point| p.t >= cutoff)
}

/// The later of a time and the latest so far.
pub open spec fn later(latest: Option<i64>, t: i64) -> i64 {
    match latest {
        Some(l) => if t > l {
            t
        } else {
            l
        },
        None => t,
    }
}

/// The smallest of the values, met first where several are.
pub open spec fn lowest(s: Seq<Point>) -> Num
    decreases s.len(),
{
    if s.len() <= 1 {
        s[0].value
    } else {
        let m = lowest(s.drop_last());
        if s.last().value.below(m) {
            s.last().value
        } else {
            m
        }
    }
}

/// The largest of the values, met first where several are.
pub open spec fn highest(s: Seq<Point>) -> Num
    decreases s.len(),
{
    if s.len() <= 1 {
        s[0].value
    } else {
        let m = highest(s.drop_last());
        if m.below(s.last().value) {
            s.last().value
        } else {
            m
        }
    }
}

/// Nothing lies below the smallest value nor above the largest, and both are
/// values of the series.
pub proof fn extremes_bound_the_series(s: Seq<Point>)
    requires
        s.len() > 0,
    ensures
        forall|i: int|
            0 <= i < s.len() ==> !(#[trigger] s[i]).value.below(lowest(s)) && !highest(s).below(
                s[i].value,
            ),
        exists|i: int| 0 <= i < s.len() && (#[trigger] s[i]).value == lowest(s),
        exists|i: int| 0 <= i < s.len() && (#[trigger] s[i]).value == highest(s),
    decreases s.len(),
{
    if s.len() == 1 {
        assert(s[0].value == lowest(s));
    } else {
        let h = s.drop_last();
        extremes_bound_the_series(h);
        let i = choose|i: int| 0 <= i < h.len() && (#[trigger] h[i]).value == lowest(h);
        let j = choose|j: int| 0 <= j < h.len() && (#[trigger] h[j]).value == highest(h);
        assert(s[i].value == lowest(h));
        assert(s[j].value == highest(h));
        assert(s[s.len() - 1] == s.last());
        assert forall|k: int| 0 <= k < s.len() implies !(#[trigger] s[k]).value.below(lowest(s))
            && !highest(s).below(s[k].value) by {
            if k < h.len() {
                assert(h[k] == s[k]);
            }
        }
    }
}

/// Drop the points that are older than `cutoff`.
fn prune(points: &mut Vec<Point>, cutoff: i128)
    ensures
        final(points)@ == fresh(old(points)@, cutoff as int),
{
    let ghost all = points@;
    let ghost young = |p: Point| p.t >= cutoff as int;
    let mut kept: Vec<Point> = Vec::new();
    let mut k: usize = 0;
    proof {
        reveal(Seq::filter);
        assert(all.take(0).filter(young) =~= Seq::empty());
    }
    while k < points.len()
        invariant
            k <= points.len(),
            points@ == all,
            young == (|p: Point| p.t >= cutoff as int),
            kept@ == all.take(k as int).filter(young),
        decreases points.len() - k,
    {
        proof {
            reveal(Seq::filter);
            assert(all.take(k + 1).drop_last() =~= all.take(k as int));
            assert(all.take(k + 1).last() == all[k as int]);
        }
        if (points[k].t as i128) >= cutoff {
            kept.push(points[k]);
        }
        k = k + 1;
    }
    proof {
        assert(all.take(all.len() as int) =~= all);
    }
    *points = kept;
}

impl Default for TraceStore {
    fn default() -> (r: TraceStore)
        ensures
            r.fresh_store(DEFAULT_WINDOW_US),
    {
        TraceStore::new(DEFAULT_WINDOW_US)
    }
}

impl TraceStore {
    /// Each map is in key order.
    pub open spec fn wf(self) -> bool {
        self.traces.wf() && self.nulls.wf() && self.strings.wf() && self.logs.wf()
            && self.vectors.wf()
    }

    /// The points of a channel; none if it was never seen.
    pub open spec fn series(self, k: Seq<char>) -> Seq<Point> {
        if self.traces@.contains_key(k) {
            self.traces@[k]@
        } else {
            Seq::empty()
        }
    }

    /// The log of a channel; none if it was never seen.
    pub open spec fn log(self, k: Seq<char>) -> Seq<TextLogEntry> {
        if self.logs@.contains_key(k) {
            self.logs@[k]@
        } else {
            Seq::empty()
        }
    }

    /// Has the channel had a value?
    pub open spec fn known(self, k: Seq<char>) -> bool {
        self.traces@.contains_key(k) || self.strings@.contains_key(k) || self.logs@.contains_key(k)
            || self.vectors@.contains_key(k)
    }

    /// No channel is both announced and known.
    pub open spec fn apart(self) -> bool {
        forall|k: Seq<char>| #[trigger] self.nulls@.contains_key(k) ==> !self.known(k)
    }

    /// An empty store with retention `w`.
    pub open spec fn fresh_store(self, w: u64) -> bool {
        &&& self.wf()
        &&& self.window_us == w
        &&& self.latest is None
        &&& self.traces@ == Map::<Seq<char>, Vec<Point>>::empty()
        &&& self.nulls@ == Map::<Seq<char>, ()>::empty()
        &&& self.strings@ == Map::<Seq<char>, String>::empty()
        &&& self.logs@ == Map::<Seq<char>, Vec<TextLogEntry>>::empty()
        &&& self.vectors@ == Map::<Seq<char>, Vec<i64>>::empty()
    }

    /// An empty store that keeps points for `window_us` microseconds.
    pub fn new(window_us: u64) -> (r: TraceStore)
        ensures
            r.fresh_store(window_us),
    {
        TraceStore {
            window_us,
            traces: KeyMap::new(),
            latest: None,
            nulls: KeyMap::new(),
            strings: KeyMap::new(),
            logs: KeyMap::new(),
            vectors: KeyMap::new(),
        }
    }

    /// Take note of a time.
    fn see(&mut self, t: i64)
        ensures
            *final(self) == (TraceStore {
                latest: Some(later(old(self).latest, t)),
                ..*old(self)
            }),
    {
        let now: i64 = match self.latest {
            Some(l) => if t > l {
                t
            } else {
                l
            },
            None => t,
        };
        self.latest = Some(now);
    }

    /// What `push` makes of a series: the point is put behind its own, and from
    /// all series what is older than the window goes.
    pub open spec fn pushed(self, t: i64, key: Seq<char>, value: Num, k: Seq<char>) -> Seq<Point> {
        fresh(
            if k == key {
                self.series(k).push(Point { t, value })
            } else {
                self.series(k)
            },
            later(self.latest, t) - self.window_us,
        )
    }

    /// Is `next` this store after a push?
    pub open spec fn after_push(self, next: TraceStore, t: i64, key: Seq<char>, value: Num) -> bool {
        &&& next.latest == Some(later(self.latest, t))
        &&& next.traces@.dom() == self.traces@.dom().insert(key)
        &&& forall|k: Seq<char>| #[trigger] next.series(k) == self.pushed(t, key, value, k)
        &&& next.nulls@ == self.nulls@.remove(key)
        &&& next.window_us == self.window_us
        &&& next.strings == self.strings
        &&& next.logs == self.logs
        &&& next.vectors == self.vectors
    }

    /// Is `next` this store after a text came?
    pub open spec fn after_string(
        self,
        next: TraceStore,
        t: i64,
        key: Seq<char>,
        value: Seq<char>,
    ) -> bool {
        &&& next.latest == Some(later(self.latest, t))
        &&& next.strings@.dom() == self.strings@.dom().insert(key)
        &&& next.strings@[key]@ == value
        &&& forall|k: Seq<char>|
            k != key && self.strings@.contains_key(k) ==> #[trigger] next.strings@[k]
                == self.strings@[k]
        &&& next.nulls@ == self.nulls@.remove(key)
        &&& next.window_us == self.window_us
        &&& next.traces == self.traces
        &&& next.logs == self.logs
        &&& next.vectors == self.vectors
    }

    /// Is `next` this store after an integer vector came?
    pub open spec fn after_vec_int(
        self,
        next: TraceStore,
        t: i64,
        key: Seq<char>,
        values: Vec<i64>,
    ) -> bool {
        &&& next.latest == Some(later(self.latest, t))
        &&& next.vectors@ == self.vectors@.insert(key, values)
        &&& next.nulls@ == self.nulls@.remove(key)
        &&& next.window_us == self.window_us
        &&& next.traces == self.traces
        &&& next.strings == self.strings
        &&& next.logs == self.logs
    }

    /// Is `next` this store after a log entry came?
    pub open spec fn after_log(
        self,
        next: TraceStore,
        t: i64,
        key: Seq<char>,
        entry: TextLogEntry,
    ) -> bool {
        &&& next.latest == Some(later(self.latest, t))
        &&& next.logs@.dom() == self.logs@.dom().insert(key)
        &&& next.log(key) == last_n(self.log(key).push(entry), TEXT_LOG_CAPACITY as int)
        &&& forall|k: Seq<char>| k != key ==> #[trigger] next.log(k) == self.log(k)
        &&& next.nulls@ == self.nulls@.remove(key)
        &&& next.window_us == self.window_us
        &&& next.traces == self.traces
        &&& next.strings == self.strings
        &&& next.vectors == self.vectors
    }

    /// Is `next` this store after a channel was announced without a value?
    pub open spec fn after_null(self, next: TraceStore, key: Seq<char>) -> bool {
        &&& next == (TraceStore { nulls: next.nulls, ..self })
        &&& next.nulls@.dom() == if self.known(key) {
            self.nulls@.dom()
        } else {
            self.nulls@.dom().insert(key)
        }
    }

    /// Put one point behind those of its channel, then drop from every channel what
    /// has left the window. A channel that was only announced
    /// is now known.
    pub fn push(&mut self, t: i64, key: &str, value: Num)
        requires
            old(self).wf(),
        ensures
            final(self).wf(),
            old(self).after_push(*final(self), t, key@, value),
    {
        let ghost start = *self;
        self.see(t);
        let _ = self.nulls.remove(key);
        let mut line: Vec<Point> = match self.traces.remove(key) {
            Some(v) => v,
            None => Vec::new(),
        };
        line.push(Point { t, value });
        let ghost grown = line@;
        self.traces.insert(owned(key), line);
        proof {
            assert(grown == start.series(key@).push(Point { t, value }));
            assert(self.traces@.dom() =~= start.traces@.dom().insert(key@));
        }
        let now: i64 = match self.latest {
            Some(l) => l,
            None => t,
        };
        let cutoff: i128 = (now as i128) - (self.window_us as i128);
        let ghost mid = *self;
        let mut i: usize = 0;
        while i < self.traces.entries.len()
            invariant
                i <= self.traces.entries.len() == mid.traces.entries.len(),
                cutoff == later(start.latest, t) - start.window_us,
                self.traces.key_seq() == mid.traces.key_seq(),
                forall|k: int|
                    0 <= k < i ==> (#[trigger] self.traces.entries@[k]).1@ == fresh(
                        mid.traces.entries@[k].1@,
                        cutoff as int,
                    ),
                forall|k: int|
                    i <= k < self.traces.entries.len() ==> #[trigger] self.traces.entries@[k]
                        == mid.traces.entries@[k],
                *self == (TraceStore { traces: self.traces, ..mid }),
            decreases self.traces.entries.len() - i,
        {
            let ghost keys = self.traces.key_seq();
            let ghost was = self.traces.entries@;
            prune(&mut self.traces.entries[i].1, cutoff);
            proof {
                assert(self.traces.entries@ =~= was.update(
                    i as int,
                    (was[i as int].0, self.traces.entries@[i as int].1),
                ));
                assert(self.traces.key_seq() =~= keys);
            }
            i = i + 1;
        }
        proof {
            assert(self.traces@.dom() =~= mid.traces@.dom());
            assert forall|k: Seq<char>| #[trigger] self.series(k) == start.pushed(
                t,
                key@,
                value,
                k,
            ) by {
                if mid.traces@.contains_key(k) {
                    let j = choose|j: int|
                        0 <= j < mid.traces.key_seq().len() && mid.traces.key_seq()[j] == k;
                    assert(self.traces.key_seq()[j] == k);
                    mid.traces.entry_value(j);
                    self.traces.entry_value(j);
                } else {
                    assert(!start.traces@.contains_key(k));
                }
            }
        }
    }

    /// A flag is stored as one or zero.
    pub fn push_bool(&mut self, t: i64, key: &str, value: bool)
        requires
            old(self).wf(),
        ensures
            final(self).wf(),
            old(self).after_push(
                *final(self),
                t,
                key@,
                (Num { bits: if value { ONE_WORD } else { 0 } }),
            ),
    {
        let word: u64 = if value {
            ONE_WORD
        } else {
            0
        };
        self.push(t, key, Num { bits: word });
    }

    /// Keep the latest text of a channel.
    pub fn push_string(&mut self, t: i64, key: &str, value: &str)
        requires
            old(self).wf(),
        ensures
            final(self).wf(),
            old(self).after_string(*final(self), t, key@, value@),
    {
        self.see(t);
        let _ = self.nulls.remove(key);
        self.strings.insert(owned(key), owned(value));
    }

    /// Keep the latest value of a channel of integer vectors.
    pub fn push_vec_int(&mut self, t: i64, key: &str, values: Vec<i64>)
        requires
            old(self).wf(),
        ensures
            final(self).wf(),
            old(self).after_vec_int(*final(self), t, key@, values),
    {
        self.see(t);
        let _ = self.nulls.remove(key);
        self.vectors.insert(owned(key), values);
    }

    /// Put an entry behind those of a log, which keeps the last of them.
    pub fn push_text_log(&mut self, t: i64, key: &str, entry: TextLogEntry)
        requires
            old(self).wf(),
        ensures
            final(self).wf(),
            old(self).after_log(*final(self), t, key@, entry),
    {
        let ghost start = *self;
        self.see(t);
        let _ = self.nulls.remove(key);
        let mut log: Vec<TextLogEntry> = match self.logs.remove(key) {
            Some(v) => v,
            None => Vec::new(),
        };
        log.push(entry);
        let ghost all = log@;
        if log.len() > TEXT_LOG_CAPACITY {
            let from: usize = log.len() - TEXT_LOG_CAPACITY;
            let rest = log.split_off(from);
            log = rest;
            proof {
                assert(log@ =~= all.skip(from as int));
            }
        }
        self.logs.insert(owned(key), log);
        proof {
            assert(self.logs@.dom() =~= start.logs@.dom().insert(key@));
        }
    }

    /// The points of a channel, oldest first.
    pub fn points(&self, key: &str) -> (r: Vec<Point>)
        requires
            self.wf(),
        ensures
            r@ == self.series(key@),
    {
        let mut out: Vec<Point> = Vec::new();
        match self.traces.get(key) {
            Some(v) => {
                let mut i: usize = 0;
                while i < v.len()
                    invariant
                        i <= v.len(),
                        out@ =~= v@.take(i as int),
                    decreases v.len() - i,
                {
                    out.push(v[i]);
                    i = i + 1;
                }
            },
            None => {},
        }
        out
    }

    /// The latest value of a channel.
    pub fn latest(&self, key: &str) -> (r: Option<Num>)
        requires
            self.wf(),
        ensures
            r is Some <==> self.series(key@).len() > 0,
            r is Some ==> r->0 == self.series(key@).last().value,
    {
        match self.traces.get(key) {
            Some(v) => if v.len() == 0 {
                None
            } else {
                Some(v[v.len() - 1].value)
            },
            None => None,
        }
    }

    /// The latest text of a channel.
    pub fn latest_string(&self, key: &str) -> (r: Option<&String>)
        requires
            self.wf(),
        ensures
            r is Some <==> self.strings@.contains_key(key@),
            r is Some ==> *r->0 == self.strings@[key@],
    {
        self.strings.get(key)
    }

    /// The latest vector of a channel of integer vectors.
    pub fn latest_vec_int(&self, key: &str) -> (r: Option<&Vec<i64>>)
        requires
            self.wf(),
        ensures
            r is Some <==> self.vectors@.contains_key(key@),
            r is Some ==> *r->0 == self.vectors@[key@],
    {
        self.vectors.get(key)
    }

    /// A copy of the entries of a log, oldest first.
    pub fn text_log_owned(&self, key: &str) -> (r: Vec<TextLogEntry>)
        requires
            self.wf(),
        ensures
            r.len() == self.log(key@).len(),
            forall|i: int|
                0 <= i < r.len() ==> (#[trigger] r@[i]).text@ == self.log(key@)[i].text@ && r@[i].ts
                    == self.log(key@)[i].ts && r@[i].severity == self.log(key@)[i].severity,
    {
        let mut out: Vec<TextLogEntry> = Vec::new();
        match self.logs.get(key) {
            Some(v) => {
                let mut i: usize = 0;
                while i < v.len()
                    invariant
                        i <= v.len(),
                        out.len() == i,
                        forall|k: int|
                            0 <= k < i ==> (#[trigger] out@[k]).text@ == v@[k].text@ && out@[k].ts
                                == v@[k].ts && out@[k].severity == v@[k].severity,
                    decreases v.len() - i,
                {
                    out.push(
                        TextLogEntry {
                            ts: v[i].ts,
                            text: v[i].text.clone(),
                            severity: v[i].severity,
                        },
                    );
                    i = i + 1;
                }
            },
            None => {},
        }
        out
    }

    /// Does a log hold an entry?
    pub fn has_log(&self, key: &str) -> (r: bool)
        requires
            self.wf(),
        ensures
            r == (self.log(key@).len() > 0),
    {
        match self.logs.get(key) {
            Some(v) => v.len() > 0,
            None => false,
        }
    }

    /// The smallest and the largest value of a channel.
    pub fn min_max(&self, key: &str) -> (r: Option<(Num, Num)>)
        requires
            self.wf(),
        ensures
            r is Some <==> self.series(key@).len() > 0,
            r is Some ==> r->0 == (lowest(self.series(key@)), highest(self.series(key@))),
    {
        match self.traces.get(key) {
            None => None,
            Some(v) => {
                if v.len() == 0 {
                    return None;
                }
                let mut lo: Num = v[0].value;
                let mut hi: Num = v[0].value;
                let mut i: usize = 1;
                while i < v.len()
                    invariant
                        1 <= i <= v.len(),
                        lo == lowest(v@.take(i as int)),
                        hi == highest(v@.take(i as int)),
                    decreases v.len() - i,
                {
                    proof {
                        assert(v@.take(i + 1).drop_last() =~= v@.take(i as int));
                    }
                    let x: Num = v[i].value;
                    if x.is_below(lo) {
                        lo = x;
                    }
                    if hi.is_below(x) {
                        hi = x;
                    }
                    i = i + 1;
                }
                proof {
                    assert(v@.take(v.len() as int) =~= v@);
                }
                Some((lo, hi))
            },
        }
    }

    /// The channels that have had a value, in alphabetical order.
    pub fn keys(&self) -> (r: Vec<String>)
        requires
            self.wf(),
        ensures
            ascending(texts(r@)),
            forall|k: Seq<char>| #[trigger] texts(r@).contains(k) <==> self.known(k),
    {
        let mut all: KeySet = KeyMap::new();
        add_keys(&mut all, &self.traces);
        add_keys(&mut all, &self.strings);
        add_keys(&mut all, &self.logs);
        add_keys(&mut all, &self.vectors);
        let r = all.keys();
        proof {
            assert forall|k: Seq<char>| #[trigger] texts(r@).contains(k) <==> self.known(k) by {
                assert(all@.contains_key(k) <==> all@.dom().contains(k));
            }
        }
        r
    }

    /// Take note of a channel that was announced without a value. One that has
    /// had a value is left as it is.
    pub fn note_null_key(&mut self, key: &str)
        requires
            old(self).wf(),
        ensures
            final(self).wf(),
            old(self).after_null(*final(self), key@),
    {
        if self.traces.contains_key(key) || self.strings.contains_key(key) || self.logs.contains_key(
            key,
        ) || self.vectors.contains_key(key) {
            return ;
        }
        self.nulls.insert(owned(key), ());
    }

    /// The channels that were announced and have had no value yet.
    pub fn null_keys(&self) -> (r: &KeySet)
        ensures
            *r == self.nulls,
    {
        &self.nulls
    }

    /// The channel with the most points; of several, the first in the alphabet.
    pub fn busiest_key(&self) -> (r: Option<String>)
        requires
            self.wf(),
        ensures
            r is None <==> self.traces.entries.len() == 0,
            r is Some ==> {
                let b = r->0@;
                &&& self.traces@.contains_key(b)
                &&& forall|k: Seq<char>|
                    self.traces@.contains_key(k) && k != b ==> (#[trigger] self.series(k)).len()
                        < self.series(b).len() || (self.series(k).len() == self.series(b).len()
                        && precedes(b, k))
            },
    {
        if self.traces.entries.len() == 0 {
            return None;
        }
        let mut best: usize = 0;
        let mut i: usize = 1;
        while i < self.traces.entries.len()
            invariant
                best < i <= self.traces.entries.len(),
                forall|k: int|
                    0 <= k < i && k != best ==> (#[trigger] self.traces.entries@[k]).1.len()
                        < self.traces.entries@[best as int].1.len() || (k > best
                        && self.traces.entries@[k].1.len()
                        == self.traces.entries@[best as int].1.len()),
            decreases self.traces.entries.len() - i,
        {
            if self.traces.entries[i].1.len() > self.traces.entries[best].1.len() {
                best = i;
            }
            i = i + 1;
        }
        proof {
            let b = self.traces.entries@[best as int].0@;
            self.traces.entry_value(best as int);
            assert forall|k: Seq<char>| self.traces@.contains_key(k) && k != b implies (
            #[trigger] self.series(k)).len() < self.series(b).len() || (self.series(k).len()
                == self.series(b).len() && precedes(b, k)) by {
                let ks = self.traces.key_seq();
                let j = choose|j: int| 0 <= j < ks.len() && ks[j] == k;
                self.traces.entry_value(j);
                assert(self.traces.entries@[j].0@ == k);
                assert(ks[best as int] == b);
                if j > best {
                    assert(precedes(ks[best as int], ks[j]));
                }
            }
        }
        Some(self.traces.entries[best].0.clone())
    }

    /// The number of points of a channel.
    pub fn len(&self, key: &str) -> (r: usize)
        requires
            self.wf(),
        ensures
            r == self.series(key@).len(),
    {
        match self.traces.get(key) {
            Some(v) => v.len(),
            None => 0,
        }
    }

    /// Is there no point in any channel?
    pub fn is_empty(&self) -> (r: bool)
        requires
            self.wf(),
        ensures
            r <==> forall|k: Seq<char>| (#[trigger] self.series(k)).len() == 0,
    {
        let mut i: usize = 0;
        while i < self.traces.entries.len()
            invariant
                self.wf(),
                i <= self.traces.entries.len(),
                forall|k: int|
                    0 <= k < i ==> (#[trigger] self.traces.entries@[k]).1.len() == 0,
            decreases self.traces.entries.len() - i,
        {
            if self.traces.entries[i].1.len() > 0 {
                proof {
                    self.traces.entry_value(i as int);
                    assert(self.series(self.traces.entries@[i as int].0@).len() > 0);
                }
                return false;
            }
            i = i + 1;
        }
        proof {
            assert forall|k: Seq<char>| (#[trigger] self.series(k)).len() == 0 by {
                if self.traces@.contains_key(k) {
                    let ks = self.traces.key_seq();
                    let j = choose|j: int| 0 <= j < ks.len() && ks[j] == k;
                    self.traces.entry_value(j);
                    assert(self.traces.entries@[j].0@ == k);
                }
            }
        }
        true
    }

    /// The latest time seen on any channel.
    pub fn latest_ts(&self) -> (r: Option<i64>)
        ensures
            r == self.latest,
    {
        self.latest
    }

    /// The vectors that three channels make, item by item, up to the shortest of
    /// them, with the times of the first.
    pub fn vec3(&self, kx: &str, ky: &str, kz: &str) -> (r: Vec<(i64, [Num; 3])>)
        requires
            self.wf(),
        ensures
            aligned3(r@, self.series(kx@), self.series(ky@), self.series(kz@)),
    {
        let a = self.points(kx);
        let b = self.points(ky);
        let c = self.points(kz);
        let mut out: Vec<(i64, [Num; 3])> = Vec::new();
        let mut i: usize = 0;
        while i < a.len() && i < b.len() && i < c.len()
            invariant
                i <= a.len(),
                i <= b.len(),
                i <= c.len(),
                out.len() == i,
                forall|k: int|
                    0 <= k < i ==> (#[trigger] out@[k]).0 == a@[k].t && out@[k].1@ == seq![
                        a@[k].value,
                        b@[k].value,
                        c@[k].value,
                    ],
            decreases a.len() - i,
        {
            let v: [Num; 3] = [a[i].value, b[i].value, c[i].value];
            proof {
                assert(v@ =~= seq![a@[i as int].value, b@[i as int].value, c@[i as int].value]);
            }
            out.push((a[i].t, v));
            i = i + 1;
        }
        out
    }

    /// As `vec3`, of four channels.
    pub fn vec4(&self, k0: &str, k1: &str, k2: &str, k3: &str) -> (r: Vec<(i64, [Num; 4])>)
        requires
            self.wf(),
        ensures
            aligned4(
                r@,
                self.series(k0@),
                self.series(k1@),
                self.series(k2@),
                self.series(k3@),
            ),
    {
        let a = self.points(k0);
        let b = self.points(k1);
        let c = self.points(k2);
        let d = self.points(k3);
        let mut out: Vec<(i64, [Num; 4])> = Vec::new();
        let mut i: usize = 0;
        while i < a.len() && i < b.len() && i < c.len() && i < d.len()
            invariant
                i <= a.len(),
                i <= b.len(),
                i <= c.len(),
                i <= d.len(),
                out.len() == i,
                forall|k: int|
                    0 <= k < i ==> (#[trigger] out@[k]).0 == a@[k].t && out@[k].1@ == seq![
                        a@[k].value,
                        b@[k].value,
                        c@[k].value,
                        d@[k].value,
                    ],
            decreases a.len() - i,
        {
            let v: [Num; 4] = [a[i].value, b[i].value, c[i].value, d[i].value];
            proof {
                assert(v@ =~= seq![
                    a@[i as int].value,
                    b@[i as int].value,
                    c@[i as int].value,
                    d@[i as int].value,
                ]);
            }
            out.push((a[i].t, v));
            i = i + 1;
        }
        out
    }
}

/// The smaller of two lengths.
pub open spec fn shorter(a: nat, b: nat) -> nat {
    if a < b {
        a
    } else {
        b
    }
}

/// Is `r` three series taken side by side, up to the shortest, with the times of
/// the first?
pub open spec fn aligned3(
    r: Seq<(i64, [Num; 3])>,
    a: Seq<Point>,
    b: Seq<Point>,
    c: Seq<Point>,
) -> bool {
    &&& r.len() == shorter(a.len(), shorter(b.len(), c.len()))
    &&& forall|k: int|
        0 <= k < r.len() ==> (#[trigger] r[k]).0 == a[k].t && r[k].1@ == seq![
            a[k].value,
            b[k].value,
            c[k].value,
        ]
}

/// Is `r` four series taken side by side, up to the shortest, with the times of
/// the first?
pub open spec fn aligned4(
    r: Seq<(i64, [Num; 4])>,
    a: Seq<Point>,
    b: Seq<Point>,
    c: Seq<Point>,
    d: Seq<Point>,
) -> bool {
    &&& r.len() == shorter(a.len(), shorter(b.len(), shorter(c.len(), d.len())))
    &&& forall|k: int|
        0 <= k < r.len() ==> (#[trigger] r[k]).0 == a[k].t && r[k].1@ == seq![
            a[k].value,
            b[k].value,
            c[k].value,
            d[k].value,
        ]
}

/// Add the keys of a map to a set.
pub fn add_keys<V>(all: &mut KeySet, m: &KeyMap<V>)
    requires
        old(all).wf(),
        m.wf(),
    ensures
        final(all).wf(),
        final(all)@.dom() == old(all)@.dom().union(m@.dom()),
{
    let ghost start = all@.dom();
    let mut i: usize = 0;
    while i < m.entries.len()
        invariant
            all.wf(),
            m.wf(),
            i <= m.entries.len(),
            forall|k: Seq<char>| #[trigger]
                all@.dom().contains(k) <==> start.contains(k) || m.key_seq().take(i as int).contains(
                    k,
                ),
        decreases m.entries.len() - i,
    {
        all.insert(m.entries[i].0.clone(), ());
        proof {
            let ks = m.key_seq();
            assert(ks[i as int] == m.entries@[i as int].0@);
            assert(ks.take(i + 1) =~= ks.take(i as int).push(ks[i as int]));
            assert forall|k: Seq<char>| #[trigger] all@.dom().contains(k) <==> start.contains(k)
                || ks.take(i + 1).contains(k) by {
                if ks.take(i as int).contains(k) {
                    let so_far = ks.take(i as int);
                    let j = choose|j: int| 0 <= j < so_far.len() && so_far[j] == k;
                    assert(ks.take(i + 1)[j] == k);
                }
                if k == ks[i as int] {
                    assert(ks.take(i + 1)[i as int] == k);
                }
                if ks.take(i + 1).contains(k) && k != ks[i as int] {
                    let more = ks.take(i + 1);
                    let j = choose|j: int| 0 <= j < more.len() && more[j] == k;
                    assert(ks.take(i as int)[j] == k);
                }
            }
        }
        i = i + 1;
    }
    proof {
        assert(m.key_seq().take(m.entries.len() as int) =~= m.key_seq());
        assert(all@.dom() =~= start.union(m@.dom()));
    }
}

// ---------------------------------------------------------------- many stores

/// The stores that panels read from: one for all, or one for each drone.
pub enum StoresView<'a> {
    Single { store: &'a TraceStore },
    Multi {
        stores: &'a KeyMap<TraceStore>,
        uri_to_drone: &'a KeyMap<String>,
        view_drone: &'a str,
        empty: &'a TraceStore,
    },
}

/// An optional pin, if it names anything.
pub open spec fn pin(o: Option<Seq<char>>) -> Option<Seq<char>> {
    match o {
        Some(s) => if s.len() == 0 {
            None
        } else {
            Some(s)
        },
        None => None,
    }
}

impl<'a> StoresView<'a> {
    /// Every map is in key order, and so are the stores.
    pub open spec fn wf(self) -> bool {
        match self {
            StoresView::Single { store } => store.wf(),
            StoresView::Multi { stores, uri_to_drone, view_drone: _, empty } => {
                &&& stores.wf()
                &&& uri_to_drone.wf()
                &&& empty.wf()
                &&& forall|k: Seq<char>| stores@.contains_key(k) ==> (#[trigger] stores@[k]).wf()
            },
        }
    }

    /// The store of the drone on view; the empty one if that has none.
    pub open spec fn on_view(self) -> TraceStore {
        match self {
            StoresView::Single { store } => *store,
            StoresView::Multi { stores, uri_to_drone: _, view_drone, empty } => if stores@.contains_key(
                view_drone@,
            ) {
                stores@[view_drone@]
            } else {
                *empty
            },
        }
    }

    /// The store of the drone behind a connected source, where it is known and has
    /// a store; else that of the drone on view.
    pub open spec fn behind_uri(self, uri: Option<Seq<char>>) -> TraceStore {
        match self {
            StoresView::Single { store } => *store,
            StoresView::Multi { stores, uri_to_drone, view_drone: _, empty: _ } => match pin(uri) {
                Some(u) => if uri_to_drone@.contains_key(u) && stores@.contains_key(
                    uri_to_drone@[u]@,
                ) {
                    stores@[uri_to_drone@[u]@]
                } else {
                    self.on_view()
                },
                None => self.on_view(),
            },
        }
    }

    /// The store that a pinned source reads from: the pinned drone's where it has
    /// one, else that behind the pinned connection, else that on view.
    pub open spec fn behind_pins(self, drone: Option<Seq<char>>, uri: Option<Seq<char>>) -> TraceStore {
        match self {
            StoresView::Single { store } => *store,
            StoresView::Multi { stores, uri_to_drone: _, view_drone: _, empty: _ } => match pin(
                drone,
            ) {
                Some(d) => if stores@.contains_key(d) {
                    stores@[d]
                } else {
                    self.behind_uri(uri)
                },
                None => self.behind_uri(uri),
            },
        }
    }

    /// All panels read from one store, whatever their pins.
    pub fn single(store: &'a TraceStore, _uri_to_drone: &'a KeyMap<String>) -> (r: StoresView<'a>)
        ensures
            r == (StoresView::Single { store }),
    {
        StoresView::Single { store }
    }

    /// Each drone has its store.
    pub fn multi(
        stores: &'a KeyMap<TraceStore>,
        uri_to_drone: &'a KeyMap<String>,
        view_drone: &'a str,
        empty: &'a TraceStore,
    ) -> (r: StoresView<'a>)
        ensures
            r == (StoresView::Multi { stores, uri_to_drone, view_drone, empty }),
    {
        StoresView::Multi { stores, uri_to_drone, view_drone, empty }
    }

    /// The store of the drone on view; the empty one if that has none.
    pub fn view_store(&self) -> (r: &'a TraceStore)
        requires
            self.wf(),
        ensures
            *r == self.on_view(),
            r.wf(),
    {
        match *self {
            StoresView::Single { store } => store,
            StoresView::Multi { stores, uri_to_drone: _, view_drone, empty } => match stores.get(
                view_drone,
            ) {
                Some(s) => s,
                None => empty,
            },
        }
    }

    /// The store behind a connected source.
    pub fn for_uri(&self, uri: Option<&str>) -> (r: &'a TraceStore)
        requires
            self.wf(),
        ensures
            *r == self.behind_uri(
                match uri {
                    Some(u) => Some(u@),
                    None => None,
                },
            ),
            r.wf(),
    {
        match *self {
            StoresView::Single { store } => {
                return store;
            },
            StoresView::Multi { stores, uri_to_drone, view_drone: _, empty: _ } => {
                match uri {
                    Some(u) => {
                        if !u.is_empty() {
                            match uri_to_drone.get(u) {
                                Some(d) => {
                                    match stores.get(d.as_str()) {
                                        Some(s) => {
                                            return s;
                                        },
                                        None => {},
                                    }
                                },
                                None => {},
                            }
                        }
                    },
                    None => {},
                }
            },
        }
        self.view_store()
    }

    /// The store that a panel's source reads from.
    pub fn for_source(&self, src: &CellSource) -> (r: &'a TraceStore)
        requires
            self.wf(),
        ensures
            *r == self.behind_pins(
                match src.source_drone {
                    Some(d) => Some(d@),
                    None => None,
                },
                match src.source_uri {
                    Some(u) => Some(u@),
                    None => None,
                },
            ),
            r.wf(),
    {
        match *self {
            StoresView::Single { store } => {
                return store;
            },
            StoresView::Multi { stores, uri_to_drone: _, view_drone: _, empty: _ } => {
                match &src.source_drone {
                    Some(d) => {
                        if !d.as_str().is_empty() {
                            match stores.get(d.as_str()) {
                                Some(s) => {
                                    return s;
                                },
                                None => {},
                            }
                        }
                    },
                    None => {},
                }
            },
        }
        match &src.source_uri {
            Some(u) => self.for_uri(Some(u.as_str())),
            None => self.for_uri(None),
        }
    }

    /// All the stores, in the order of their drones' names.
    pub fn iter_all_stores(&self) -> (r: Vec<&'a TraceStore>)
        requires
            self.wf(),
        ensures
            match *self {
                StoresView::Single { store } => r@ == seq![store],
                StoresView::Multi { stores, uri_to_drone: _, view_drone: _, empty: _ } => {
                    &&& r.len() == stores.entries.len()
                    &&& forall|i: int|
                        0 <= i < r.len() ==> *(#[trigger] r@[i]) == stores.entries@[i].1
                },
            },
    {
        let mut out: Vec<&'a TraceStore> = Vec::new();
        match *self {
            StoresView::Single { store } => {
                out.push(store);
                proof {
                    assert(out@ =~= seq![store]);
                }
            },
            StoresView::Multi { stores, uri_to_drone: _, view_drone: _, empty: _ } => {
                let mut i: usize = 0;
                while i < stores.entries.len()
                    invariant
                        i <= stores.entries.len(),
                        out.len() == i,
                        forall|k: int| 0 <= k < i ==> *(#[trigger] out@[k]) == stores.entries@[k].1,
                    decreases stores.entries.len() - i,
                {
                    out.push(&stores.entries[i].1);
                    i = i + 1;
                }
            },
        }
        out
    }
}

/// A panel pinned to a drone that has a store reads from it, whichever drone is on
/// view and whatever its other pin says.
pub proof fn drone_pin_wins(
    stores: &KeyMap<TraceStore>,
    uris: &KeyMap<String>,
    view_a: &str,
    view_b: &str,
    empty: &TraceStore,
    drone: Seq<char>,
    uri: Option<Seq<char>>,
)
    requires
        drone.len() > 0,
        stores@.contains_key(drone),
    ensures
        (StoresView::Multi { stores, uri_to_drone: uris, view_drone: view_a, empty }).behind_pins(
            Some(drone),
            uri,
        ) == stores@[drone],
        (StoresView::Multi { stores, uri_to_drone: uris, view_drone: view_a, empty }).behind_pins(
            Some(drone),
            uri,
        ) == (StoresView::Multi {
            stores,
            uri_to_drone: uris,
            view_drone: view_b,
            empty,
        }).behind_pins(Some(drone), uri),
{
}

proof fn lemma_fresh(s: Seq<Point>, cutoff: int)
    ensures
        fresh(s, cutoff).len() <= s.len(),
        forall|i: int| 0 <= i < fresh(s, cutoff).len() ==> (#[trigger] fresh(s, cutoff)[i]).t >= cutoff,
        forall|p: Point| #[trigger]
            fresh(s, cutoff).contains(p) <==> s.contains(p) && p.t >= cutoff,
        s.len() > 0 && s.last().t >= cutoff ==> fresh(s, cutoff).len() > 0 && fresh(
            s,
            cutoff,
        ).last() == s.last(),
    decreases s.len(),
{
    reveal(Seq::filter);
    let f = fresh(s, cutoff);
    if s.len() > 0 {
        let t = s.drop_last();
        let g = fresh(t, cutoff);
        lemma_fresh(t, cutoff);
        assert forall|p: Point| #[trigger] f.contains(p) <==> s.contains(p) && p.t >= cutoff by {
            if s.contains(p) {
                let i = choose|i: int| 0 <= i < s.len() && s[i] == p;
                if i < t.len() {
                    assert(t[i] == p);
                    assert(t.contains(p));
                    if p.t >= cutoff {
                        assert(g.contains(p));
                        let j = choose|j: int| 0 <= j < g.len() && g[j] == p;
                        assert(f[j] == p);
                    }
                } else if p.t >= cutoff {
                    assert(f[f.len() - 1] == p);
                }
            }
            if f.contains(p) {
                let j = choose|j: int| 0 <= j < f.len() && f[j] == p;
                if j < g.len() {
                    assert(g[j] == p);
                    assert(g.contains(p));
                    let i = choose|i: int| 0 <= i < t.len() && t[i] == p;
                    assert(s[i] == p);
                } else {
                    assert(s[s.len() - 1] == p);
                }
            }
        }
    }
}

/// What is kept of a channel is never older than the window: pruning drops every
/// point that is, and no other.
pub proof fn points_stay_within_the_window(
    s: TraceStore,
    next: TraceStore,
    t: i64,
    key: Seq<char>,
    value: Num,
    k: Seq<char>,
)
    requires
        s.after_push(next, t, key, value),
    ensures
        forall|i: int|
            0 <= i < next.series(k).len() ==> (#[trigger] next.series(k)[i]).t >= next.latest->0
                - next.window_us,
        forall|p: Point|
            s.series(k).contains(p) && p.t >= next.latest->0 - next.window_us
                ==> #[trigger] next.series(k).contains(p),
{
    let cutoff = later(s.latest, t) - s.window_us;
    let grown = if k == key {
        s.series(k).push(Point { t, value })
    } else {
        s.series(k)
    };
    lemma_fresh(grown, cutoff);
    assert(next.series(k) == s.pushed(t, key, value, k));
    assert forall|p: Point|
        s.series(k).contains(p) && p.t >= next.latest->0 - next.window_us implies #[trigger] next.series(
        k,
    ).contains(p) by {
        let i = choose|i: int| 0 <= i < s.series(k).len() && s.series(k)[i] == p;
        assert(grown[i] == p);
        assert(grown.contains(p));
    }
}

/// What is pushed can be read: a point within the window becomes the newest of its
/// channel.
pub proof fn pushed_points_can_be_read(
    s: TraceStore,
    next: TraceStore,
    t: i64,
    key: Seq<char>,
    value: Num,
)
    requires
        s.after_push(next, t, key, value),
    ensures
        t >= next.latest->0 - next.window_us ==> next.series(key).len() > 0 && next.series(key).last()
            == (Point { t, value }),
{
    let cutoff = later(s.latest, t) - s.window_us;
    lemma_fresh(s.series(key).push(Point { t, value }), cutoff);
    assert(next.series(key) == s.pushed(t, key, value, key));
}

/// A channel is announced or has had a value, never both, whatever comes in.
pub proof fn values_end_the_announcement(
    s: TraceStore,
    next: TraceStore,
    t: i64,
    key: Seq<char>,
    value: Num,
    text: Seq<char>,
    vector: Vec<i64>,
    entry: TextLogEntry,
)
    requires
        s.apart(),
        s.after_push(next, t, key, value) || s.after_string(next, t, key, text) || s.after_vec_int(
            next,
            t,
            key,
            vector,
        ) || s.after_log(next, t, key, entry) || s.after_null(next, key),
    ensures
        next.apart(),
        !s.after_null(next, key) ==> next.known(key),
{
    assert forall|k: Seq<char>| #[trigger] next.nulls@.contains_key(k) implies !next.known(k) by {
        if s.nulls@.contains_key(k) {
            assert(!s.known(k));
        }
        assert(next.traces@.contains_key(k) <==> next.traces@.dom().contains(k));
        assert(next.strings@.contains_key(k) <==> next.strings@.dom().contains(k));
        assert(next.logs@.contains_key(k) <==> next.logs@.dom().contains(k));
        assert(next.vectors@.contains_key(k) <==> next.vectors@.dom().contains(k));
    }
    assert(next.traces@.contains_key(key) <==> next.traces@.dom().contains(key));
    assert(next.strings@.contains_key(key) <==> next.strings@.dom().contains(key));
    assert(next.logs@.contains_key(key) <==> next.logs@.dom().contains(key));
    assert(next.vectors@.contains_key(key) <==> next.vectors@.dom().contains(key));
}

} // verus!
