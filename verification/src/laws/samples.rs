//! Samples: where they go and what is kept of them.
use vstd::prelude::*;

use crate::fleet::{
    after_ingest, after_sample, component_chain, entry_chain, indexed, raw_name, Fleet, Routed,
    Sample, SampleValue,
};
use crate::num::Num;
use crate::store::{fresh, later, Point, TextLogEntry, TraceStore, TEXT_LOG_CAPACITY};
use crate::template::opt_text;
use crate::text::{dec, printing_can_be_read_back, texts};

verus! {

// ---------------------------------------------------------------- values

/// The time before which points are dropped once a value has come at `t`.
pub open spec fn horizon(s: TraceStore, t: i64) -> int {
    (if s.latest is Some && s.latest->0 > t {
        s.latest->0 as int
    } else {
        t as int
    }) - s.window_us
}

/// A number is put behind the points of its channel, and what is older than the window
/// goes from every channel; texts, logs and vectors stay.
pub proof fn numbers_are_put_behind_the_others(
    s: TraceStore,
    next: TraceStore,
    t: i64,
    key: Seq<char>,
    x: Num,
    other: Seq<char>,
)
    requires
        after_sample(s, next, t, key, SampleValue::Scalar(x)),
        !x.nan(),
        other != key,
    ensures
        next.series(key) == s.series(key).push(Point { t, value: x }).filter(
            |p: Point| p.t >= horizon(s, t),
        ),
        next.series(other) == s.series(other).filter(|p: Point| p.t >= horizon(s, t)),
        next.latest is Some && next.latest->0 >= t && (s.latest is Some ==> next.latest->0
            >= s.latest->0),
        next.latest->0 == t || s.latest == next.latest,
        next.strings@ == s.strings@,
        next.logs@ == s.logs@,
        next.vectors@ == s.vectors@,
        !next.nulls@.contains_key(key),
        next.nulls@.contains_key(other) <==> s.nulls@.contains_key(other),
{
    assert(next.series(key) == s.pushed(t, key, x, key));
    assert(next.series(other) == s.pushed(t, key, x, other));
    let f = |p: Point| p.t >= horizon(s, t);
    let g = |p: Point| p.t >= later(s.latest, t) - s.window_us;
    assert(f =~= g);
}

/// A flag is stored as the number one where it is set, and as zero where it is not.
pub proof fn flags_are_stored_as_one_and_zero(
    s: TraceStore,
    next: TraceStore,
    t: i64,
    key: Seq<char>,
    b: bool,
)
    requires
        after_sample(s, next, t, key, SampleValue::Bool(b)),
        t >= horizon(s, t),
    ensures
        next.series(key).len() > 0,
        next.series(key).last().t == t,
        b ==> next.series(key).last().value.bits == 0x3FF0_0000_0000_0000,
        !b ==> next.series(key).last().value.bits == 0,
{
    let v = Num { bits: if b { 0x3FF0_0000_0000_0000u64 } else { 0 } };
    assert(next.series(key) == s.pushed(t, key, v, key));
    crate::store::pushed_points_can_be_read(s, next, t, key, v);
}

/// A channel that is announced without a value, or with a number that is none, is noted
/// unless it has had a value; no value of any channel changes.
pub proof fn announcements_change_no_value(
    s: TraceStore,
    next: TraceStore,
    t: i64,
    key: Seq<char>,
    v: SampleValue,
    other: Seq<char>,
)
    requires
        v is Null || (v is Scalar && v->Scalar_0.nan()),
        after_sample(s, next, t, key, v),
        other != key,
    ensures
        next.traces@ == s.traces@,
        next.strings@ == s.strings@,
        next.logs@ == s.logs@,
        next.vectors@ == s.vectors@,
        next.latest == s.latest,
        next.nulls@.contains_key(key) <==> s.nulls@.contains_key(key) || !(s.traces@.contains_key(key)
            || s.strings@.contains_key(key) || s.logs@.contains_key(key) || s.vectors@.contains_key(
            key,
        )),
        next.nulls@.contains_key(other) <==> s.nulls@.contains_key(other),
{
    assert(next.nulls@.contains_key(key) <==> next.nulls@.dom().contains(key));
    assert(next.nulls@.contains_key(other) <==> next.nulls@.dom().contains(other));
}

/// A text is the latest text of its channel; those of other channels, and all numbers,
/// stay.
pub proof fn texts_replace_the_one_before(
    s: TraceStore,
    next: TraceStore,
    t: i64,
    key: Seq<char>,
    x: String,
    other: Seq<char>,
)
    requires
        after_sample(s, next, t, key, SampleValue::Text(x)),
        other != key,
    ensures
        next.strings@.contains_key(key) && next.strings@[key]@ == x@,
        next.strings@.contains_key(other) <==> s.strings@.contains_key(other),
        s.strings@.contains_key(other) ==> next.strings@[other] == s.strings@[other],
        next.traces@ == s.traces@,
        next.logs@ == s.logs@,
        !next.nulls@.contains_key(key),
{
    assert(next.strings@.contains_key(key) <==> next.strings@.dom().contains(key));
    assert(next.strings@.contains_key(other) <==> next.strings@.dom().contains(other));
}

/// A vector of integers is the latest of its channel; all others stay.
pub proof fn integer_vectors_replace_the_one_before(
    s: TraceStore,
    next: TraceStore,
    t: i64,
    key: Seq<char>,
    v: Vec<i64>,
    other: Seq<char>,
)
    requires
        after_sample(s, next, t, key, SampleValue::IntVector(v)),
        other != key,
    ensures
        next.vectors@.contains_key(key) && next.vectors@[key] == v,
        next.vectors@.contains_key(other) <==> s.vectors@.contains_key(other),
        s.vectors@.contains_key(other) ==> next.vectors@[other] == s.vectors@[other],
        next.traces@ == s.traces@,
        next.strings@ == s.strings@,
{
}

// ---------------------------------------------------------------- vectors

proof fn lemma_filter_push(s: Seq<Point>, p: Point, cut: int)
    ensures
        fresh(fresh(s, cut).push(p), cut) == fresh(s.push(p), cut),
        fresh(fresh(s, cut), cut) == fresh(s, cut),
    decreases s.len(),
{
    reveal(Seq::filter);
    lemma_filter_twice(s, cut);
    assert(fresh(s, cut).push(p).drop_last() =~= fresh(s, cut));
    assert(s.push(p).drop_last() =~= s);
}

proof fn lemma_filter_twice(s: Seq<Point>, cut: int)
    ensures
        fresh(fresh(s, cut), cut) == fresh(s, cut),
    decreases s.len(),
{
    reveal(Seq::filter);
    if s.len() > 0 {
        lemma_filter_twice(s.drop_last(), cut);
        let f = fresh(s.drop_last(), cut);
        assert(f.push(s.last()).drop_last() =~= f);
    }
}

proof fn lemma_indices_differ(key: Seq<char>, i: int, j: int)
    requires
        0 <= i,
        0 <= j,
        i != j,
    ensures
        indexed(key, i) != indexed(key, j),
{
    reveal_strlit("[");
    reveal_strlit("]");
    let (a, b) = (indexed(key, i), indexed(key, j));
    if a == b {
        let n = key.len() as int + 1;
        assert(a.subrange(n, a.len() - 1) =~= dec(i as nat));
        assert(b.subrange(n, b.len() - 1) =~= dec(j as nat));
        printing_can_be_read_back(i as nat);
        printing_can_be_read_back(j as nat);
    }
}

proof fn lemma_chain(
    chain: Seq<TraceStore>,
    s: TraceStore,
    next: TraceStore,
    t: i64,
    key: Seq<char>,
    values: Seq<Num>,
    n: int,
    k: Seq<char>,
    i: int,
)
    requires
        component_chain(chain, s, next, t, key, values),
        0 <= n <= values.len(),
        (0 <= i < values.len() && k == indexed(key, i)) || (i == -1 && forall|j: int|
            0 <= j < values.len() ==> k != #[trigger] indexed(key, j)),
    ensures
        n > 0 ==> chain[n].latest == Some(later(s.latest, t)),
        n == 0 ==> chain[n] == s,
        chain[n].window_us == s.window_us,
        n > 0 ==> chain[n].series(k) == fresh(
            if 0 <= i < n {
                s.series(k).push(Point { t, value: values[i] })
            } else {
                s.series(k)
            },
            later(s.latest, t) - s.window_us,
        ),
    decreases n,
{
    if n > 0 {
        lemma_chain(chain, s, next, t, key, values, n - 1, k, i);
        let (a, b) = (chain[n - 1], chain[n]);
        let cut = later(s.latest, t) - s.window_us;
        assert(a.after_push(b, t, indexed(key, n - 1), values[n - 1]));
        assert(b.series(k) == a.pushed(t, indexed(key, n - 1), values[n - 1], k));
        let p = Point { t, value: values[n - 1] };
        lemma_filter_push(s.series(k), p, cut);
        if 0 <= i < n - 1 {
            lemma_indices_differ(key, i, n - 1);
            lemma_filter_push(s.series(k).push(Point { t, value: values[i] }), p, cut);
        } else if i >= n {
            lemma_indices_differ(key, i, n - 1);
        }
    }
}

/// Each component of a vector is put behind the points of the channel with its index, and
/// no other channel gets a point.
pub proof fn components_go_to_the_channels_with_their_index(
    s: TraceStore,
    next: TraceStore,
    t: i64,
    key: Seq<char>,
    v: Vec<Num>,
    i: int,
    other: Seq<char>,
)
    requires
        after_sample(s, next, t, key, SampleValue::Vector(v)),
        0 <= i < v.len(),
        forall|j: int|
            0 <= j < v.len() ==> other != key + "["@ + #[trigger] dec(j as nat) + "]"@,
    ensures
        next.series(key + "["@ + dec(i as nat) + "]"@) == s.series(
            key + "["@ + dec(i as nat) + "]"@,
        ).push(Point { t, value: v@[i] }).filter(|p: Point| p.t >= horizon(s, t)),
        next.series(other) == s.series(other).filter(|p: Point| p.t >= horizon(s, t)),
{
    let f = |p: Point| p.t >= horizon(s, t);
    let g = |p: Point| p.t >= later(s.latest, t) - s.window_us;
    assert(f =~= g);
    let chain = choose|chain: Seq<TraceStore>| component_chain(chain, s, next, t, key, v@);
    let n = v.len() as int;
    lemma_chain(chain, s, next, t, key, v@, n, indexed(key, i), i);
    assert forall|j: int| 0 <= j < v.len() implies other != #[trigger] indexed(key, j) by {
        assert(other != key + "["@ + dec(j as nat) + "]"@);
    }
    lemma_chain(chain, s, next, t, key, v@, n, other, -1);
    assert(chain[n] == next);
}

// ---------------------------------------------------------------- logs

/// The end of a list, as much as a log keeps.
spec fn tail(s: Seq<TextLogEntry>) -> Seq<TextLogEntry> {
    if s.len() > TEXT_LOG_CAPACITY {
        s.skip(s.len() - TEXT_LOG_CAPACITY)
    } else {
        s
    }
}

proof fn lemma_log(
    chain: Seq<TraceStore>,
    s: TraceStore,
    next: TraceStore,
    t: i64,
    key: Seq<char>,
    entries: Seq<TextLogEntry>,
    n: int,
    other: Seq<char>,
)
    requires
        entry_chain(chain, s, next, t, key, entries),
        0 <= n <= entries.len(),
        other != key,
    ensures
        n == 0 ==> chain[n] == s,
        n > 0 ==> chain[n].log(key) == tail(s.log(key) + entries.take(n)),
        chain[n].log(other) == s.log(other),
        chain[n].traces == s.traces,
        chain[n].strings == s.strings,
    decreases n,
{
    if n > 0 {
        lemma_log(chain, s, next, t, key, entries, n - 1, other);
        let (a, b) = (chain[n - 1], chain[n]);
        let e = entries[n - 1];
        assert(a.after_log(b, t, key, e));
        let all = s.log(key) + entries.take(n - 1);
        assert(s.log(key) + entries.take(n) =~= all.push(e));
        if n == 1 {
            assert(entries.take(0) =~= Seq::empty());
            assert(all =~= s.log(key));
        }
        assert(b.log(key) =~= tail(all.push(e)));
    }
}

/// The entries of a log come behind those before, in their order, and the log keeps the
/// last of them; other logs, numbers and texts stay.
pub proof fn log_entries_come_behind_those_before(
    s: TraceStore,
    next: TraceStore,
    t: i64,
    key: Seq<char>,
    v: Vec<TextLogEntry>,
    other: Seq<char>,
)
    requires
        after_sample(s, next, t, key, SampleValue::TextLog(v)),
        other != key,
    ensures
        v.len() == 0 ==> next == s,
        v.len() > 0 ==> next.log(key) == {
            let all = s.log(key) + v@;
            if all.len() > 64 {
                all.skip(all.len() - 64)
            } else {
                all
            }
        },
        next.log(other) == s.log(other),
        next.traces@ == s.traces@,
        next.strings@ == s.strings@,
{
    let chain = choose|chain: Seq<TraceStore>| entry_chain(chain, s, next, t, key, v@);
    lemma_log(chain, s, next, t, key, v@, v.len() as int, other);
    assert(v@.take(v.len() as int) =~= v@);
    assert(chain[v.len() as int] == next);
}

/// A log that is in the order of time stays so, where its new entries come in the order
/// of time and none of them is older than what it holds: its newest entry is the last.
pub proof fn logs_stay_in_the_order_of_time(
    s: TraceStore,
    next: TraceStore,
    t: i64,
    key: Seq<char>,
    v: Vec<TextLogEntry>,
)
    requires
        after_sample(s, next, t, key, SampleValue::TextLog(v)),
        v.len() > 0,
        forall|i: int, j: int|
            0 <= i < j < s.log(key).len() ==> (#[trigger] s.log(key)[i]).ts <= (#[trigger] s.log(
                key,
            )[j]).ts,
        forall|i: int, j: int|
            0 <= i < j < v.len() ==> (#[trigger] v@[i]).ts <= (#[trigger] v@[j]).ts,
        forall|i: int, j: int|
            0 <= i < s.log(key).len() && 0 <= j < v.len() ==> (#[trigger] s.log(key)[i]).ts <= (
            #[trigger] v@[j]).ts,
    ensures
        next.log(key).len() > 0,
        next.log(key)[next.log(key).len() - 1] == v@[v.len() - 1],
        forall|i: int, j: int|
            0 <= i < j < next.log(key).len() ==> (#[trigger] next.log(key)[i]).ts <= (
            #[trigger] next.log(key)[j]).ts,
{
    assert(key.push('x').len() != key.len());
    log_entries_come_behind_those_before(s, next, t, key, v, key.push('x'));
    let all = s.log(key) + v@;
    let from = if all.len() > 64 {
        all.len() - 64
    } else {
        0
    };
    assert forall|i: int, j: int| 0 <= i < j < next.log(key).len() implies (#[trigger] next.log(
        key,
    )[i]).ts <= (#[trigger] next.log(key)[j]).ts by {
        let (a, b) = (from + i, from + j);
        let m = s.log(key).len() as int;
        assert(next.log(key)[i] == all[a]);
        assert(next.log(key)[j] == all[b]);
        if b < m {
            assert(s.log(key)[a].ts <= s.log(key)[b].ts);
        } else if a < m {
            assert(s.log(key)[a].ts <= v@[b - m].ts);
        } else {
            assert(v@[a - m].ts <= v@[b - m].ts);
        }
    }
}

// ---------------------------------------------------------------- routing

/// A sample without a system number goes to the drone that it names, and to one bucket
/// where it names none.
pub proof fn samples_without_a_number_go_by_name(f: Fleet, next: Fleet, sample: Sample, r: Routed)
    requires
        after_ingest(f, next, sample, r),
        sample.sysid is None,
    ensures
        r.drone@ == match sample.drone_name {
            Some(n) => n@,
            None => "(unnamed)"@,
        },
        next.names@.dom() == f.names@.dom(),
        next.stores@.dom() == f.stores@.dom().insert(r.drone@),
{
}

/// What first comes under a system number goes to the drone that it names, and so does
/// everything that comes under that number later, unless it brings the real name of a
/// drone named after its number.
pub proof fn a_number_stays_with_its_drone(
    f: Fleet,
    mid: Fleet,
    next: Fleet,
    a: Sample,
    b: Sample,
    r: Routed,
    q: Routed,
)
    requires
        after_ingest(f, mid, a, r),
        after_ingest(mid, next, b, q),
        a.sysid is Some,
        b.sysid == a.sysid,
        !f.names@.contains_key(a.sysid->0),
        r.drone@ != "drone_"@ + dec(a.sysid->0 as nat),
    ensures
        r.drone@ == match a.drone_name {
            Some(n) => n@,
            None => "(unnamed)"@,
        },
        q.drone@ == r.drone@,
        !q.is_new,
{
    assert(mid.names@.dom().contains(a.sysid->0));
    assert(mid.stores@.dom().contains(r.drone@));
}

/// A drone that was named after its number takes the real name that comes under the
/// number, in the list and on view, and keeps its data.
pub proof fn real_names_replace_numbered_ones(f: Fleet, next: Fleet, sample: Sample, r: Routed)
    requires
        f.roster_ok(),
        after_ingest(f, next, sample, r),
        sample.sysid is Some,
        sample.drone_name is Some,
        f.names@.contains_key(sample.sysid->0),
        f.names@[sample.sysid->0]@ == "drone_"@ + dec(sample.sysid->0 as nat),
        sample.drone_name->0@ != f.names@[sample.sysid->0]@,
        f.stores@.contains_key(f.names@[sample.sysid->0]@),
    ensures
        r.drone@ == sample.drone_name->0@,
        !r.is_new,
        next.names@[sample.sysid->0]@ == sample.drone_name->0@,
        !next.stores@.contains_key(f.names@[sample.sysid->0]@),
        next.stores@.contains_key(r.drone@),
        opt_text(f.view_drone) == Some(f.names@[sample.sysid->0]@) ==> opt_text(next.view_drone)
            == Some(r.drone@),
{
    assert(next.stores@.dom().contains(r.drone@));
    assert(!next.stores@.dom().contains(f.names@[sample.sysid->0]@));
}

/// A drone that was not known joins the list at its end, and comes on view only where
/// none is; of one that is known the list and the view stay.
pub proof fn new_drones_join_at_the_end(f: Fleet, next: Fleet, sample: Sample, r: Routed)
    requires
        after_ingest(f, next, sample, r),
        sample.sysid is None,
    ensures
        r.is_new <==> !f.stores@.contains_key(r.drone@),
        r.is_new ==> texts(next.discovered@) == texts(f.discovered@).push(r.drone@),
        !r.is_new ==> texts(next.discovered@) == texts(f.discovered@),
        f.view_drone is Some ==> opt_text(next.view_drone) == opt_text(f.view_drone),
        f.view_drone is None && r.is_new ==> opt_text(next.view_drone) == Some(r.drone@),
{
}

/// The data of a new drone starts with its first sample.
pub proof fn a_new_drone_starts_empty(f: Fleet, next: Fleet, sample: Sample, r: Routed)
    requires
        after_ingest(f, next, sample, r),
        sample.sysid is None,
        r.is_new,
        sample.value is Scalar,
        !sample.value->Scalar_0.nan(),
    ensures
        next.stores@[r.drone@].series(sample.key@) == seq![
            Point { t: sample.ts, value: sample.value->Scalar_0 },
        ],
        next.stores@[r.drone@].window_us == 60_000_000,
        forall|k: Seq<char>|
            k != sample.key@ ==> (#[trigger] next.stores@[r.drone@].series(k)).len() == 0,
{
    let raw = raw_name(sample.drone_name);
    let b = choose|b: TraceStore| #[trigger]
        f.opened(sample.sysid, raw, b) && after_sample(
            b,
            next.stores@[r.drone@],
            sample.ts,
            sample.key@,
            sample.value,
        );
    let x = sample.value->Scalar_0;
    let n = next.stores@[r.drone@];
    let p = Point { t: sample.ts, value: x };
    assert(b.after_push(n, sample.ts, sample.key@, x));
    reveal(Seq::filter);
    assert(b.series(sample.key@).push(p) =~= seq![p]);
    assert(n.series(sample.key@) == b.pushed(sample.ts, sample.key@, x, sample.key@));
    assert(seq![p].drop_last() =~= Seq::empty());
    assert(n.series(sample.key@) =~= seq![p]);
    assert forall|k: Seq<char>| k != sample.key@ implies (#[trigger] n.series(k)).len() == 0 by {
        assert(n.series(k) == b.pushed(sample.ts, sample.key@, x, k));
    }
}

/// The time at which a channel last had a value is that of its last sample that carried
/// one.
pub proof fn values_are_remembered_by_their_time(
    f: Fleet,
    next: Fleet,
    sample: Sample,
    r: Routed,
    other: Seq<char>,
)
    requires
        after_ingest(f, next, sample, r),
        other != sample.key@,
    ensures
        sample.value is Null || (sample.value is Scalar && sample.value->Scalar_0.nan())
            ==> next.last_seen@ == f.last_seen@,
        !(sample.value is Null) && !(sample.value is Scalar && sample.value->Scalar_0.nan())
            ==> next.last_seen@.contains_key(sample.key@) && next.last_seen@[sample.key@]
            == sample.ts,
        next.last_seen@.contains_key(other) <==> f.last_seen@.contains_key(other),
        f.last_seen@.contains_key(other) ==> next.last_seen@[other] == f.last_seen@[other],
{
}

/// What the channels of a store hold is what stands under their names.
pub proof fn channels_hold_what_stands_under_their_name(s: TraceStore, k: Seq<char>)
    ensures
        s.traces@.contains_key(k) ==> s.series(k) == s.traces@[k]@,
        !s.traces@.contains_key(k) ==> s.series(k).len() == 0,
        s.logs@.contains_key(k) ==> s.log(k) == s.logs@[k]@,
        !s.logs@.contains_key(k) ==> s.log(k).len() == 0,
{
}

} // verus!
