//! Stores that become one: what each channel holds then.
use vstd::prelude::*;

use crate::merge::{
    in_time, interleaved, interleaving_keeps_the_order, interleaving_loses_nothing, is_merge,
};
use crate::num::Num;
use crate::store::{aligned3, aligned4, Point, TraceStore};

verus! {

/// A channel that one of two stores has is taken over as it is; one that both have holds the
/// points of both, in the order of time where both were.
pub proof fn merged_channels_hold_the_points_of_both(
    a: TraceStore,
    b: TraceStore,
    m: TraceStore,
    k: Seq<char>,
)
    requires
        is_merge(a, b, m),
    ensures
        m.series(k).len() == a.series(k).len() + b.series(k).len(),
        a.series(k).len() == 0 ==> m.series(k) == b.series(k),
        b.series(k).len() == 0 ==> m.series(k) == a.series(k),
        (forall|i: int, j: int|
            0 <= i < j < a.series(k).len() ==> (#[trigger] a.series(k)[i]).t <= (
            #[trigger] a.series(k)[j]).t) && (forall|i: int, j: int|
            0 <= i < j < b.series(k).len() ==> (#[trigger] b.series(k)[i]).t <= (
            #[trigger] b.series(k)[j]).t) ==> forall|i: int, j: int|
            0 <= i < j < m.series(k).len() ==> (#[trigger] m.series(k)[i]).t <= (
            #[trigger] m.series(k)[j]).t,
{
    interleaving_loses_nothing(a.series(k), b.series(k));
    if (forall|i: int, j: int|
        0 <= i < j < a.series(k).len() ==> (#[trigger] a.series(k)[i]).t <= (
        #[trigger] a.series(k)[j]).t) && (forall|i: int, j: int|
        0 <= i < j < b.series(k).len() ==> (#[trigger] b.series(k)[i]).t <= (
        #[trigger] b.series(k)[j]).t) {
        assert(in_time(a.series(k)));
        assert(in_time(b.series(k)));
        interleaving_keeps_the_order(a.series(k), b.series(k));
        let s = m.series(k);
        assert forall|i: int, j: int| 0 <= i < j < s.len() implies (#[trigger] s[i]).t <= (
        #[trigger] s[j]).t by {
            assert(crate::merge::Timed::time(&s[i]) <= crate::merge::Timed::time(&s[j]));
        }
    }
}

/// Of two texts or vectors of one channel the one of the store that heard something last
/// stays, of two that heard at the same time that of the first; what only one has stays.
pub proof fn merged_texts_come_from_the_store_heard_last(
    a: TraceStore,
    b: TraceStore,
    m: TraceStore,
    k: Seq<char>,
)
    requires
        is_merge(a, b, m),
    ensures
        ({
            let second = b.latest is Some && (a.latest is None || b.latest->0 > a.latest->0);
            let (x, y, z) = (a.strings@, b.strings@, m.strings@);
            let (u, v, w) = (a.vectors@, b.vectors@, m.vectors@);
            &&& z.contains_key(k) <==> x.contains_key(k) || y.contains_key(k)
            &&& x.contains_key(k) && !y.contains_key(k) ==> z[k] == x[k]
            &&& !x.contains_key(k) && y.contains_key(k) ==> z[k] == y[k]
            &&& x.contains_key(k) && y.contains_key(k) && second ==> z[k] == y[k]
            &&& x.contains_key(k) && y.contains_key(k) && !second ==> z[k] == x[k]
            &&& w.contains_key(k) <==> u.contains_key(k) || v.contains_key(k)
            &&& u.contains_key(k) && v.contains_key(k) && second ==> w[k] == v[k]
            &&& u.contains_key(k) && v.contains_key(k) && !second ==> w[k] == u[k]
            &&& u.contains_key(k) && !v.contains_key(k) ==> w[k] == u[k]
            &&& !u.contains_key(k) && v.contains_key(k) ==> w[k] == v[k]
        }),
{
}

/// What was heard last by either is heard last by both together, and the window is that of
/// the first.
pub proof fn merged_stores_know_the_latest_time(a: TraceStore, b: TraceStore, m: TraceStore)
    requires
        is_merge(a, b, m),
    ensures
        m.window_us == a.window_us,
        m.latest is None <==> a.latest is None && b.latest is None,
        a.latest is Some ==> m.latest->0 >= a.latest->0,
        b.latest is Some ==> m.latest->0 >= b.latest->0,
        m.latest is Some ==> m.latest == a.latest || m.latest == b.latest,
{
}

/// A merged log holds the newest 64 entries of both, and is in the order of time where both
/// were.
pub proof fn merged_logs_keep_the_newest(
    a: TraceStore,
    b: TraceStore,
    m: TraceStore,
    k: Seq<char>,
    i: int,
    j: int,
)
    requires
        is_merge(a, b, m),
        b.logs@.contains_key(k),
        in_time(a.log(k)),
        in_time(b.log(k)),
        0 <= i < j < m.log(k).len(),
    ensures
        m.log(k).len() <= 64,
        a.log(k).len() + b.log(k).len() <= 64 ==> m.log(k).len() == a.log(k).len() + b.log(k).len(),
        m.log(k)[i].ts <= m.log(k)[j].ts,
{
    interleaving_loses_nothing(a.log(k), b.log(k));
    interleaving_keeps_the_order(a.log(k), b.log(k));
    let s = interleaved(a.log(k), b.log(k));
    let d = s.len() - m.log(k).len();
    assert(m.log(k)[i] == s[d + i]);
    assert(m.log(k)[j] == s[d + j]);
    assert(crate::merge::Timed::time(&s[d + i]) <= crate::merge::Timed::time(&s[d + j]));
}

/// A channel that was announced stays so only as long as neither store has anything for it.
pub proof fn merged_announcements_end_with_a_value(
    a: TraceStore,
    b: TraceStore,
    m: TraceStore,
    k: Seq<char>,
)
    requires
        is_merge(a, b, m),
    ensures
        m.nulls@.contains_key(k) <==> (a.nulls@.contains_key(k) || b.nulls@.contains_key(k))
            && !a.known(k) && !b.known(k),
{
    assert(m.known(k) <==> a.known(k) || b.known(k)) by {
        assert(m.strings@.contains_key(k) <==> a.strings@.contains_key(k) || b.strings@.contains_key(
            k,
        ));
        assert(m.vectors@.contains_key(k) <==> a.vectors@.contains_key(k) || b.vectors@.contains_key(
            k,
        ));
        assert(m.traces@.dom().contains(k) <==> a.traces@.dom().contains(k)
            || b.traces@.dom().contains(k));
        assert(m.logs@.dom().contains(k) <==> a.logs@.dom().contains(k) || b.logs@.dom().contains(k));
    }
}

/// Channels that are read together are read point by point: the `k`-th of each, in the order
/// in which they are named, at the time of the first, as far as the shortest goes.
pub proof fn channels_are_read_together_point_by_point(
    r: Seq<(i64, [Num; 3])>,
    q: Seq<(i64, [Num; 4])>,
    a: Seq<Point>,
    b: Seq<Point>,
    c: Seq<Point>,
    d: Seq<Point>,
    k: int,
)
    requires
        aligned3(r, a, b, c),
        aligned4(q, a, b, c, d),
        0 <= k < q.len(),
    ensures
        r.len() <= a.len() && r.len() <= b.len() && r.len() <= c.len(),
        r.len() == a.len() || r.len() == b.len() || r.len() == c.len(),
        q.len() <= r.len() && q.len() <= d.len(),
        q.len() == r.len() || q.len() == d.len(),
        r[k].0 == a[k].t,
        r[k].1@[0] == a[k].value,
        r[k].1@[1] == b[k].value,
        r[k].1@[2] == c[k].value,
        q[k].0 == a[k].t,
        q[k].1@[0] == a[k].value,
        q[k].1@[1] == b[k].value,
        q[k].1@[2] == c[k].value,
        q[k].1@[3] == d[k].value,
{
    assert(r[k].0 == a[k].t);
    assert(q[k].0 == a[k].t);
}

} // verus!
