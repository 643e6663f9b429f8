//! The trails of the 3D view.
use vstd::prelude::*;

use crate::num::Num;
use crate::store::TraceStore;
use crate::template::{Trail3d, View3d};
use crate::view3d::{
    binding, bindings, count_for, cropped, earliest, inputs_of, names_trail, set_up, since,
    thinned, TrailInputs, View3dState,
};

verus! {

/// A dead-reckoned trail reads its attitude scalar first: component `j` of the `k`-th
/// quaternion is the `k`-th value of the channel with index `j`, for all that all four
/// channels have, at the times of the first.
pub proof fn attitude_is_read_component_by_component(r: TrailInputs, trail: Trail3d, s: TraceStore)
    requires
        inputs_of(r, trail, s),
        trail.sources is None,
        trail.deadreckon is Some,
        r is DeadReckon,
    ensures
        ({
            let base = trail.deadreckon->0.quat@;
            let w = s.series(base + "[0]"@);
            let x = s.series(base + "[1]"@);
            let y = s.series(base + "[2]"@);
            let z = s.series(base + "[3]"@);
            let q = r->quat@;
            &&& q.len() <= w.len() && q.len() <= x.len() && q.len() <= y.len() && q.len() <= z.len()
            &&& q.len() == w.len() || q.len() == x.len() || q.len() == y.len() || q.len() == z.len()
            &&& forall|k: int|
                #![trigger q[k]]
                0 <= k < q.len() ==> {
                    &&& q[k].0 == w[k].t
                    &&& q[k].1@[0] == w[k].value
                    &&& q[k].1@[1] == x[k].value
                    &&& q[k].1@[2] == y[k].value
                    &&& q[k].1@[3] == z[k].value
                }
        }),
{
}

/// Its acceleration is read in the same way, from three channels, and so is the position
/// that it starts from, of which the first point counts.
pub proof fn acceleration_and_seed_are_read_component_by_component(
    r: TrailInputs,
    trail: Trail3d,
    s: TraceStore,
)
    requires
        inputs_of(r, trail, s),
        trail.sources is None,
        trail.deadreckon is Some,
        r is DeadReckon,
    ensures
        ({
            let base = trail.deadreckon->0.accel@;
            let x = s.series(base + "[0]"@);
            let y = s.series(base + "[1]"@);
            let z = s.series(base + "[2]"@);
            let a = r->accel@;
            &&& a.len() <= x.len() && a.len() <= y.len() && a.len() <= z.len()
            &&& a.len() == x.len() || a.len() == y.len() || a.len() == z.len()
            &&& forall|k: int|
                #![trigger a[k]]
                0 <= k < a.len() ==> {
                    &&& a[k].0 == x[k].t
                    &&& a[k].1@[0] == x[k].value
                    &&& a[k].1@[1] == y[k].value
                    &&& a[k].1@[2] == z[k].value
                }
        }),
        ({
            let base = trail.deadreckon->0.seed_from@;
            let n = s.series(base + "[0]"@);
            let e = s.series(base + "[1]"@);
            let d = s.series(base + "[2]"@);
            &&& r->seed is Some <==> n.len() > 0 && e.len() > 0 && d.len() > 0
            &&& r->seed is Some ==> {
                &&& r->seed->0@[0] == n[0].value
                &&& r->seed->0@[1] == e[0].value
                &&& r->seed->0@[2] == d[0].value
            }
        }),
{
}

/// A trail is integrated exactly if it names channels for that, names none to be read as
/// they are, and all seven channels have points.
pub proof fn a_trail_is_integrated_where_all_channels_have_points(
    r: TrailInputs,
    trail: Trail3d,
    s: TraceStore,
)
    requires
        inputs_of(r, trail, s),
    ensures
        r is Direct <==> trail.sources is Some,
        r is DeadReckon <==> trail.sources is None && trail.deadreckon is Some && {
            let d = trail.deadreckon->0;
            &&& s.series(d.accel@ + "[0]"@).len() > 0
            &&& s.series(d.accel@ + "[1]"@).len() > 0
            &&& s.series(d.accel@ + "[2]"@).len() > 0
            &&& s.series(d.quat@ + "[0]"@).len() > 0
            &&& s.series(d.quat@ + "[1]"@).len() > 0
            &&& s.series(d.quat@ + "[2]"@).len() > 0
            &&& s.series(d.quat@ + "[3]"@).len() > 0
        },
{
}

/// A trail that is read as it is has its first channel as its first coordinate and its
/// second as its second; the third channel points down, and its numbers come with the
/// other sign.
pub proof fn positions_are_read_channel_by_channel(r: TrailInputs, trail: Trail3d, s: TraceStore)
    requires
        inputs_of(r, trail, s),
        trail.sources is Some,
    ensures
        r is Direct,
        ({
            let x = s.series(trail.sources->0.x@);
            let y = s.series(trail.sources->0.y@);
            let z = s.series(trail.sources->0.z_neg@);
            let p = r->Direct_0@;
            &&& p.len() <= x.len() && p.len() <= y.len() && p.len() <= z.len()
            &&& p.len() == x.len() || p.len() == y.len() || p.len() == z.len()
            &&& forall|k: int|
                #![trigger p[k]]
                0 <= k < p.len() ==> {
                    &&& p[k].0 == x[k].t
                    &&& p[k].1@[0] == x[k].value
                    &&& p[k].1@[1] == y[k].value
                    &&& p[k].1@[2].bits == z[k].value.bits + 0x8000_0000_0000_0000
                        || p[k].1@[2].bits + 0x8000_0000_0000_0000 == z[k].value.bits
                }
        }),
{
}

/// The window of a trail holds the items from its start on, in their order, and no
/// other.
pub proof fn windows_keep_what_is_recent<T>(pts: Seq<(i64, T)>, t_lo: i64)
    ensures
        since(pts, t_lo) == pts.filter(|p: (i64, T)| p.0 >= t_lo).map_values(|p: (i64, T)| p.1),
    decreases pts.len(),
{
    reveal(Seq::filter);
    let f = |p: (i64, T)| p.0 >= t_lo;
    let g = |p: (i64, T)| p.1;
    if pts.len() == 0 {
        assert(since(pts, t_lo) =~= pts.filter(f).map_values(g));
    } else {
        windows_keep_what_is_recent(pts.drop_last(), t_lo);
        assert(since(pts, t_lo) =~= pts.filter(f).map_values(g));
    }
}

/// Thinning out takes every `step`-th item from the first on, and the last.
pub proof fn thinning_takes_every_step_and_the_last<T>(s: Seq<T>, step: int)
    requires
        step >= 2,
        s.len() > 2,
    ensures
        ({
            let r = thinned(s, step);
            &&& (r.len() - 1) * step >= s.len() - 1
            &&& (r.len() - 2) * step < s.len() - 1
            &&& forall|j: int|
                #![trigger r[j]]
                0 <= j < r.len() ==> r[j] == if j * step < s.len() {
                    s[j * step]
                } else {
                    s[s.len() - 1]
                }
        }),
{
    let r = thinned(s, step);
    let n = (s.len() - 1) / step;
    let m = (s.len() - 1) % step;
    vstd::arithmetic::div_mod::lemma_fundamental_div_mod(s.len() - 1, step);
    assert(n * step == s.len() - 1 - m) by (nonlinear_arith)
        requires
            s.len() - 1 == step * n + m,
    ;
    assert((n + 1) * step == n * step + step) by (nonlinear_arith);
    assert((n - 1) * step == n * step - step) by (nonlinear_arith);
    assert forall|j: int| #![trigger r[j]] 0 <= j < r.len() implies r[j] == if j * step < s.len() {
        s[j * step]
    } else {
        s[s.len() - 1]
    } by {
        if j <= n {
            assert(0 <= j * step <= n * step) by (nonlinear_arith)
                requires
                    0 <= j <= n,
                    step >= 2,
            ;
        } else {
            assert(j == n + 1);
        }
    }
}

/// Cropping takes the newest: without thinning, the last `keep` items, and one where
/// none is asked for.
pub proof fn cropping_takes_the_newest<T>(s: Seq<T>, keep: int, i: int)
    requires
        0 <= i < cropped(s, keep, 1).len(),
    ensures
        cropped(s, keep, 1).len() <= s.len(),
        keep >= 1 ==> cropped(s, keep, 1).len() <= keep,
        keep < s.len() ==> cropped(s, keep, 1).len() >= keep,
        keep >= s.len() ==> cropped(s, keep, 1) == s,
        cropped(s, keep, 1)[i] == s[s.len() - cropped(s, keep, 1).len() + i],
{
}

/// Thinning a crop is thinning what it leaves.
pub proof fn crops_are_thinned<T>(s: Seq<T>, keep: int, step: int)
    ensures
        cropped(s, keep, step) == thinned(cropped(s, keep, 1), step),
{
}

/// The earliest start is the start of some trail, and none starts before it.
pub proof fn no_trail_starts_before_the_earliest<T>(trails: Seq<Vec<(i64, T)>>, n: int)
    requires
        0 <= n <= trails.len(),
    ensures
        earliest(trails, n) is None <==> forall|i: int| 0 <= i < n ==> (#[trigger] trails[i]).len() == 0,
        earliest(trails, n) is Some ==> {
            &&& exists|i: int|
                0 <= i < n && (#[trigger] trails[i]).len() > 0 && trails[i]@[0].0 == earliest(
                    trails,
                    n,
                )->0
            &&& forall|i: int|
                0 <= i < n && (#[trigger] trails[i]).len() > 0 ==> trails[i]@[0].0 >= earliest(
                    trails,
                    n,
                )->0
        },
    decreases n,
{
    if n > 0 {
        no_trail_starts_before_the_earliest(trails, n - 1);
        let before = earliest(trails, n - 1);
        if before is Some {
            let i = choose|i: int|
                0 <= i < n - 1 && (#[trigger] trails[i]).len() > 0 && trails[i]@[0].0 == before->0;
            assert(trails[i].len() > 0);
        }
        assert(trails[n - 1].len() >= 0);
    }
}

/// A trail that was never switched is shown; one that was is as it was switched last, and
/// switching it leaves the others.
pub proof fn trails_are_shown_as_switched(
    s: View3dState,
    next: View3dState,
    name: Seq<char>,
    on: bool,
    other: Seq<char>,
)
    requires
        next.visible@ == s.visible@.insert(name, on),
        other != name,
    ensures
        next.shows(name) == on,
        next.shows(other) == s.shows(other),
        !s.visible@.contains_key(other) ==> s.shows(other),
{
}

/// Where each trail has a name of its own, its points are counted under that name.
pub proof fn points_are_counted_under_their_trail(points: Seq<(String, usize)>, i: int, name: Seq<char>)
    requires
        0 <= i < points.len(),
        forall|a: int, b: int|
            0 <= a < b < points.len() ==> (#[trigger] points[a]).0@ != (#[trigger] points[b]).0@,
    ensures
        count_for(points, points[i].0@) == points[i].1,
        (forall|a: int| 0 <= a < points.len() ==> (#[trigger] points[a]).0@ != name) ==> count_for(
            points,
            name,
        ) == 0,
    decreases points.len(),
{
    let t = points.drop_first();
    if forall|a: int| 0 <= a < points.len() ==> (#[trigger] points[a]).0@ != name {
        lemma_uncounted(points, name);
    }
    if i > 0 {
        assert(points[0].0@ != points[i].0@);
        assert(t[i - 1] == points[i]);
        assert forall|a: int, b: int| 0 <= a < b < t.len() implies (#[trigger] t[a]).0@ != (
        #[trigger] t[b]).0@ by {
            assert(points[a + 1].0@ != points[b + 1].0@);
        }
        points_are_counted_under_their_trail(t, i - 1, name);
    }
}

proof fn lemma_uncounted(points: Seq<(String, usize)>, name: Seq<char>)
    requires
        forall|a: int| 0 <= a < points.len() ==> (#[trigger] points[a]).0@ != name,
    ensures
        count_for(points, name) == 0,
    decreases points.len(),
{
    if points.len() > 0 {
        let t = points.drop_first();
        assert(points[0].0@ != name);
        assert forall|a: int| 0 <= a < t.len() implies (#[trigger] t[a]).0@ != name by {
            assert(points[a + 1].0@ != name);
        }
        lemma_uncounted(t, name);
    }
}

/// The overlay names each channel of a trail behind the word for what it is, and says
/// nothing of a trail without channels.
pub proof fn overlay_names_the_channels(t: Trail3d)
    ensures
        binding(t) is None <==> t.sources is None && t.deadreckon is None,
        t.sources is Some ==> binding(t)->0 == t.name@ + (": x="@ + t.sources->0.x@) + ("  y="@
            + t.sources->0.y@) + ("  z_neg="@ + t.sources->0.z_neg@),
        t.sources is None && t.deadreckon is Some ==> binding(t)->0 == t.name@
            + (": dead-reckon accel="@ + t.deadreckon->0.accel@) + (" quat="@
            + t.deadreckon->0.quat@) + (" seed="@ + t.deadreckon->0.seed_from@),
{
    if t.sources is Some {
        assert(binding(t)->0 =~= t.name@ + (": x="@ + t.sources->0.x@) + ("  y="@ + t.sources->0.y@)
            + ("  z_neg="@ + t.sources->0.z_neg@));
    } else if t.deadreckon is Some {
        assert(binding(t)->0 =~= t.name@ + (": dead-reckon accel="@ + t.deadreckon->0.accel@) + (
        " quat="@ + t.deadreckon->0.quat@) + (" seed="@ + t.deadreckon->0.seed_from@));
    }
}

/// The overlay has a line for each trail with channels, in the order of the trails.
pub proof fn overlay_has_a_line_for_each_bound_trail(trails: Seq<Trail3d>)
    requires
        forall|i: int| 0 <= i < trails.len() ==> binding(#[trigger] trails[i]) is Some,
    ensures
        bindings(trails, trails.len() as int).len() == trails.len(),
        forall|i: int|
            0 <= i < trails.len() ==> #[trigger] bindings(trails, trails.len() as int)[i] == binding(
                trails[i],
            )->0,
{
    lemma_bindings(trails, trails.len() as int);
}

proof fn lemma_bindings(trails: Seq<Trail3d>, n: int)
    requires
        0 <= n <= trails.len(),
        forall|i: int| 0 <= i < trails.len() ==> binding(#[trigger] trails[i]) is Some,
    ensures
        bindings(trails, n).len() == n,
        forall|i: int| 0 <= i < n ==> #[trigger] bindings(trails, n)[i] == binding(trails[i])->0,
    decreases n,
{
    if n > 0 {
        lemma_bindings(trails, n - 1);
        assert(binding(trails[n - 1]) is Some);
    }
}

/// A view is set up once. Its trails then begin as long as the template says, its window as
/// the template's slider does, each within its own bounds, and every trail of the template
/// has a switch, which is on unless it was off.
pub proof fn views_are_set_up_once(
    s: View3dState,
    next: View3dState,
    view: View3d,
    min_window: Option<Num>,
    start: Option<Num>,
    i: int,
)
    requires
        set_up(s, next, view, min_window, start),
        0 <= i < view.trails.len(),
    ensures
        s.initialised ==> next == s,
        !s.initialised ==> {
            let least = Num { bits: 0x3F84_7AE1_47AE_147B };
            let one = Num { bits: 0x3FF0_0000_0000_0000 };
            let zero = Num { bits: 0 };
            let name = view.trails@[i].name@;
            &&& next.initialised
            &&& next.trail_frac == view.trail_slider_initial.kept_within(least, one)
            &&& start is Some ==> next.view_frac == start->0.kept_within(zero, one)
            &&& start is None ==> next.view_frac == s.view_frac
            &&& min_window is Some ==> next.min_window_s == min_window->0
            &&& min_window is None ==> next.min_window_s == s.min_window_s
            &&& next.visible@.contains_key(name)
            &&& s.visible@.contains_key(name) ==> next.visible@[name] == s.visible@[name]
            &&& !s.visible@.contains_key(name) ==> next.visible@[name]
            &&& next.decimate == s.decimate
            &&& next.realtime == s.realtime
        },
{
    if !s.initialised {
        let name = view.trails@[i].name@;
        assert(names_trail(view.trails@, view.trails.len() as int, name));
        assert(next.visible@.contains_key(name));
    }
}

} // verus!
