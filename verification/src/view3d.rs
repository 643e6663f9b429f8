//! The 3D view: which trails are shown, the points that they are made of, how they
//! are thinned out, and the lines of its overlay.
use vstd::prelude::*;
use vstd::string::*;

use crate::keymap::KeyMap;
use crate::num::Num;
use crate::plot::{component, component_key};
use crate::store::{aligned3, aligned4, shorter, Point, TraceStore};
use crate::template::{Trail3d, View3d};
use crate::text::{join, joined, owned, same_text, texts};

verus! {

/// What was drawn in a frame.
#[derive(Clone, Debug)]
pub struct View3dStats {
    /// The number of trails of which something was drawn.
    pub trails_visible: usize,
    /// The number of points drawn of each trail.
    pub points: Vec<(String, usize)>,
}

impl Default for View3dStats {
    fn default() -> (r: View3dStats)
        ensures
            r.trails_visible == 0,
            r.points@ == Seq::<(String, usize)>::empty(),
    {
        View3dStats { trails_visible: 0, points: Vec::new() }
    }
}

/// The number under the first entry of a name; zero if there is none.
pub open spec fn count_for(points: Seq<(String, usize)>, name: Seq<char>) -> usize
    decreases points.len(),
{
    if points.len() == 0 {
        0
    } else if points[0].0@ == name {
        points[0].1
    } else {
        count_for(points.drop_first(), name)
    }
}

impl View3dStats {
    /// The number of points drawn of a trail.
    pub fn pts(&self, name: &str) -> (r: usize)
        ensures
            r == count_for(self.points@, name@),
    {
        let mut i: usize = 0;
        proof {
            assert(self.points@.skip(0) =~= self.points@);
        }
        while i < self.points.len()
            invariant
                i <= self.points.len(),
                count_for(self.points@, name@) == count_for(self.points@.skip(i as int), name@),
            decreases self.points.len() - i,
        {
            proof {
                assert(self.points@.skip(i as int).drop_first() =~= self.points@.skip(i + 1));
            }
            if same_text(self.points[i].0.as_str(), name) {
                return self.points[i].1;
            }
            i = i + 1;
        }
        0
    }
}

/// What was drawn, from the number of points of each trail.
pub fn view3d_stats(points: Vec<(String, usize)>) -> (r: View3dStats)
    ensures
        r.points == points,
        r.trails_visible == points@.filter(|p: (String, usize)| p.1 > 0).len(),
{
    let ghost f = |p: (String, usize)| p.1 > 0;
    let mut n: usize = 0;
    let mut i: usize = 0;
    proof {
        reveal(Seq::filter);
        assert(points@.take(0).filter(f) =~= Seq::empty());
    }
    while i < points.len()
        invariant
            i <= points.len(),
            f == (|p: (String, usize)| p.1 > 0),
            n == points@.take(i as int).filter(f).len(),
            n <= i,
        decreases points.len() - i,
    {
        proof {
            reveal(Seq::filter);
            assert(points@.take(i + 1).drop_last() =~= points@.take(i as int));
            assert(points@.take(i + 1).last() == points@[i as int]);
        }
        if points[i].1 > 0 {
            n = n + 1;
        }
        i = i + 1;
    }
    proof {
        assert(points@.take(points.len() as int) =~= points@);
    }
    View3dStats { trails_visible: n, points }
}

// ---------------------------------------------------------------- thinning out

/// Every `step`-th item of `s`, and the last one.
pub open spec fn thinned<T>(s: Seq<T>, step: int) -> Seq<T> {
    if step <= 1 || s.len() <= 2 {
        s
    } else {
        let n = ((s.len() - 1) / step + 1) as nat;
        let every = Seq::new(n, |i: int| s[i * step]);
        if (s.len() - 1) % step == 0 {
            every
        } else {
            every.push(s.last())
        }
    }
}

/// Every `step`-th item, and always the last one. A step of zero counts as one.
pub fn decimate<T: Copy>(pts: &[T], step: usize) -> (r: Vec<T>)
    ensures
        r@ == thinned(pts@, step as int),
        pts.len() > 0 ==> r.len() > 0 && r@.last() == pts@.last(),
{
    let n: usize = pts.len();
    let mut out: Vec<T> = Vec::new();
    let mut i: usize = 0;
    if step <= 1 || n <= 2 {
        while i < n
            invariant
                i <= n == pts.len(),
                out@ =~= pts@.take(i as int),
            decreases n - i,
        {
            out.push(pts[i]);
            i = i + 1;
        }
        return out;
    }
    let full: usize = (n - 1) / step;
    let ghost every = Seq::new((full + 1) as nat, |k: int| pts@[k * step]);
    proof {
        vstd::arithmetic::div_mod::lemma_fundamental_div_mod(n - 1, step as int);
    }
    let mut k: usize = 0;
    while k <= full
        invariant
            k <= full + 1,
            n == pts.len(),
            step >= 1,
            full == (n - 1) / (step as int),
            n - 1 == step * full + (n - 1) % (step as int),
            (n - 1) % (step as int) >= 0,
            full < usize::MAX,
            i == k * step || k == full + 1,
            every == Seq::new((full + 1) as nat, |k: int| pts@[k * step]),
            out@ =~= every.take(k as int),
        decreases full + 1 - k,
    {
        proof {
            assert(k * step <= step * full) by (nonlinear_arith)
                requires
                    k <= full,
                    step >= 1,
            ;
            assert((k + 1) * step == k * step + step) by (nonlinear_arith);
        }
        out.push(pts[i]);
        proof {
            if k < full {
                assert((k + 1) * step <= step * full) by (nonlinear_arith)
                    requires
                        k < full,
                        step >= 1,
                ;
            }
        }
        if k < full {
            i = i + step;
        }
        k = k + 1;
    }
    proof {
        assert(out@ =~= every);
        assert(every.last() == pts@[full * step]);
        assert(full * step == step * full) by (nonlinear_arith);
    }
    if (n - 1) % step != 0 {
        out.push(pts[n - 1]);
    }
    out
}

/// The items of a trail from time `t_lo` on.
pub open spec fn since<T>(pts: Seq<(i64, T)>, t_lo: i64) -> Seq<T>
    decreases pts.len(),
{
    if pts.len() == 0 {
        Seq::empty()
    } else {
        let head = since(pts.drop_last(), t_lo);
        if pts.last().0 >= t_lo {
            head.push(pts.last().1)
        } else {
            head
        }
    }
}

/// The last `keep` of them, at least one, thinned out.
pub open spec fn cropped<T>(s: Seq<T>, keep: int, step: int) -> Seq<T> {
    let k = if keep < 1 {
        1
    } else {
        keep
    };
    thinned(
        if s.len() > k {
            s.skip(s.len() - k)
        } else {
            s
        },
        step,
    )
}

/// The items of a trail from time `t_lo` on.
pub fn windowed<T: Copy>(pts: &Vec<(i64, T)>, t_lo: i64) -> (r: Vec<T>)
    ensures
        r@ == since(pts@, t_lo),
{
    let mut out: Vec<T> = Vec::new();
    let mut i: usize = 0;
    proof {
        assert(pts@.take(0) =~= Seq::empty());
    }
    while i < pts.len()
        invariant
            i <= pts.len(),
            out@ == since(pts@.take(i as int), t_lo),
        decreases pts.len() - i,
    {
        proof {
            assert(pts@.take(i + 1).drop_last() =~= pts@.take(i as int));
        }
        if pts[i].0 >= t_lo {
            out.push(pts[i].1);
        }
        i = i + 1;
    }
    proof {
        assert(pts@.take(pts.len() as int) =~= pts@);
    }
    out
}

/// When the first point of some trail was taken, at the earliest.
pub open spec fn earliest<T>(trails: Seq<Vec<(i64, T)>>, n: int) -> Option<i64>
    decreases n,
{
    if n <= 0 {
        None
    } else {
        let before = earliest(trails, n - 1);
        if trails[n - 1].len() == 0 {
            before
        } else {
            let t = trails[n - 1]@[0].0;
            match before {
                Some(b) => if t < b {
                    Some(t)
                } else {
                    Some(b)
                },
                None => Some(t),
            }
        }
    }
}

/// When the first point of some trail was taken, at the earliest; the window of the 3D
/// view reaches back to it.
pub fn earliest_start<T>(trails: &Vec<Vec<(i64, T)>>) -> (r: Option<i64>)
    ensures
        r == earliest(trails@, trails.len() as int),
{
    let mut first: Option<i64> = None;
    let mut i: usize = 0;
    while i < trails.len()
        invariant
            i <= trails.len(),
            first == earliest(trails@, i as int),
        decreases trails.len() - i,
    {
        if trails[i].len() > 0 {
            let t: i64 = trails[i][0].0;
            first = match first {
                Some(b) => if t < b {
                    Some(t)
                } else {
                    Some(b)
                },
                None => Some(t),
            };
        }
        i = i + 1;
    }
    first
}

/// The last `keep` items, at least one, thinned out by `step`.
pub fn crop_trail<T: Copy>(items: &Vec<T>, keep: usize, step: usize) -> (r: Vec<T>)
    ensures
        r@ == cropped(items@, keep as int, step as int),
        items.len() > 0 ==> r.len() > 0 && r@.last() == items@.last(),
{
    let k: usize = if keep < 1 {
        1
    } else {
        keep
    };
    let start: usize = if items.len() > k {
        items.len() - k
    } else {
        0
    };
    let mut tail: Vec<T> = Vec::new();
    let mut i: usize = start;
    while i < items.len()
        invariant
            start <= i <= items.len(),
            tail@ =~= items@.subrange(start as int, i as int),
        decreases items.len() - i,
    {
        tail.push(items[i]);
        i = i + 1;
    }
    proof {
        assert(tail@ =~= if items@.len() > k {
            items@.skip(items@.len() - k)
        } else {
            items@
        });
    }
    decimate(tail.as_slice(), step)
}

// ---------------------------------------------------------------- trails

/// What a trail is made of.
#[derive(Clone, Debug)]
pub enum TrailInputs {
    /// Positions: east, north, up.
    Direct(Vec<(i64, [Num; 3])>),
    /// Acceleration and attitude to integrate from a position.
    DeadReckon {
        accel: Vec<(i64, [Num; 3])>,
        quat: Vec<(i64, [Num; 4])>,
        seed: Option<[Num; 3]>,
    },
    /// Nothing.
    Nothing,
}

/// The sign of a number turned round.
pub open spec fn opposite(a: Num, b: Num) -> bool {
    a.size() == b.size() && a.negative() != b.negative()
}

/// Are these the positions of a trail that is read as it is? The third channel
/// points down and is turned round.
pub open spec fn direct_points(
    r: Seq<(i64, [Num; 3])>,
    x: Seq<Point>,
    y: Seq<Point>,
    z: Seq<Point>,
) -> bool {
    &&& r.len() == shorter(x.len(), shorter(y.len(), z.len()))
    &&& forall|k: int|
        0 <= k < r.len() ==> {
            &&& (#[trigger] r[k]).0 == x[k].t
            &&& r[k].1@[0] == x[k].value
            &&& r[k].1@[1] == y[k].value
            &&& opposite(r[k].1@[2], z[k].value)
        }
}

/// The series of component `i` of a vector channel.
pub open spec fn part(s: TraceStore, base: Seq<char>, i: int) -> Seq<Point> {
    s.series(component(base, i))
}

/// Is it what a trail is made of?
pub open spec fn inputs_of(r: TrailInputs, t: Trail3d, s: TraceStore) -> bool {
    match t.sources {
        Some(src) => match r {
            TrailInputs::Direct(p) => direct_points(
                p@,
                s.series(src.x@),
                s.series(src.y@),
                s.series(src.z_neg@),
            ),
            _ => false,
        },
        None => match t.deadreckon {
            Some(d) => {
                let a = shorter(
                    part(s, d.accel@, 0).len(),
                    shorter(part(s, d.accel@, 1).len(), part(s, d.accel@, 2).len()),
                );
                let q = shorter(
                    part(s, d.quat@, 0).len(),
                    shorter(
                        part(s, d.quat@, 1).len(),
                        shorter(part(s, d.quat@, 2).len(), part(s, d.quat@, 3).len()),
                    ),
                );
                if a == 0 || q == 0 {
                    r is Nothing
                } else {
                    match r {
                        TrailInputs::DeadReckon { accel, quat, seed } => {
                            &&& aligned3(
                                accel@,
                                part(s, d.accel@, 0),
                                part(s, d.accel@, 1),
                                part(s, d.accel@, 2),
                            )
                            &&& aligned4(
                                quat@,
                                part(s, d.quat@, 0),
                                part(s, d.quat@, 1),
                                part(s, d.quat@, 2),
                                part(s, d.quat@, 3),
                            )
                            &&& seed_of(
                                seed,
                                part(s, d.seed_from@, 0),
                                part(s, d.seed_from@, 1),
                                part(s, d.seed_from@, 2),
                            )
                        },
                        _ => false,
                    }
                }
            },
            None => r is Nothing,
        },
    }
}

/// Is it the first position of three channels, if all have one?
pub open spec fn seed_of(
    seed: Option<[Num; 3]>,
    x: Seq<Point>,
    y: Seq<Point>,
    z: Seq<Point>,
) -> bool {
    match seed {
        Some(v) => x.len() > 0 && y.len() > 0 && z.len() > 0 && v@ == seq![
            x[0].value,
            y[0].value,
            z[0].value,
        ],
        None => x.len() == 0 || y.len() == 0 || z.len() == 0,
    }
}

/// What a trail is made of.
pub fn trail_inputs(trail: &Trail3d, store: &TraceStore) -> (r: TrailInputs)
    requires
        store.wf(),
    ensures
        inputs_of(r, *trail, *store),
        trail.sources is None && r is DeadReckon ==> forall|k: int|
            #![trigger r->quat@[k]]
            0 <= k < r->quat.len() ==> {
                let base = trail.deadreckon->0.quat@;
                &&& r->quat@[k].0 == store.series(base + "[0]"@)[k].t
                &&& r->quat@[k].1@[0] == store.series(base + "[0]"@)[k].value
                &&& r->quat@[k].1@[1] == store.series(base + "[1]"@)[k].value
                &&& r->quat@[k].1@[2] == store.series(base + "[2]"@)[k].value
                &&& r->quat@[k].1@[3] == store.series(base + "[3]"@)[k].value
            },
{
    match &trail.sources {
        Some(src) => {
            let xs = store.points(src.x.as_str());
            let ys = store.points(src.y.as_str());
            let zs = store.points(src.z_neg.as_str());
            let mut out: Vec<(i64, [Num; 3])> = Vec::new();
            let mut i: usize = 0;
            while i < xs.len() && i < ys.len() && i < zs.len()
                invariant
                    i <= xs.len(),
                    i <= ys.len(),
                    i <= zs.len(),
                    out.len() == i,
                    forall|k: int|
                        0 <= k < i ==> {
                            &&& (#[trigger] out@[k]).0 == xs@[k].t
                            &&& out@[k].1@[0] == xs@[k].value
                            &&& out@[k].1@[1] == ys@[k].value
                            &&& opposite(out@[k].1@[2], zs@[k].value)
                        },
                decreases xs.len() - i,
            {
                let v: [Num; 3] = [xs[i].value, ys[i].value, zs[i].value.negated()];
                out.push((xs[i].t, v));
                i = i + 1;
            }
            TrailInputs::Direct(out)
        },
        None => match &trail.deadreckon {
            Some(d) => {
                let a0 = component_key(d.accel.as_str(), 0);
                let a1 = component_key(d.accel.as_str(), 1);
                let a2 = component_key(d.accel.as_str(), 2);
                let accel = store.vec3(a0.as_str(), a1.as_str(), a2.as_str());
                let q0 = component_key(d.quat.as_str(), 0);
                let q1 = component_key(d.quat.as_str(), 1);
                let q2 = component_key(d.quat.as_str(), 2);
                let q3 = component_key(d.quat.as_str(), 3);
                let quat = store.vec4(q0.as_str(), q1.as_str(), q2.as_str(), q3.as_str());
                if accel.len() == 0 || quat.len() == 0 {
                    return TrailInputs::Nothing;
                }
                let s0 = component_key(d.seed_from.as_str(), 0);
                let s1 = component_key(d.seed_from.as_str(), 1);
                let s2 = component_key(d.seed_from.as_str(), 2);
                let seeds = store.vec3(s0.as_str(), s1.as_str(), s2.as_str());
                let seed: Option<[Num; 3]> = if seeds.len() > 0 {
                    Some(seeds[0].1)
                } else {
                    None
                };
                TrailInputs::DeadReckon { accel, quat, seed }
            },
            None => TrailInputs::Nothing,
        },
    }
}

// ---------------------------------------------------------------- state

/// The words of the bounds of the sliders.
pub const W_ONE: u64 = 0x3FF0_0000_0000_0000;

pub const W_HUNDREDTH: u64 = 0x3F84_7AE1_47AE_147B;

/// The controls of the 3D view.
#[derive(Clone, Debug)]
pub struct View3dState {
    /// From 0, the whole history, to 1, the shortest window.
    pub view_frac: Num,
    /// How much of what is visible is drawn.
    pub trail_frac: Num,
    /// Every so many points are drawn.
    pub decimate: usize,
    /// Follow the newest data.
    pub realtime: bool,
    /// The shortest window, in seconds.
    pub min_window_s: Num,
    /// Which trails are shown.
    pub visible: KeyMap<bool>,
    /// Have the template's settings been taken over?
    pub initialised: bool,
}

impl Default for View3dState {
    fn default() -> (r: View3dState)
        ensures
            r.view_frac.bits == 0x3FEB_3333_3333_3333,
            r.trail_frac.bits == 0x3FD0_0000_0000_0000,
            r.decimate == 1,
            r.realtime,
            r.min_window_s.bits == 0x4000_0000_0000_0000,
            r.visible.wf(),
            r.visible@ == Map::<Seq<char>, bool>::empty(),
            !r.initialised,
    {
        View3dState {
            view_frac: Num { bits: 0x3FEB_3333_3333_3333 },
            trail_frac: Num { bits: 0x3FD0_0000_0000_0000 },
            decimate: 1,
            realtime: true,
            min_window_s: Num { bits: 0x4000_0000_0000_0000 },
            visible: KeyMap::new(),
            initialised: false,
        }
    }
}

/// Is `name` the name of one of the first `n` trails?
pub open spec fn names_trail(trails: Seq<Trail3d>, n: int, name: Seq<char>) -> bool {
    exists|i: int| 0 <= i < n && (#[trigger] trails[i]).name@ == name
}

/// Is `next` the state of the view after it was set up for a template, unless it was before?
pub open spec fn set_up(
    s: View3dState,
    next: View3dState,
    view: View3d,
    min_window_s: Option<Num>,
    valinit: Option<Num>,
) -> bool {
    &&& s.initialised ==> next == s
    &&& !s.initialised ==> {
        &&& next.initialised
        &&& next.trail_frac == view.trail_slider_initial.kept_within(
            (Num { bits: W_HUNDREDTH }),
            (Num { bits: W_ONE }),
        )
        &&& next.min_window_s == match min_window_s {
            Some(m) => m,
            None => s.min_window_s,
        }
        &&& next.view_frac == match valinit {
            Some(v) => v.kept_within((Num { bits: 0 }), (Num { bits: W_ONE })),
            None => s.view_frac,
        }
        &&& next.decimate == s.decimate
        &&& next.realtime == s.realtime
        &&& forall|k: Seq<char>| #[trigger]
            next.visible@.contains_key(k) <==> s.visible@.contains_key(k)
                || names_trail(view.trails@, view.trails.len() as int, k)
        &&& forall|k: Seq<char>| #[trigger]
            next.visible@.contains_key(k) ==> next.visible@[k] == (s.visible@.contains_key(k)
                ==> s.visible@[k])
    }
}

impl View3dState {
    /// Is a trail shown? One that was never switched is.
    pub open spec fn shows(self, name: Seq<char>) -> bool {
        self.visible@.contains_key(name) ==> self.visible@[name]
    }

    /// Is a trail shown?
    pub fn is_visible(&self, name: &str) -> (r: bool)
        requires
            self.visible.wf(),
        ensures
            r == self.shows(name@),
    {
        match self.visible.get(name) {
            Some(v) => *v,
            None => true,
        }
    }

    /// Show a trail or not. The others stay as they are.
    pub fn set_visible(&mut self, name: &str, on: bool)
        requires
            old(self).visible.wf(),
        ensures
            final(self).visible.wf(),
            final(self).visible@ == old(self).visible@.insert(name@, on),
            *final(self) == (View3dState { visible: final(self).visible, ..*old(self) }),
    {
        self.visible.insert(owned(name), on);
    }

    /// Take over the template's settings, the first time only: how much of a trail
    /// is drawn, the window, and an entry for each trail.
    pub fn init_from(&mut self, view: &View3d, min_window_s: Option<Num>, valinit: Option<Num>)
        requires
            old(self).visible.wf(),
        ensures
            final(self).visible.wf(),
            set_up(*old(self), *final(self), *view, min_window_s, valinit),
    {
        if self.initialised {
            return ;
        }
        self.trail_frac = view.trail_slider_initial.clamp(
            Num { bits: W_HUNDREDTH },
            Num { bits: W_ONE },
        );
        match min_window_s {
            Some(m) => {
                self.min_window_s = m;
            },
            None => {},
        }
        match valinit {
            Some(v) => {
                self.view_frac = v.clamp(Num { bits: 0 }, Num { bits: W_ONE });
            },
            None => {},
        }
        let ghost start = *self;
        let mut i: usize = 0;
        while i < view.trails.len()
            invariant
                i <= view.trails.len(),
                self.visible.wf(),
                *self == (View3dState { visible: self.visible, ..start }),
                forall|k: Seq<char>| #[trigger]
                    self.visible@.contains_key(k) <==> start.visible@.contains_key(k)
                        || names_trail(view.trails@, i as int, k),
                forall|k: Seq<char>| #[trigger]
                    self.visible@.contains_key(k) ==> self.visible@[k] == (
                    start.visible@.contains_key(k) ==> start.visible@[k]),
            decreases view.trails.len() - i,
        {
            let ghost was = self.visible@;
            if !self.visible.contains_key(view.trails[i].name.as_str()) {
                self.visible.insert(view.trails[i].name.clone(), true);
            }
            proof {
                let name = view.trails@[i as int].name@;
                assert forall|k: Seq<char>| #[trigger] self.visible@.contains_key(k)
                    <==> start.visible@.contains_key(k) || names_trail(view.trails@, i + 1, k) by {
                    if names_trail(view.trails@, i as int, k) {
                        let j = choose|j: int|
                            0 <= j < i && (#[trigger] view.trails@[j]).name@ == k;
                        assert(view.trails@[j].name@ == k);
                    }
                    if k == name {
                        assert(view.trails@[i as int].name@ == k);
                    }
                    assert(self.visible@.contains_key(k) <==> was.contains_key(k) || k == name);
                }
            }
            i = i + 1;
        }
        self.initialised = true;
    }
}

// ---------------------------------------------------------------- overlay

/// What the metadata overlay says of a trail.
pub open spec fn binding(t: Trail3d) -> Option<Seq<char>> {
    match t.sources {
        Some(s) => Some(
            t.name@ + ": x="@ + s.x@ + "  y="@ + s.y@ + "  z_neg="@ + s.z_neg@,
        ),
        None => match t.deadreckon {
            Some(d) => Some(
                t.name@ + ": dead-reckon accel="@ + d.accel@ + " quat="@ + d.quat@ + " seed="@
                    + d.seed_from@,
            ),
            None => None,
        },
    }
}

/// What the metadata overlay says of the first `n` trails.
pub open spec fn bindings(trails: Seq<Trail3d>, n: int) -> Seq<Seq<char>>
    decreases n,
{
    if n <= 0 {
        Seq::empty()
    } else {
        match binding(trails[n - 1]) {
            Some(b) => bindings(trails, n - 1).push(b),
            None => bindings(trails, n - 1),
        }
    }
}

/// The metadata overlay: a line for each trail that is bound to channels.
pub fn trail_bindings(view: &View3d) -> (r: String)
    ensures
        r@ == joined(bindings(view.trails@, view.trails.len() as int), "\n"@),
{
    let mut lines: Vec<String> = Vec::new();
    let mut i: usize = 0;
    proof {
        assert(texts(lines@) =~= bindings(view.trails@, 0));
    }
    while i < view.trails.len()
        invariant
            i <= view.trails.len(),
            texts(lines@) == bindings(view.trails@, i as int),
        decreases view.trails.len() - i,
    {
        let t = &view.trails[i];
        let ghost before = lines@;
        match &t.sources {
            Some(s) => {
                let mut l = t.name.clone();
                l.append(": x=");
                l.append(s.x.as_str());
                l.append("  y=");
                l.append(s.y.as_str());
                l.append("  z_neg=");
                l.append(s.z_neg.as_str());
                let ghost lv = l@;
                lines.push(l);
                proof {
                    assert(texts(lines@) =~= texts(before).push(lv));
                }
            },
            None => match &t.deadreckon {
                Some(d) => {
                    let mut l = t.name.clone();
                    l.append(": dead-reckon accel=");
                    l.append(d.accel.as_str());
                    l.append(" quat=");
                    l.append(d.quat.as_str());
                    l.append(" seed=");
                    l.append(d.seed_from.as_str());
                    let ghost lv = l@;
                    lines.push(l);
                    proof {
                        assert(texts(lines@) =~= texts(before).push(lv));
                    }
                },
                None => {},
            },
        }
        i = i + 1;
    }
    join(&lines, "\n")
}

/// The name under which a trail is listed: its label, or its name.
pub fn trail_caption(t: &Trail3d) -> (r: &String)
    ensures
        *r == if t.label@.len() == 0 {
            t.name
        } else {
            t.label
        },
{
    if t.label.as_str().is_empty() {
        &t.name
    } else {
        &t.label
    }
}

} // verus!
