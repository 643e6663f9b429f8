//! What a panel plots: which lines, from which points, under which names and in
//! which colours. Scaling, norms and differences are left to the painter.
use vstd::prelude::*;

use crate::color::{color_for, line_color, palette, tab10, Rgb};
use crate::keymap::{ascending, KeyMap, KeySet};
use crate::num::Num;
use crate::store::{aligned3, shorter, Point, StoresView, TraceStore};
use crate::template::{Cell, CellSource, Primitive, Template};
use crate::text::{before, cat3, owned, prefix_before, same_text, texts};

verus! {

/// The points of a line.
#[derive(Clone, Debug)]
pub enum Series {
    /// As they were stored.
    Plain(Vec<Point>),
    /// The norm of three components.
    Norm(Vec<(i64, [Num; 3])>),
    /// The second value taken from the first.
    Difference(Vec<(i64, Num, Num)>),
}

/// One line of a plot.
#[derive(Clone, Debug)]
pub struct PlotLine {
    pub label: String,
    pub color: Rgb,
    /// Values are multiplied by this.
    pub scale: Option<Num>,
    /// Values are turned from radians into degrees.
    pub degrees: bool,
    pub series: Series,
}

/// The store that a source reads from.
pub open spec fn store_of(view: StoresView, src: CellSource) -> TraceStore {
    view.behind_pins(
        match src.source_drone {
            Some(d) => Some(d@),
            None => None,
        },
        match src.source_uri {
            Some(u) => Some(u@),
            None => None,
        },
    )
}

/// The points under a key, or under another one where the first has none.
pub open spec fn points_or(s: TraceStore, key: Seq<char>, other: Option<Seq<char>>) -> Seq<Point> {
    if s.series(key).len() > 0 {
        s.series(key)
    } else {
        match other {
            Some(f) => s.series(f),
            None => Seq::empty(),
        }
    }
}

/// The characters of an optional string.
pub open spec fn opt_chars(o: Option<String>) -> Option<Seq<char>> {
    match o {
        Some(s) => Some(s@),
        None => None,
    }
}

/// The points of a source, or of its fallback.
pub open spec fn source_points(view: StoresView, src: CellSource) -> Seq<Point> {
    points_or(store_of(view, src), src.key@, opt_chars(src.fallback))
}

/// `base[i]`.
pub open spec fn component(base: Seq<char>, i: int) -> Seq<char> {
    base + (if i == 0 {
        "[0]"@
    } else if i == 1 {
        "[1]"@
    } else if i == 2 {
        "[2]"@
    } else {
        "[3]"@
    })
}

/// `base[i]`, for `i` up to 3.
pub fn component_key(base: &str, i: usize) -> (r: String)
    requires
        i <= 3,
    ensures
        r@ == component(base@, i as int),
{
    let tail = if i == 0 {
        "[0]"
    } else if i == 1 {
        "[1]"
    } else if i == 2 {
        "[2]"
    } else {
        "[3]"
    };
    crate::text::cat2(base, tail)
}

/// The points of component `i` of a vector source.
pub open spec fn component_points_of(view: StoresView, src: CellSource, i: int) -> Seq<Point> {
    points_or(
        store_of(view, src),
        component(src.key@, i),
        match src.fallback {
            Some(f) => Some(component(f@, i)),
            None => None,
        },
    )
}

/// A key without its index.
pub open spec fn bare(key: Seq<char>) -> Seq<char> {
    before(key, '[', '[')
}

/// A key without its index.
pub fn short_key(k: &str) -> (r: &str)
    ensures
        r@ == bare(k@),
{
    prefix_before(k, '[', '[')
}

/// A label, or another text where it is empty.
pub open spec fn named(label: Seq<char>, other: Seq<char>) -> Seq<char> {
    if label.len() == 0 {
        other
    } else {
        label
    }
}

/// Does a source ask for degrees?
pub open spec fn wants_degrees(src: CellSource) -> bool {
    src.transform is Some && src.transform->0@ == "rad_to_deg"@
}

/// Is `l` the line of the `i`-th source of a panel?
pub open spec fn scalar_line(l: PlotLine, view: StoresView, src: CellSource, i: int) -> bool {
    &&& l.label@ == named(src.label@, src.key@)
    &&& l.color == line_color(src.color@, i)
    &&& l.scale == src.scale
    &&& l.degrees == wants_degrees(src)
    &&& l.series is Plain
    &&& l.series->Plain_0@ == source_points(view, src)
}

/// The indices of the first `n` sources that have points.
pub open spec fn with_points(view: StoresView, sources: Seq<CellSource>, n: int) -> Seq<int>
    decreases n,
{
    if n <= 0 {
        Seq::empty()
    } else if source_points(view, sources[n - 1]).len() > 0 {
        with_points(view, sources, n - 1).push(n - 1)
    } else {
        with_points(view, sources, n - 1)
    }
}

/// Are these the lines of a panel that plots its sources one by one?
pub open spec fn scalar_lines(ls: Seq<PlotLine>, view: StoresView, sources: Seq<CellSource>) -> bool {
    let at = with_points(view, sources, sources.len() as int);
    &&& ls.len() == at.len()
    &&& forall|j: int|
        0 <= j < ls.len() ==> scalar_line(#[trigger] ls[j], view, sources[at[j]], at[j])
}

/// The name of axis `i` of a vector or of an attitude.
pub open spec fn axis(i: int, attitude: bool) -> Seq<char> {
    if attitude {
        if i == 0 {
            "roll"@
        } else if i == 1 {
            "pitch"@
        } else {
            "yaw"@
        }
    } else if i == 0 {
        ".x"@
    } else if i == 1 {
        ".y"@
    } else {
        ".z"@
    }
}

/// Is `l` the line of component `i` of a vector source?
pub open spec fn component_line(
    l: PlotLine,
    view: StoresView,
    src: CellSource,
    i: int,
    attitude: bool,
) -> bool {
    &&& l.label@ == if attitude {
        axis(i, true)
    } else {
        bare(src.key@) + axis(i, false)
    }
    &&& l.color == palette(i)
    &&& l.scale == src.scale
    &&& l.degrees == attitude
    &&& l.series is Plain
    &&& l.series->Plain_0@ == component_points_of(view, src, i)
}

/// The components, of the first `n`, that have points.
pub open spec fn components_with_points(view: StoresView, src: CellSource, n: int) -> Seq<int>
    decreases n,
{
    if n <= 0 {
        Seq::empty()
    } else if component_points_of(view, src, n - 1).len() > 0 {
        components_with_points(view, src, n - 1).push(n - 1)
    } else {
        components_with_points(view, src, n - 1)
    }
}

/// Is it the line of the norm of a vector source?
pub open spec fn norm_line(
    l: PlotLine,
    view: StoresView,
    src: CellSource,
    label: Seq<char>,
    color: Rgb,
) -> bool {
    &&& l.label@ == label
    &&& l.color == color
    &&& l.scale == src.scale
    &&& !l.degrees
    &&& l.series is Norm
    &&& aligned3(
        l.series->Norm_0@,
        component_points_of(view, src, 0),
        component_points_of(view, src, 1),
        component_points_of(view, src, 2),
    )
}

/// The number of points of the norm of a vector source.
pub open spec fn norm_len(view: StoresView, src: CellSource) -> nat {
    shorter(
        component_points_of(view, src, 0).len(),
        shorter(
            component_points_of(view, src, 1).len(),
            component_points_of(view, src, 2).len(),
        ),
    )
}

/// Are these the lines of a vector: one for each component with points, and one
/// for the norm where it is asked for and has points?
pub open spec fn vector_lines(
    ls: Seq<PlotLine>,
    view: StoresView,
    src: CellSource,
    attitude: bool,
    norm: bool,
) -> bool {
    let at = components_with_points(view, src, 3);
    let n = at.len() as int;
    &&& ls.len() == n + if norm && norm_len(view, src) > 0 {
        1int
    } else {
        0
    }
    &&& forall|j: int|
        0 <= j < n ==> component_line(#[trigger] ls[j], view, src, at[j], attitude)
    &&& norm && norm_len(view, src) > 0 ==> norm_line(
        ls[n],
        view,
        src,
        "|.|"@,
        crate::color::gray(30),
    )
}

/// Is it the line of a difference?
pub open spec fn difference_line(l: PlotLine, view: StoresView, cell: Cell) -> bool {
    let src = cell.sources@[0];
    let a = store_of(view, src).series(src.key@);
    let b = store_of(view, src).series(src.minus->0@);
    &&& l.label@ == named(src.label@, bare(src.key@) + " − "@ + bare(src.minus->0@))
    &&& l.color == match cell.color {
        Some(c) => line_color(c@, 0),
        None => line_color(src.color@, 0),
    }
    &&& l.scale is None
    &&& !l.degrees
    &&& l.series is Difference
    &&& l.series->Difference_0.len() == shorter(a.len(), b.len())
    &&& forall|k: int|
        0 <= k < l.series->Difference_0.len() ==> #[trigger] l.series->Difference_0@[k] == (
            a[k].t,
            a[k].value,
            b[k].value,
        )
}

/// Are these the lines that a panel plots?
pub open spec fn lines_of(ls: Seq<PlotLine>, view: StoresView, cell: Cell) -> bool {
    let src = cell.sources@[0];
    match cell.primitive {
        Primitive::Scalar | Primitive::Overlay => scalar_lines(ls, view, cell.sources@),
        Primitive::Status | Primitive::StatusBadge | Primitive::InfoText => ls.len() == 0,
        _ => if cell.sources.len() == 0 {
            ls.len() == 0
        } else {
            match cell.primitive {
                Primitive::Vector => vector_lines(ls, view, src, false, false),
                Primitive::MagInterference => vector_lines(ls, view, src, false, true),
                Primitive::AttitudeRpy => vector_lines(ls, view, src, true, false),
                Primitive::Magnitude => if norm_len(view, src) == 0 {
                    ls.len() == 0
                } else {
                    ls.len() == 1 && norm_line(
                        ls[0],
                        view,
                        src,
                        named(src.label@, "|"@ + bare(src.key@) + "|"@),
                        line_color(src.color@, 0),
                    )
                },
                _ => if src.minus is None {
                    if source_points(view, src).len() == 0 {
                        ls.len() == 0
                    } else {
                        ls.len() == 1 && scalar_line(ls[0], view, src, 0)
                    }
                } else {
                    let n = shorter(
                        store_of(view, src).series(src.key@).len(),
                        store_of(view, src).series(src.minus->0@).len(),
                    );
                    if n == 0 {
                        ls.len() == 0
                    } else {
                        ls.len() == 1 && difference_line(ls[0], view, cell)
                    }
                },
            }
        },
    }
}

/// The points under a key, or under another one where the first has none.
fn read_points(store: &TraceStore, key: &str, other: Option<&str>) -> (r: Vec<Point>)
    requires
        store.wf(),
    ensures
        r@ == points_or(
            *store,
            key@,
            match other {
                Some(f) => Some(f@),
                None => None,
            },
        ),
{
    let pts = store.points(key);
    if pts.len() == 0 {
        match other {
            Some(f) => store.points(f),
            None => pts,
        }
    } else {
        pts
    }
}

/// The points of a source, or of its fallback.
pub fn resolve_points(src: &CellSource, view: &StoresView) -> (r: Vec<Point>)
    requires
        view.wf(),
    ensures
        r@ == source_points(*view, *src),
{
    let store = view.for_source(src);
    match &src.fallback {
        Some(f) => read_points(store, src.key.as_str(), Some(f.as_str())),
        None => read_points(store, src.key.as_str(), None),
    }
}

/// The points of component `i` of a vector source.
pub fn component_points(src: &CellSource, view: &StoresView, i: usize) -> (r: Vec<Point>)
    requires
        view.wf(),
        i <= 3,
    ensures
        r@ == component_points_of(*view, *src, i as int),
{
    let store = view.for_source(src);
    let key = component_key(src.key.as_str(), i);
    match &src.fallback {
        Some(f) => {
            let other = component_key(f.as_str(), i);
            read_points(store, key.as_str(), Some(other.as_str()))
        },
        None => read_points(store, key.as_str(), None),
    }
}

fn degrees_asked(src: &CellSource) -> (r: bool)
    ensures
        r == wants_degrees(*src),
{
    match &src.transform {
        Some(t) => same_text(t.as_str(), "rad_to_deg"),
        None => false,
    }
}

fn label_or(label: &str, other: String) -> (r: String)
    ensures
        r@ == named(label@, other@),
{
    if label.is_empty() {
        other
    } else {
        owned(label)
    }
}

/// The line of a source, where it has points.
fn draw_scalar_source(src: &CellSource, view: &StoresView, idx: usize) -> (r: Option<PlotLine>)
    requires
        view.wf(),
    ensures
        match r {
            Some(l) => source_points(*view, *src).len() > 0 && scalar_line(
                l,
                *view,
                *src,
                idx as int,
            ),
            None => source_points(*view, *src).len() == 0,
        },
{
    let pts = resolve_points(src, view);
    if pts.len() == 0 {
        return None;
    }
    Some(
        PlotLine {
            label: label_or(src.label.as_str(), src.key.clone()),
            color: color_for(src.color.as_str(), idx),
            scale: src.scale,
            degrees: degrees_asked(src),
            series: Series::Plain(pts),
        },
    )
}

/// Three series taken side by side, up to the shortest.
fn align3(a: &Vec<Point>, b: &Vec<Point>, c: &Vec<Point>) -> (r: Vec<(i64, [Num; 3])>)
    ensures
        aligned3(r@, a@, b@, c@),
{
    let mut out: Vec<(i64, [Num; 3])> = Vec::new();
    let mut i: usize = 0;
    while i < a.len() && i < b.len() && i < c.len()
        invariant
            i <= a.len(),
            i <= b.len(),
            i <= c.len(),
            out.len() == i,
            forall|k: int|
                0 <= k < i ==> (#[trigger] out@[k]).0 == a@[k].t && out@[k].1@ == seq![
                    a@[k].value,
                    b@[k].value,
                    c@[k].value,
                ],
        decreases a.len() - i,
    {
        let v: [Num; 3] = [a[i].value, b[i].value, c[i].value];
        proof {
            assert(v@ =~= seq![a@[i as int].value, b@[i as int].value, c@[i as int].value]);
        }
        out.push((a[i].t, v));
        i = i + 1;
    }
    out
}

/// The points of the norm of a vector source.
fn norm_points(src: &CellSource, view: &StoresView) -> (r: Vec<(i64, [Num; 3])>)
    requires
        view.wf(),
    ensures
        aligned3(
            r@,
            component_points_of(*view, *src, 0),
            component_points_of(*view, *src, 1),
            component_points_of(*view, *src, 2),
        ),
{
    let a = component_points(src, view, 0);
    let b = component_points(src, view, 1);
    let c = component_points(src, view, 2);
    align3(&a, &b, &c)
}

/// The lines of a vector source.
fn draw_vector(src: &CellSource, view: &StoresView, attitude: bool, norm: bool) -> (r: Vec<PlotLine>)
    requires
        view.wf(),
    ensures
        vector_lines(r@, *view, *src, attitude, norm),
{
    let mut out: Vec<PlotLine> = Vec::new();
    let mut i: usize = 0;
    while i < 3
        invariant
            i <= 3,
            view.wf(),
            out.len() == components_with_points(*view, *src, i as int).len(),
            forall|j: int|
                0 <= j < out.len() ==> component_line(
                    #[trigger] out@[j],
                    *view,
                    *src,
                    components_with_points(*view, *src, i as int)[j],
                    attitude,
                ),
        decreases 3 - i,
    {
        let pts = component_points(src, view, i);
        if pts.len() > 0 {
            let name = if attitude {
                if i == 0 {
                    "roll"
                } else if i == 1 {
                    "pitch"
                } else {
                    "yaw"
                }
            } else if i == 0 {
                ".x"
            } else if i == 1 {
                ".y"
            } else {
                ".z"
            };
            let label = if attitude {
                owned(name)
            } else {
                crate::text::cat2(short_key(src.key.as_str()), name)
            };
            out.push(
                PlotLine {
                    label,
                    color: tab10(i),
                    scale: src.scale,
                    degrees: attitude,
                    series: Series::Plain(pts),
                },
            );
        }
        i = i + 1;
    }
    if norm {
        let pts = norm_points(src, view);
        if pts.len() > 0 {
            out.push(
                PlotLine {
                    label: owned("|.|"),
                    color: Rgb::from_gray(30),
                    scale: src.scale,
                    degrees: false,
                    series: Series::Norm(pts),
                },
            );
        }
    }
    out
}

/// The line of a difference, where both sides have points.
fn draw_diff(cell: &Cell, view: &StoresView) -> (r: Vec<PlotLine>)
    requires
        view.wf(),
        cell.sources.len() > 0,
        cell.primitive == Primitive::Diff,
    ensures
        lines_of(r@, *view, *cell),
{
    let mut out: Vec<PlotLine> = Vec::new();
    let src = &cell.sources[0];
    match &src.minus {
        None => {
            match draw_scalar_source(src, view, 0) {
                Some(l) => {
                    out.push(l);
                },
                None => {},
            }
        },
        Some(minus) => {
            let store = view.for_source(src);
            let a = store.points(src.key.as_str());
            let b = store.points(minus.as_str());
            let mut diff: Vec<(i64, Num, Num)> = Vec::new();
            let mut i: usize = 0;
            while i < a.len() && i < b.len()
                invariant
                    i <= a.len(),
                    i <= b.len(),
                    diff.len() == i,
                    forall|k: int|
                        0 <= k < i ==> #[trigger] diff@[k] == (a@[k].t, a@[k].value, b@[k].value),
                decreases a.len() - i,
            {
                diff.push((a[i].t, a[i].value, b[i].value));
                i = i + 1;
            }
            if diff.len() > 0 {
                let other = cat3(
                    short_key(src.key.as_str()),
                    " − ",
                    short_key(minus.as_str()),
                );
                let color = match &cell.color {
                    Some(c) => color_for(c.as_str(), 0),
                    None => color_for(src.color.as_str(), 0),
                };
                let line = PlotLine {
                    label: label_or(src.label.as_str(), other),
                    color,
                    scale: None,
                    degrees: false,
                    series: Series::Difference(diff),
                };
                out.push(line);
            }
        },
    }
    out
}

/// The lines that a panel plots. A panel has data where there are any.
pub fn plot_lines(cell: &Cell, view: &StoresView) -> (r: Vec<PlotLine>)
    requires
        view.wf(),
    ensures
        lines_of(r@, *view, *cell),
{
    let mut out: Vec<PlotLine> = Vec::new();
    match cell.primitive {
        Primitive::Scalar | Primitive::Overlay => {
            let mut i: usize = 0;
            while i < cell.sources.len()
                invariant
                    i <= cell.sources.len(),
                    view.wf(),
                    out.len() == with_points(*view, cell.sources@, i as int).len(),
                    forall|j: int|
                        0 <= j < out.len() ==> scalar_line(
                            #[trigger] out@[j],
                            *view,
                            cell.sources@[with_points(*view, cell.sources@, i as int)[j]],
                            with_points(*view, cell.sources@, i as int)[j],
                        ),
                decreases cell.sources.len() - i,
            {
                match draw_scalar_source(&cell.sources[i], view, i) {
                    Some(l) => {
                        out.push(l);
                    },
                    None => {},
                }
                i = i + 1;
            }
            out
        },
        Primitive::Status | Primitive::StatusBadge | Primitive::InfoText => out,
        _ => {
            if cell.sources.len() == 0 {
                return out;
            }
            let src = &cell.sources[0];
            match cell.primitive {
                Primitive::Vector => draw_vector(src, view, false, false),
                Primitive::MagInterference => draw_vector(src, view, false, true),
                Primitive::AttitudeRpy => draw_vector(src, view, true, false),
                Primitive::Magnitude => {
                    let pts = norm_points(src, view);
                    if pts.len() > 0 {
                        let other = cat3("|", short_key(src.key.as_str()), "|");
                        let line = PlotLine {
                            label: label_or(src.label.as_str(), other),
                            color: color_for(src.color.as_str(), 0),
                            scale: src.scale,
                            degrees: false,
                            series: Series::Norm(pts),
                        };
                        out.push(line);
                    }
                    out
                },
                _ => draw_diff(cell, view),
            }
        },
    }
}

// ---------------------------------------------------------------- referenced keys

/// Does a source of a panel of this kind refer to key `k`?
pub open spec fn source_refers(p: Primitive, src: CellSource, k: Seq<char>) -> bool {
    match p {
        Primitive::Vector | Primitive::Magnitude | Primitive::MagInterference
        | Primitive::AttitudeRpy => k == component(src.key@, 0) || k == component(src.key@, 1) || k
            == component(src.key@, 2),
        Primitive::Diff => k == src.key@ || opt_chars(src.minus) == Some(k),
        _ => k == src.key@ || opt_chars(src.fallback) == Some(k),
    }
}

/// Does a visible panel refer to key `k`?
pub open spec fn cell_refers(c: Cell, k: Seq<char>) -> bool {
    c.visible && ((c.primitive == Primitive::Status && c.source@.len() > 0 && k == c.source@) || (
    exists|j: int|
        0 <= j < c.sources.len() && source_refers(c.primitive, #[trigger] c.sources@[j], k)))
}

/// Does a template refer to key `k`?
pub open spec fn refers(t: Template, k: Seq<char>) -> bool {
    exists|i: int| 0 <= i < t.cells.len() && cell_refers(#[trigger] t.cells@[i], k)
}

/// Does a store have data under key `k`?
pub open spec fn has_data(s: TraceStore, k: Seq<char>) -> bool {
    s.series(k).len() > 0 || s.strings@.contains_key(k) || s.log(k).len() > 0
}

fn add_source(all: &mut KeySet, p: Primitive, src: &CellSource)
    requires
        old(all).wf(),
    ensures
        final(all).wf(),
        forall|k: Seq<char>| #[trigger]
            final(all)@.contains_key(k) <==> old(all)@.contains_key(k) || source_refers(p, *src, k),
{
    match p {
        Primitive::Vector | Primitive::Magnitude | Primitive::MagInterference
        | Primitive::AttitudeRpy => {
            all.insert(component_key(src.key.as_str(), 0), ());
            all.insert(component_key(src.key.as_str(), 1), ());
            all.insert(component_key(src.key.as_str(), 2), ());
        },
        Primitive::Diff => {
            all.insert(src.key.clone(), ());
            match &src.minus {
                Some(m) => {
                    all.insert(m.clone(), ());
                },
                None => {},
            }
        },
        _ => {
            all.insert(src.key.clone(), ());
            match &src.fallback {
                Some(f) => {
                    all.insert(f.clone(), ());
                },
                None => {},
            }
        },
    }
}

fn add_cell(all: &mut KeySet, cell: &Cell)
    requires
        old(all).wf(),
    ensures
        final(all).wf(),
        forall|k: Seq<char>| #[trigger]
            final(all)@.contains_key(k) <==> old(all)@.contains_key(k) || cell_refers(*cell, k),
{
    let ghost start = all@;
    if !cell.visible {
        return ;
    }
    let mut j: usize = 0;
    while j < cell.sources.len()
        invariant
            j <= cell.sources.len(),
            all.wf(),
            forall|k: Seq<char>| #[trigger]
                all@.contains_key(k) <==> start.contains_key(k) || exists|i: int|
                    0 <= i < j && source_refers(cell.primitive, #[trigger] cell.sources@[i], k),
        decreases cell.sources.len() - j,
    {
        let ghost was = all@;
        add_source(all, cell.primitive, &cell.sources[j]);
        proof {
            assert forall|k: Seq<char>| #[trigger] all@.contains_key(k) <==> start.contains_key(k)
                || exists|i: int|
                0 <= i < j + 1 && source_refers(cell.primitive, #[trigger] cell.sources@[i], k) by {
                if was.contains_key(k) && !start.contains_key(k) {
                    let i = choose|i: int|
                        0 <= i < j && source_refers(cell.primitive, #[trigger] cell.sources@[i], k);
                    assert(source_refers(cell.primitive, cell.sources@[i], k));
                }
                if source_refers(cell.primitive, cell.sources@[j as int], k) {
                    assert(all@.contains_key(k));
                }
            }
        }
        j = j + 1;
    }
    let status = match cell.primitive {
        Primitive::Status => true,
        _ => false,
    };
    if status && !cell.source.as_str().is_empty() {
        all.insert(cell.source.clone(), ());
    }
}

/// The keys that a template refers to, in order.
pub fn referenced_keys(tpl: &Template) -> (r: Vec<String>)
    ensures
        ascending(texts(r@)),
        forall|k: Seq<char>| #[trigger] texts(r@).contains(k) <==> refers(*tpl, k),
{
    let mut all: KeySet = KeyMap::new();
    let mut i: usize = 0;
    while i < tpl.cells.len()
        invariant
            i <= tpl.cells.len(),
            all.wf(),
            forall|k: Seq<char>| #[trigger]
                all@.contains_key(k) <==> exists|j: int|
                    0 <= j < i && cell_refers(#[trigger] tpl.cells@[j], k),
        decreases tpl.cells.len() - i,
    {
        let ghost was = all@;
        add_cell(&mut all, &tpl.cells[i]);
        proof {
            assert forall|k: Seq<char>| #[trigger] all@.contains_key(k) <==> exists|j: int|
                0 <= j < i + 1 && cell_refers(#[trigger] tpl.cells@[j], k) by {
                if was.contains_key(k) {
                    let j = choose|j: int| 0 <= j < i && cell_refers(#[trigger] tpl.cells@[j], k);
                    assert(cell_refers(tpl.cells@[j], k));
                }
                if cell_refers(tpl.cells@[i as int], k) {
                    assert(all@.contains_key(k));
                }
            }
        }
        i = i + 1;
    }
    all.keys()
}

/// How many of the keys that a template refers to have data.
pub fn count_keys_with_data(tpl: &Template, store: &TraceStore) -> (n: usize)
    requires
        store.wf(),
    ensures
        exists|ks: Seq<Seq<char>>|
            #![trigger ascending(ks)]
            {
                &&& ascending(ks)
                &&& forall|k: Seq<char>| #[trigger] ks.contains(k) <==> refers(*tpl, k)
                &&& n == ks.filter(|k: Seq<char>| has_data(*store, k)).len()
            },
{
    let keys = referenced_keys(tpl);
    let ghost ks = texts(keys@);
    let ghost f = |k: Seq<char>| has_data(*store, k);
    let mut n: usize = 0;
    let mut i: usize = 0;
    proof {
        reveal(Seq::filter);
        assert(ks.take(0).filter(f) =~= Seq::empty());
    }
    while i < keys.len()
        invariant
            i <= keys.len(),
            store.wf(),
            ks == texts(keys@),
            f == (|k: Seq<char>| has_data(*store, k)),
            n == ks.take(i as int).filter(f).len(),
            n <= i,
        decreases keys.len() - i,
    {
        proof {
            reveal(Seq::filter);
            assert(ks.take(i + 1).drop_last() =~= ks.take(i as int));
            assert(ks.take(i + 1).last() == keys@[i as int]@);
        }
        let k = keys[i].as_str();
        if store.len(k) > 0 || store.latest_string(k).is_some() || store.has_log(k) {
            n = n + 1;
        }
        i = i + 1;
    }
    proof {
        assert(ks.take(keys.len() as int) =~= ks);
        assert(ascending(ks));
    }
    n
}

} // verus!
