//! Plots: which channel each line shows, from which store, and in which unit.
use vstd::prelude::*;

use crate::color::{color_value, palette, Rgb};
use crate::keymap::KeyMap;
use crate::plot::{
    cell_refers, component_points_of, components_with_points, has_data, lines_of, source_points,
    store_of, with_points, PlotLine,
};
use crate::store::{StoresView, TraceStore};
use crate::template::{Cell, CellSource, Primitive};

verus! {

// ---------------------------------------------------------------- stores

/// Where there is one store, every source reads from it.
pub proof fn a_single_store_serves_all<'a>(store: &'a TraceStore, src: CellSource)
    ensures
        store_of(StoresView::Single { store }, src) == *store,
{
}

/// A source without a pin reads from the drone on view; one with the address of a
/// connection from the drone behind it; one with the name of a drone from that drone,
/// whatever its address. A pin to what has no data counts for nothing.
pub proof fn sources_read_from_where_they_are_pinned<'a>(
    stores: &'a KeyMap<TraceStore>,
    uris: &'a KeyMap<String>,
    view: &'a str,
    empty: &'a TraceStore,
    src: CellSource,
)
    ensures
        ({
            let v = StoresView::Multi { stores, uri_to_drone: uris, view_drone: view, empty };
            let shown = if stores@.contains_key(view@) {
                stores@[view@]
            } else {
                *empty
            };
            let drone = src.source_drone;
            let uri = src.source_uri;
            let by_name = drone is Some && drone->0@.len() > 0 && stores@.contains_key(drone->0@);
            let by_link = uri is Some && uri->0@.len() > 0 && uris@.contains_key(uri->0@)
                && stores@.contains_key(uris@[uri->0@]@);
            &&& by_name ==> store_of(v, src) == stores@[drone->0@]
            &&& !by_name && by_link ==> store_of(v, src) == stores@[uris@[uri->0@]@]
            &&& !by_name && !by_link ==> store_of(v, src) == shown
            &&& v.on_view() == shown
        }),
{
}

// ---------------------------------------------------------------- points

/// A source shows the points of its channel, and those of its fallback exactly where its
/// channel has none.
pub proof fn sources_show_their_channel_or_its_fallback(view: StoresView, src: CellSource, i: int)
    requires
        0 <= i <= 2,
    ensures
        ({
            let s = store_of(view, src);
            let own = s.series(src.key@);
            &&& own.len() > 0 ==> source_points(view, src) == own
            &&& own.len() == 0 && src.fallback is Some ==> source_points(view, src) == s.series(
                src.fallback->0@,
            )
            &&& own.len() == 0 && src.fallback is None ==> source_points(view, src).len() == 0
        }),
        ({
            let s = store_of(view, src);
            let tail = if i == 0 {
                "[0]"@
            } else if i == 1 {
                "[1]"@
            } else {
                "[2]"@
            };
            let own = s.series(src.key@ + tail);
            &&& own.len() > 0 ==> component_points_of(view, src, i) == own
            &&& own.len() == 0 && src.fallback is Some ==> component_points_of(view, src, i)
                == s.series(src.fallback->0@ + tail)
            &&& own.len() == 0 && src.fallback is None ==> component_points_of(view, src, i).len()
                == 0
        }),
{
}

proof fn lemma_components(view: StoresView, src: CellSource, n: int)
    requires
        0 <= n <= 3,
    ensures
        components_with_points(view, src, n).len() <= n,
        forall|j: int|
            0 <= j < components_with_points(view, src, n).len() ==> 0
                <= #[trigger] components_with_points(view, src, n)[j] < n,
        (forall|i: int| 0 <= i < n ==> (#[trigger] component_points_of(view, src, i)).len() > 0)
            ==> components_with_points(view, src, n).len() == n && forall|j: int|
            0 <= j < n ==> #[trigger] components_with_points(view, src, n)[j] == j,
    decreases n,
{
    if n > 0 {
        lemma_components(view, src, n - 1);
        assert(component_points_of(view, src, n - 1).len() >= 0);
    }
}

// ---------------------------------------------------------------- attitude

/// Every line of an attitude panel is turned from radians into degrees, and is named after
/// the channel that it shows: roll with index 0, pitch with index 1, yaw with index 2.
pub proof fn attitudes_are_shown_in_degrees(ls: Seq<PlotLine>, view: StoresView, c: Cell, j: int)
    requires
        lines_of(ls, view, c),
        c.primitive == Primitive::AttitudeRpy,
        0 <= j < ls.len(),
    ensures
        ls[j].degrees,
        ls[j].scale == c.sources@[0].scale,
        ls[j].series is Plain,
        ({
            let p = ls[j].series->Plain_0@;
            ||| ls[j].label@ == "roll"@ && p == component_points_of(view, c.sources@[0], 0)
            ||| ls[j].label@ == "pitch"@ && p == component_points_of(view, c.sources@[0], 1)
            ||| ls[j].label@ == "yaw"@ && p == component_points_of(view, c.sources@[0], 2)
        }),
{
    lemma_components(view, c.sources@[0], 3);
    let at = components_with_points(view, c.sources@[0], 3);
    assert(0 <= at[j] < 3);
}

/// Where all three have points there are three of them, in the order roll, pitch, yaw.
pub proof fn attitudes_have_three_lines(ls: Seq<PlotLine>, view: StoresView, c: Cell)
    requires
        lines_of(ls, view, c),
        c.primitive == Primitive::AttitudeRpy,
        c.sources.len() > 0,
        component_points_of(view, c.sources@[0], 0).len() > 0,
        component_points_of(view, c.sources@[0], 1).len() > 0,
        component_points_of(view, c.sources@[0], 2).len() > 0,
    ensures
        ls.len() == 3,
        ls[0].label@ == "roll"@,
        ls[1].label@ == "pitch"@,
        ls[2].label@ == "yaw"@,
{
    lemma_components(view, c.sources@[0], 3);
}

// ---------------------------------------------------------------- vectors

/// No line of a vector panel is turned into degrees, and each is named after the axis of
/// the channel that it shows: `x` with index 0, `y` with index 1, `z` with index 2.
pub proof fn vectors_are_shown_as_they_are(ls: Seq<PlotLine>, view: StoresView, c: Cell, j: int)
    requires
        lines_of(ls, view, c),
        c.primitive == Primitive::Vector,
        0 <= j < ls.len(),
    ensures
        !ls[j].degrees,
        ls[j].scale == c.sources@[0].scale,
        ls[j].series is Plain,
        ({
            let p = ls[j].series->Plain_0@;
            let n = ls[j].label@;
            ||| n[n.len() - 2] == '.' && n.last() == 'x' && p == component_points_of(
                view,
                c.sources@[0],
                0,
            )
            ||| n[n.len() - 2] == '.' && n.last() == 'y' && p == component_points_of(
                view,
                c.sources@[0],
                1,
            )
            ||| n[n.len() - 2] == '.' && n.last() == 'z' && p == component_points_of(
                view,
                c.sources@[0],
                2,
            )
        }),
{
    lemma_components(view, c.sources@[0], 3);
    let at = components_with_points(view, c.sources@[0], 3);
    assert(0 <= at[j] < 3);
    reveal_strlit(".x");
    reveal_strlit(".y");
    reveal_strlit(".z");
}

/// The lines of an interference panel are those of a vector panel, and where all three
/// channels have points a last one of their norm; none is turned into degrees.
pub proof fn interference_adds_the_norm(
    ls: Seq<PlotLine>,
    vs: Seq<PlotLine>,
    view: StoresView,
    c: Cell,
    d: Cell,
)
    requires
        lines_of(ls, view, c),
        c.primitive == Primitive::MagInterference,
        d.primitive == Primitive::Vector,
        d.sources == c.sources,
        c.sources.len() > 0,
        lines_of(vs, view, d),
    ensures
        forall|j: int| 0 <= j < ls.len() ==> !(#[trigger] ls[j]).degrees,
        ({
            let whole = component_points_of(view, c.sources@[0], 0).len() > 0
                && component_points_of(view, c.sources@[0], 1).len() > 0 && component_points_of(
                view,
                c.sources@[0],
                2,
            ).len() > 0;
            &&& ls.len() == vs.len() + if whole {
                1int
            } else {
                0
            }
            &&& whole ==> ls[ls.len() - 1].series is Norm
        }),
        forall|j: int|
            0 <= j < vs.len() ==> (#[trigger] ls[j]).label@ == vs[j].label@ && ls[j].color
                == vs[j].color && ls[j].series is Plain && ls[j].series->Plain_0@
                == vs[j].series->Plain_0@,
{
    lemma_components(view, c.sources@[0], 3);
    let at = components_with_points(view, c.sources@[0], 3);
    assert forall|j: int| 0 <= j < ls.len() implies !(#[trigger] ls[j]).degrees by {
        if j < at.len() {
            assert(0 <= at[j] < 3);
        }
    }
}

/// A magnitude panel has one line, where all three channels have points, of their norm: its
/// `k`-th point is made of the `k`-th points of the channels with index 0, 1 and 2, at the
/// time of the first, and is not turned into degrees.
pub proof fn magnitudes_are_of_three_channels(ls: Seq<PlotLine>, view: StoresView, c: Cell)
    requires
        lines_of(ls, view, c),
        c.primitive == Primitive::Magnitude,
        c.sources.len() > 0,
    ensures
        ({
            let x = component_points_of(view, c.sources@[0], 0);
            let y = component_points_of(view, c.sources@[0], 1);
            let z = component_points_of(view, c.sources@[0], 2);
            &&& ls.len() <= 1
            &&& ls.len() == 1 <==> x.len() > 0 && y.len() > 0 && z.len() > 0
            &&& ls.len() == 1 ==> {
                let v = ls[0].series->Norm_0@;
                &&& !ls[0].degrees
                &&& ls[0].scale == c.sources@[0].scale
                &&& ls[0].series is Norm
                &&& v.len() <= x.len() && v.len() <= y.len() && v.len() <= z.len()
                &&& v.len() == x.len() || v.len() == y.len() || v.len() == z.len()
                &&& forall|k: int|
                    #![trigger v[k]]
                    0 <= k < v.len() ==> {
                        &&& v[k].0 == x[k].t
                        &&& v[k].1@[0] == x[k].value
                        &&& v[k].1@[1] == y[k].value
                        &&& v[k].1@[2] == z[k].value
                    }
            }
        }),
{
}

// ---------------------------------------------------------------- scalars

proof fn lemma_sources(view: StoresView, sources: Seq<CellSource>, n: int)
    requires
        0 <= n <= sources.len(),
    ensures
        with_points(view, sources, n).len() <= n,
        forall|j: int|
            0 <= j < with_points(view, sources, n).len() ==> {
                let i = #[trigger] with_points(view, sources, n)[j];
                0 <= i < n && source_points(view, sources[i]).len() > 0
            },
        forall|i: int|
            0 <= i < n && source_points(view, #[trigger] sources[i]).len() > 0 ==> exists|j: int|
                0 <= j < with_points(view, sources, n).len() && #[trigger] with_points(
                    view,
                    sources,
                    n,
                )[j] == i,
    decreases n,
{
    if n > 0 {
        lemma_sources(view, sources, n - 1);
        let before = with_points(view, sources, n - 1);
        let now = with_points(view, sources, n);
        assert forall|i: int|
            0 <= i < n && source_points(view, #[trigger] sources[i]).len() > 0 implies exists|j: int|
            0 <= j < now.len() && #[trigger] now[j] == i by {
            if i < n - 1 {
                let j = choose|j: int| 0 <= j < before.len() && #[trigger] before[j] == i;
                assert(now[j] == i);
            } else {
                assert(now[now.len() - 1] == i);
            }
        }
    }
}

/// A scalar or overlay panel has a line for each source with points and no other: named by
/// the source's label, else its channel, scaled as the source says, and turned into
/// degrees exactly where it asks for that.
pub proof fn each_source_with_points_has_its_line(
    ls: Seq<PlotLine>,
    view: StoresView,
    c: Cell,
    j: int,
    i: int,
)
    requires
        lines_of(ls, view, c),
        c.primitive == Primitive::Scalar || c.primitive == Primitive::Overlay,
        0 <= j < ls.len(),
        0 <= i < c.sources.len(),
        source_points(view, c.sources@[i]).len() > 0,
    ensures
        exists|k: int|
            0 <= k < c.sources.len() && {
                let src = #[trigger] c.sources@[k];
                &&& source_points(view, src).len() > 0
                &&& ls[j].series is Plain
                &&& ls[j].series->Plain_0@ == source_points(view, src)
                &&& ls[j].label@ == if src.label@.len() > 0 {
                    src.label@
                } else {
                    src.key@
                }
                &&& ls[j].scale == src.scale
                &&& ls[j].degrees <==> src.transform is Some && src.transform->0@ == "rad_to_deg"@
            },
        exists|k: int|
            0 <= k < ls.len() && (#[trigger] ls[k]).series is Plain && ls[k].series->Plain_0@
                == source_points(view, c.sources@[i]),
{
    lemma_sources(view, c.sources@, c.sources.len() as int);
    let at = with_points(view, c.sources@, c.sources.len() as int);
    let src = c.sources@[at[j]];
    assert(source_points(view, src).len() > 0);
    let k = choose|k: int| 0 <= k < at.len() && #[trigger] at[k] == i;
    assert(ls[k].series->Plain_0@ == source_points(view, c.sources@[i]));
}

/// The lines of a scalar or overlay panel follow the order of its sources, and each is
/// painted as its source asks, else in the colour of the source's place.
pub proof fn lines_follow_the_order_of_their_sources(
    ls: Seq<PlotLine>,
    view: StoresView,
    c: Cell,
    i: int,
)
    requires
        lines_of(ls, view, c),
        c.primitive == Primitive::Scalar || c.primitive == Primitive::Overlay,
        forall|k: int|
            0 <= k < c.sources.len() ==> source_points(view, #[trigger] c.sources@[k]).len() > 0,
        0 <= i < c.sources.len(),
    ensures
        ls.len() == c.sources.len(),
        ls[i].series->Plain_0@ == source_points(view, c.sources@[i]),
        ({
            let asked = color_value(c.sources@[i].color@);
            &&& asked is Some ==> ls[i].color == asked->0
            &&& asked is None ==> ls[i].color == palette(i % 10)
        }),
{
    lemma_all_sources(view, c.sources@, c.sources.len() as int);
}

proof fn lemma_all_sources(view: StoresView, sources: Seq<CellSource>, n: int)
    requires
        0 <= n <= sources.len(),
        forall|k: int| 0 <= k < n ==> source_points(view, #[trigger] sources[k]).len() > 0,
    ensures
        with_points(view, sources, n).len() == n,
        forall|j: int| 0 <= j < n ==> #[trigger] with_points(view, sources, n)[j] == j,
    decreases n,
{
    if n > 0 {
        lemma_all_sources(view, sources, n - 1);
        assert(source_points(view, sources[n - 1]).len() > 0);
    }
}

// ---------------------------------------------------------------- names and colours

/// The first, second and third component of a vector or an attitude have the first, second
/// and third colour of the palette, and a vector's are named after the channel without its
/// index.
pub proof fn components_have_their_color(
    ls: Seq<PlotLine>,
    view: StoresView,
    c: Cell,
    b: Seq<char>,
    tail: Seq<char>,
)
    requires
        lines_of(ls, view, c),
        c.primitive == Primitive::Vector || c.primitive == Primitive::MagInterference || c.primitive
            == Primitive::AttitudeRpy,
        c.sources.len() > 0,
        c.sources@[0].key@ == b + tail,
        forall|k: int| 0 <= k < b.len() ==> b[k] != '[',
        tail.len() > 0 ==> tail[0] == '[',
        component_points_of(view, c.sources@[0], 0).len() > 0,
        component_points_of(view, c.sources@[0], 1).len() > 0,
        component_points_of(view, c.sources@[0], 2).len() > 0,
    ensures
        ls.len() >= 3,
        ls[0].color == (Rgb { r: 0x1f, g: 0x77, b: 0xb4 }),
        ls[1].color == (Rgb { r: 0xff, g: 0x7f, b: 0x0e }),
        ls[2].color == (Rgb { r: 0x2c, g: 0xa0, b: 0x2c }),
        c.primitive != Primitive::AttitudeRpy ==> ls[0].label@ == b + ".x"@ && ls[1].label@ == b
            + ".y"@ && ls[2].label@ == b + ".z"@,
        c.primitive == Primitive::MagInterference ==> ls.len() == 4 && ls[3].label@ == "|.|"@
            && ls[3].color == (Rgb { r: 30, g: 30, b: 30 }),
{
    lemma_components(view, c.sources@[0], 3);
    lemma_bare(b, tail);
}

proof fn lemma_bare(b: Seq<char>, tail: Seq<char>)
    requires
        forall|k: int| 0 <= k < b.len() ==> b[k] != '[',
        tail.len() > 0 ==> tail[0] == '[',
    ensures
        crate::plot::bare(b + tail) == b,
{
    let s = b + tail;
    assert forall|i: int| 0 <= i < b.len() implies s[i] != '[' by {
        assert(s[i] == b[i]);
    }
    if tail.len() > 0 {
        assert(s[b.len() as int] == tail[0]);
    }
    crate::text::first_of_unique(s, '[', '[', b.len() as int);
    assert(s.take(b.len() as int) =~= b);
}

/// A magnitude is named by its label, else after its channel between bars; a difference by
/// its label, else after its two channels, the first before the minus sign and the second
/// behind it. The panel's colour goes before the source's for a difference.
pub proof fn norms_and_differences_are_named_after_their_channels(
    ls: Seq<PlotLine>,
    view: StoresView,
    c: Cell,
    a: Seq<char>,
    b: Seq<char>,
)
    requires
        lines_of(ls, view, c),
        ls.len() == 1,
        c.sources.len() > 0,
        c.sources@[0].key@ == a,
        forall|k: int| 0 <= k < a.len() ==> a[k] != '[',
        forall|k: int| 0 <= k < b.len() ==> b[k] != '[',
        c.primitive == Primitive::Diff ==> c.sources@[0].minus is Some && c.sources@[0].minus->0@ == b,
        c.primitive == Primitive::Diff || c.primitive == Primitive::Magnitude,
    ensures
        c.sources@[0].label@.len() > 0 ==> ls[0].label@ == c.sources@[0].label@,
        c.sources@[0].label@.len() == 0 && c.primitive == Primitive::Magnitude ==> ls[0].label@
            == "|"@ + a + "|"@,
        c.sources@[0].label@.len() == 0 && c.primitive == Primitive::Diff ==> ls[0].label@ == a
            + " − "@ + b,
        c.primitive == Primitive::Magnitude && color_value(c.sources@[0].color@) is Some
            ==> ls[0].color == color_value(c.sources@[0].color@)->0,
        c.primitive == Primitive::Diff && c.color is Some && color_value(c.color->0@) is Some
            ==> ls[0].color == color_value(c.color->0@)->0,
        c.primitive == Primitive::Diff && c.color is None && color_value(c.sources@[0].color@) is Some
            ==> ls[0].color == color_value(c.sources@[0].color@)->0,
{
    lemma_bare(a, Seq::empty());
    lemma_bare(b, Seq::empty());
    assert(a + Seq::<char>::empty() =~= a);
    assert(b + Seq::<char>::empty() =~= b);
}

// ---------------------------------------------------------------- differences

/// A difference takes the second channel from the first: each of its points holds the
/// number of the panel's channel first and that of the channel to subtract second, at the
/// time of the first, as far as both go.
pub proof fn differences_take_the_second_from_the_first(
    ls: Seq<PlotLine>,
    view: StoresView,
    c: Cell,
)
    requires
        lines_of(ls, view, c),
        c.primitive == Primitive::Diff,
        c.sources.len() > 0,
        c.sources@[0].minus is Some,
    ensures
        ({
            let s = store_of(view, c.sources@[0]);
            let a = s.series(c.sources@[0].key@);
            let b = s.series(c.sources@[0].minus->0@);
            &&& ls.len() <= 1
            &&& ls.len() == 1 <==> a.len() > 0 && b.len() > 0
            &&& ls.len() == 1 ==> {
                let d = ls[0].series->Difference_0@;
                &&& ls[0].series is Difference
                &&& !ls[0].degrees
                &&& d.len() <= a.len() && d.len() <= b.len()
                &&& d.len() == a.len() || d.len() == b.len()
                &&& forall|k: int|
                    #![trigger d[k]]
                    0 <= k < d.len() ==> d[k].0 == a[k].t && d[k].1 == a[k].value && d[k].2
                        == b[k].value
            }
        }),
{
}

/// Panels that plot nothing have no line.
pub proof fn status_and_text_panels_plot_nothing(ls: Seq<PlotLine>, view: StoresView, c: Cell)
    requires
        lines_of(ls, view, c),
        c.primitive == Primitive::Status || c.primitive == Primitive::StatusBadge || c.primitive
            == Primitive::InfoText,
    ensures
        ls.len() == 0,
{
}

// ---------------------------------------------------------------- keys

/// A visible panel refers to the channels that it reads: a vector panel to those with
/// index 0, 1 and 2, a difference to its two, others to their channel and its fallback, and
/// a status panel to its own.
pub proof fn panels_refer_to_the_channels_they_read(c: Cell, j: int)
    requires
        0 <= j < c.sources.len(),
        c.visible,
    ensures
        ({
            let src = c.sources@[j];
            let vector = c.primitive == Primitive::Vector || c.primitive == Primitive::Magnitude
                || c.primitive == Primitive::MagInterference || c.primitive
                == Primitive::AttitudeRpy;
            &&& vector ==> cell_refers(c, src.key@ + "[0]"@) && cell_refers(c, src.key@ + "[1]"@)
                && cell_refers(c, src.key@ + "[2]"@)
            &&& !vector ==> cell_refers(c, src.key@)
            &&& c.primitive == Primitive::Diff && src.minus is Some ==> cell_refers(
                c,
                src.minus->0@,
            )
            &&& !vector && c.primitive != Primitive::Diff && src.fallback is Some ==> cell_refers(
                c,
                src.fallback->0@,
            )
            &&& c.primitive == Primitive::Status && c.source@.len() > 0 ==> cell_refers(
                c,
                c.source@,
            )
        }),
{
    let src = c.sources@[j];
    assert(crate::plot::source_refers(c.primitive, src, src.key@ + "[0]"@) || c.primitive
        != Primitive::Vector);
}

/// A hidden panel refers to none.
pub proof fn hidden_panels_refer_to_nothing(c: Cell, k: Seq<char>)
    requires
        !c.visible,
    ensures
        !cell_refers(c, k),
{
}

/// A channel has data where it has a point, a text or a log entry.
pub proof fn channels_have_data_of_any_kind(s: TraceStore, k: Seq<char>)
    ensures
        has_data(s, k) <==> s.series(k).len() > 0 || s.strings@.contains_key(k) || s.log(k).len()
            > 0,
{
}

} // verus!
