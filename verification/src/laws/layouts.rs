//! Grids: where each panel stands, how large it is, and where a panel that is let go
//! falls.
use vstd::prelude::*;

use crate::layout::{
    arranged, banner_area, dropped, fitting_cols, fitting_rows, lemma_at_strict, lemma_edge_order,
    lemma_edges, lemma_rows, lemma_upto, lemma_upto_bound, locked_after, offsets_go_down,
    paintable, snaps, Arrangement, CellMenuAction, GridLayout, PlotInput, Window,
};
use crate::order::{by_slot, by_slot_sorts};
use crate::keymap::SlotMap;
use crate::template::{Cell, Primitive, Section, Template};

verus! {

// ---------------------------------------------------------------- dimensions

/// A window under 480 pixels has one column. One with room for the declared columns, 240
/// pixels each, has those. Between the two it has as many as fit of the declared number
/// halved again and again.
pub proof fn columns_fit_the_window(width: int, declared: int)
    requires
        declared >= 1,
    ensures
        width < 480 ==> fitting_cols(width, declared) == 1,
        width >= 480 && width >= 240 * declared ==> fitting_cols(width, declared) == declared,
        width >= 480 && width < 240 * declared ==> {
            let c = fitting_cols(width, declared);
            &&& 1 <= c < declared
            &&& 240 * c <= width
            &&& width < 240 * (2 * c + 1)
        },
{
    if width >= 480 {
        lemma_halving(width, declared);
    }
}

proof fn lemma_halving(width: int, cols: int)
    requires
        cols >= 1,
        width >= 480,
    ensures
        ({
            let c = crate::layout::halved(width, cols);
            &&& 1 <= c <= cols
            &&& 240 * c <= width
            &&& width >= 240 * cols ==> c == cols
            &&& width < 240 * cols ==> c < cols && width < 240 * (2 * c + 1)
        }),
    decreases cols,
{
    if cols > 1 && width < 240 * cols {
        lemma_halving(width, cols / 2);
    }
}

/// There are enough rows for all panels and none to spare; without a panel there is one.
pub proof fn rows_hold_all_panels(count: int, cols: int)
    requires
        count >= 0,
        cols >= 1,
    ensures
        fitting_rows(count, cols) >= 1,
        fitting_rows(count, cols) * cols >= count,
        count >= 1 ==> (fitting_rows(count, cols) - 1) * cols < count,
        count == 0 ==> fitting_rows(count, cols) == 1,
{
    let n = if count < 1 {
        1
    } else {
        count
    };
    lemma_rows(n, cols);
    let r = (n - 1) / cols + 1;
    assert((r - 1) * cols == r * cols - cols) by (nonlinear_arith);
    assert(r >= 1) by (nonlinear_arith)
        requires
            r == (n - 1) / cols + 1,
            n >= 1,
            cols >= 1,
    ;
    assert(0int / cols == 0) by (nonlinear_arith)
        requires
            cols >= 1,
    ;
}

// ---------------------------------------------------------------- arrangement

/// On a window that is wide enough a panel stands where it was declared: what stands in
/// row `r` and column `c` was declared there, and whatever was declared there is covered
/// by something.
pub proof fn panels_stand_where_they_are_declared(
    a: Arrangement,
    tpl: Template,
    visibility: SlotMap<bool>,
    width: int,
    r: int,
    c: int,
)
    requires
        arranged(a, tpl, visibility, false, width),
        width >= 480,
        width >= 240 * tpl.grid.cols,
        0 <= r < a.rows,
        0 <= c < a.cols,
    ensures
        tpl.grid.rows >= 1 ==> a.rows == tpl.grid.rows,
        tpl.grid.cols >= 1 ==> a.cols == tpl.grid.cols,
        a.at.len() == a.rows * a.cols,
        ({
            let p = a.at@[r * a.cols + c];
            &&& p is Some ==> p->0 < tpl.cells.len() && tpl.cells@[p->0 as int].row == r
                && tpl.cells@[p->0 as int].col == c
            &&& forall|k: int|
                0 <= k < tpl.cells.len() && (#[trigger] tpl.cells@[k]).row == r && tpl.cells@[k].col
                    == c ==> p is Some && p->0 >= k
        }),
{
    lemma_last(tpl.cells@, r as usize, c as usize, tpl.cells.len() as int);
    let rr = r as usize;
    let cc = c as usize;
    assert(a.at@[r * a.cols + c] == crate::layout::last_in(
        tpl.cells@,
        (rr, cc),
        tpl.cells.len() as int,
    ));
}

proof fn lemma_last(cells: Seq<Cell>, r: usize, c: usize, n: int)
    requires
        0 <= n <= cells.len() <= usize::MAX,
    ensures
        ({
            let p = crate::layout::last_in(cells, (r, c), n);
            &&& p is Some ==> p->0 < n && cells[p->0 as int].row == r && cells[p->0 as int].col == c
            &&& forall|k: int|
                0 <= k < n && (#[trigger] cells[k]).row == r && cells[k].col == c ==> p is Some
                    && p->0 >= k
        }),
    decreases n,
{
    if n > 0 {
        lemma_last(cells, r, c, n - 1);
    }
}

/// A compact grid holds the panels that are visible and not switched off, each once, from
/// the first place on without a gap and in the order in which they are read.
pub proof fn compact_grids_hold_what_is_on(
    a: Arrangement,
    tpl: Template,
    visibility: SlotMap<bool>,
    width: int,
    i: int,
    j: int,
    k: int,
)
    requires
        arranged(a, tpl, visibility, true, width),
        0 <= i < j < a.at.len(),
        0 <= k < tpl.cells.len(),
    ensures
        a.at@[j] is Some ==> a.at@[i] is Some,
        a.at@[j] is Some ==> {
            let p = tpl.cells@[a.at@[i]->0 as int];
            let q = tpl.cells@[a.at@[j]->0 as int];
            &&& p.row < q.row || p.row == q.row && p.col <= q.col
            &&& a.at@[i]->0 != a.at@[j]->0
        },
        (exists|m: int|
            0 <= m < a.at.len() && #[trigger] a.at@[m] == Some(k as usize)) <==> tpl.cells@[k].visible
            && !(visibility@.contains_key((tpl.cells@[k].row, tpl.cells@[k].col))
            && !visibility@[(tpl.cells@[k].row, tpl.cells@[k].col)]),
{
    broadcast use vstd::seq_lib::group_to_multiset_ensures;

    let key = crate::layout::index_slot(tpl.cells@);
    let s = crate::layout::placed(tpl, visibility, true);
    let all = crate::layout::indices(tpl.cells.len() as nat);
    let compact = true;
    let on = |i: usize|
        if compact {
            crate::layout::shown(tpl.cells@[i as int], visibility)
        } else {
            crate::layout::within(
                tpl.cells@[i as int],
                crate::layout::at_least_one(tpl.grid.rows as int),
                crate::layout::at_least_one(tpl.grid.cols as int),
            )
        };
    by_slot_sorts(s, key);
    let order = by_slot(s, key);
    lemma_filter_of_indices(all, on);
    assert(s =~= all.filter(on));
    assert(s.no_duplicates());
    s.lemma_multiset_has_no_duplicates();
    order.lemma_multiset_has_no_duplicates_conv();
    assert(order.no_duplicates());
    if a.at@[j] is Some {
        assert(crate::order::slot_le(key(order[i]), key(order[j])));
    }
    let kk = k as usize;
    assert(all[k] == kk);
    assert(all.contains(kk));
    assert(s.contains(kk) <==> on(kk));
    assert(s.contains(kk) <==> order.contains(kk)) by {
        assert(s.to_multiset().count(kk) == order.to_multiset().count(kk));
    }
    if order.contains(kk) {
        let m = choose|m: int| 0 <= m < order.len() && order[m] == kk;
        assert(a.at@[m] == Some(kk));
    }
    if exists|m: int| 0 <= m < a.at.len() && #[trigger] a.at@[m] == Some(kk) {
        let m = choose|m: int| 0 <= m < a.at.len() && #[trigger] a.at@[m] == Some(kk);
        assert(order[m] == kk);
        assert(order.contains(kk));
    }
}

proof fn lemma_filter_of_indices(s: Seq<usize>, f: spec_fn(usize) -> bool)
    requires
        s.no_duplicates(),
    ensures
        s.filter(f).no_duplicates(),
        forall|x: usize| #[trigger] s.filter(f).contains(x) <==> s.contains(x) && f(x),
    decreases s.len(),
{
    reveal(Seq::filter);
    if s.len() > 0 {
        let t = s.drop_last();
        lemma_filter_of_indices(t, f);
        assert forall|x: usize| #[trigger] s.filter(f).contains(x) <==> s.contains(x) && f(x) by {
            if s.filter(f).contains(x) {
                let m = choose|m: int| 0 <= m < s.filter(f).len() && s.filter(f)[m] == x;
                if m < t.filter(f).len() {
                    assert(t.filter(f)[m] == x);
                    assert(t.filter(f).contains(x));
                    let n = choose|n: int| 0 <= n < t.len() && t[n] == x;
                    assert(s[n] == x);
                } else {
                    assert(s[s.len() - 1] == x);
                }
            }
            if s.contains(x) && f(x) {
                let n = choose|n: int| 0 <= n < s.len() && s[n] == x;
                if n < t.len() {
                    assert(t[n] == x);
                    assert(t.filter(f).contains(x));
                    let m = choose|m: int| 0 <= m < t.filter(f).len() && t.filter(f)[m] == x;
                    assert(s.filter(f)[m] == x);
                } else {
                    assert(s.filter(f)[s.filter(f).len() - 1] == x);
                }
            }
        }
        if f(s.last()) {
            assert(!t.contains(s.last())) by {
                if t.contains(s.last()) {
                    let n = choose|n: int| 0 <= n < t.len() && t[n] == s.last();
                    assert(s[n] == s[s.len() - 1]);
                }
            }
            let u = t.filter(f);
            assert(!u.contains(s.last()));
            assert forall|i: int, j: int| 0 <= i < j < s.filter(f).len() implies s.filter(f)[i]
                != s.filter(f)[j] by {
                assert(u.contains(u[i]));
            }
        }
    }
}

// ---------------------------------------------------------------- areas

/// Columns go to the right and rows go down; the slots of a row are level and those of a
/// column in line.
pub proof fn columns_go_right_and_rows_go_down(
    l: GridLayout,
    window: Window,
    sections: Seq<Section>,
    r: int,
    s: int,
    c: int,
    d: int,
)
    requires
        l.wf(),
        l.of(window, l.rows as int, l.cols as int, sections),
        0 <= r < s < l.rows,
        0 <= c < d < l.cols,
    ensures
        l.slot_area(r, c).x + l.slot_area(r, c).w < l.slot_area(r, d).x,
        l.slot_area(r, c).y + l.slot_area(r, c).h < l.slot_area(s, c).y,
        l.slot_area(r, c).y == l.slot_area(r, d).y,
        l.slot_area(r, c).h == l.slot_area(r, d).h,
        l.slot_area(r, c).x == l.slot_area(s, c).x,
        l.slot_area(r, c).w == l.slot_area(s, c).w,
{
    offsets_go_down(l, window, sections);
    lemma_edges(c, l.cols as int, l.width as int, 20480);
    lemma_edges(d, l.cols as int, l.width as int, 20480);
    lemma_edges(r, l.rows as int, l.height as int, 15360);
    lemma_edges(s, l.rows as int, l.height as int, 15360);
    lemma_edge_order(c + 1, d, l.cols as int, l.width as int);
    lemma_edge_order(r + 1, s, l.rows as int, l.height as int);
    assert(l.offsets@[r] <= l.offsets@[s]);
}

/// The first column begins three pixels from the left of the grid and the last ends three
/// from its right; neighbours are six pixels apart. The first row begins three pixels
/// under the top where no banner stands above it.
pub proof fn slots_fill_the_grid(
    l: GridLayout,
    window: Window,
    sections: Seq<Section>,
    r: int,
    c: int,
)
    requires
        l.wf(),
        l.of(window, l.rows as int, l.cols as int, sections),
        0 <= r < l.rows,
        0 <= c < l.cols,
    ensures
        l.slot_area(r, 0).x == window.x + 768,
        l.slot_area(r, l.cols - 1).x + l.slot_area(r, l.cols - 1).w == window.x + l.width - 768,
        c + 1 < l.cols ==> l.slot_area(r, c + 1).x - (l.slot_area(r, c).x + l.slot_area(r, c).w)
            == 1536,
        sections.len() == 0 ==> l.slot_area(0, c).y == window.y + 768,
        sections.len() == 0 && r + 1 < l.rows ==> l.slot_area(r + 1, c).y - (l.slot_area(r, c).y
            + l.slot_area(r, c).h) == 1536,
        sections.len() == 0 ==> l.slot_area(l.rows - 1, c).y + l.slot_area(l.rows - 1, c).h
            == window.y + l.height - 768,
        l.width >= window.w,
        l.width >= 20480 * l.cols,
        l.width == window.w || l.width == 20480 * l.cols,
        l.height >= 15360 * l.rows,
        sections.len() == 0 ==> l.height == window.h || l.height == 15360 * l.rows,
        sections.len() == 0 ==> l.height >= window.h,
{
    let cols = l.cols as int;
    let rows = l.rows as int;
    let w = l.width as int;
    let h = l.height as int;
    assert((0 * w) / cols == 0) by (nonlinear_arith)
        requires
            cols >= 1,
    ;
    assert((0 * h) / rows == 0) by (nonlinear_arith)
        requires
            rows >= 1,
    ;
    assert((cols * w) / cols == w) by (nonlinear_arith)
        requires
            cols >= 1,
    ;
    assert((rows * h) / rows == h) by (nonlinear_arith)
        requires
            rows >= 1,
    ;
    lemma_edges(c, cols, w, 20480);
    lemma_edges(cols - 1, cols, w, 20480);
    lemma_edges(0, cols, w, 20480);
    lemma_edges(0, rows, h, 15360);
    lemma_edges(r, rows, h, 15360);
    lemma_edges(rows - 1, rows, h, 15360);
    if c + 1 < cols {
        lemma_edges(c + 1, cols, w, 20480);
    }
    if r + 1 < rows {
        lemma_edges(r + 1, rows, h, 15360);
    }
    assert(l.offsets@[0] >= 0);
    assert(l.offsets@[r] >= 0);
    assert(l.offsets@[rows - 1] >= 0);
    if sections.len() == 0 {
        assert(l.offsets@[0] == 4608 * crate::layout::banners_upto(sections, 0, 0));
        assert(l.offsets@[r] == 4608 * crate::layout::banners_upto(sections, 0, r));
        assert(l.offsets@[rows - 1] == 4608 * crate::layout::banners_upto(sections, 0, rows - 1));
        if r + 1 < rows {
            assert(l.offsets@[r + 1] == 4608 * crate::layout::banners_upto(sections, 0, r + 1));
        }
    }
}

/// A banner is as wide as the grid and eighteen pixels high. It stands above the panels of
/// the row that it is for and below those of the rows before.
pub proof fn banners_stand_above_their_row(
    l: GridLayout,
    window: Window,
    sections: Seq<Section>,
    i: int,
    r: int,
    c: int,
)
    requires
        l.wf(),
        l.of(window, l.rows as int, l.cols as int, sections),
        0 <= i < sections.len(),
        sections[i].label@.len() > 0,
        sections[i].anchor_row < l.rows,
        0 <= r < l.rows,
        0 <= c < l.cols,
    ensures
        ({
            let b = banner_area(l, sections, i);
            let p = l.slot_area(r, c);
            &&& b.x == window.x
            &&& b.w == l.width
            &&& b.h == 4608
            &&& r >= sections[i].anchor_row ==> b.y + b.h <= p.y
            &&& r < sections[i].anchor_row ==> p.y + p.h <= b.y
        }),
{
    let a = sections[i].anchor_row as int;
    let n = sections.len() as int;
    lemma_upto_bound(sections, n, a);
    lemma_upto_bound(sections, i, a);
    lemma_at_strict(sections, i, n, a);
    lemma_edges(r, l.rows as int, l.height as int, 15360);
    lemma_edges(a, l.rows as int, l.height as int, 15360);
    lemma_edges(c, l.cols as int, l.width as int, 20480);
    lemma_upto_bound(sections, n, r);
    assert(l.offsets@[a] == 4608 * crate::layout::banners_upto(sections, n, a));
    lemma_upto_bound(sections, n, a - 1);
    assert(l.offsets@[r] == 4608 * crate::layout::banners_upto(sections, n, r));
    if r < a {
        lemma_edge_order(r + 1, a, l.rows as int, l.height as int);
        lemma_upto(sections, n, r, a - 1);
    } else {
        lemma_edge_order(a, r, l.rows as int, l.height as int);
        lemma_upto(sections, n, a, r);
    }
}

/// Two banners of one row stand above one another in the order of their sections, and a
/// banner of an earlier row above one of a later row.
pub proof fn banners_stand_in_order(
    l: GridLayout,
    window: Window,
    sections: Seq<Section>,
    i: int,
    j: int,
)
    requires
        l.wf(),
        l.of(window, l.rows as int, l.cols as int, sections),
        0 <= i < sections.len(),
        0 <= j < sections.len(),
        sections[i].label@.len() > 0,
        sections[j].label@.len() > 0,
        sections[i].anchor_row < l.rows,
        sections[j].anchor_row < l.rows,
        sections[i].anchor_row < sections[j].anchor_row || sections[i].anchor_row
            == sections[j].anchor_row && i < j,
    ensures
        banner_area(l, sections, i).y + 4608 <= banner_area(l, sections, j).y,
{
    let a = sections[i].anchor_row as int;
    let b = sections[j].anchor_row as int;
    let n = sections.len() as int;
    lemma_upto_bound(sections, n, a);
    lemma_upto_bound(sections, n, a - 1);
    lemma_upto_bound(sections, i, a);
    lemma_upto_bound(sections, j, b);
    lemma_upto_bound(sections, n, b - 1);
    lemma_edges(a, l.rows as int, l.height as int, 15360);
    lemma_edges(b, l.rows as int, l.height as int, 15360);
    lemma_upto_bound(sections, n, b);
    lemma_at_strict(sections, i, n, a);
    lemma_at_strict(sections, j, n, b);
    assert(l.offsets@[a] == 4608 * crate::layout::banners_upto(sections, n, a));
    assert(l.offsets@[b] == 4608 * crate::layout::banners_upto(sections, n, b));
    if a < b {
        lemma_upto(sections, n, a, b - 1);
        lemma_edge_order(a, b, l.rows as int, l.height as int);
    } else {
        lemma_at_strict(sections, i, j, a);
    }
}

// ---------------------------------------------------------------- letting go

/// A panel that is let go falls into the slot whose middle is nearest to its own, other
/// than the slot that it came from.
pub proof fn panels_fall_into_the_nearest_slot(
    l: GridLayout,
    from: (usize, usize),
    center: (i64, i64),
    pointer: (i64, i64),
    t: (usize, usize),
    a: int,
    b: int,
)
    requires
        snaps(l, from, center, pointer, Some(t)),
        0 <= a < l.rows,
        0 <= b < l.cols,
        a != from.0 || b != from.1,
    ensures
        t != from,
        t.0 < l.rows,
        t.1 < l.cols,
        ({
            let p = l.slot_area(t.0 as int, t.1 as int);
            let q = l.slot_area(a, b);
            let px = 2 * p.x + p.w - 2 * center.0;
            let py = 2 * p.y + p.h - 2 * center.1;
            let qx = 2 * q.x + q.w - 2 * center.0;
            let qy = 2 * q.y + q.h - 2 * center.1;
            &&& px * px + py * py <= qx * qx + qy * qy
            &&& px * px + py * py == qx * qx + qy * qy ==> t.0 < a || t.0 == a && t.1 <= b
        }),
{
    assert(crate::layout::other_slot(a, b, from));
}

/// It falls nowhere exactly if the pointer is more than eight pixels outside the grid, or
/// there is no other slot.
pub proof fn panels_fall_nowhere_outside_the_grid(
    l: GridLayout,
    from: (usize, usize),
    center: (i64, i64),
    pointer: (i64, i64),
    t: Option<(usize, usize)>,
)
    requires
        l.wf(),
        snaps(l, from, center, pointer, t),
    ensures
        ({
            let inside = l.total.x - 2048 <= pointer.0 <= l.total.x + l.total.w + 2048 && l.total.y
                - 2048 <= pointer.1 <= l.total.y + l.total.h + 2048;
            t is None <==> !inside || l.rows == 1 && l.cols == 1 && from == (0usize, 0usize)
        }),
{
}

/// A panel dropped on another changes places with it; one dropped on a free slot moves
/// there.
pub proof fn drops_swap_or_move(tpl: Template, a: Arrangement, from: (usize, usize), to: (usize, usize))
    ensures
        ({
            let there = a.at@[to.0 * a.cols + to.1];
            &&& there is Some ==> dropped(tpl, a, from, to) == (CellMenuAction::SwapTo {
                from,
                to: (tpl.cells@[there->0 as int].row, tpl.cells@[there->0 as int].col),
            })
            &&& there is None ==> dropped(tpl, a, from, to) == (CellMenuAction::MoveTo { from, to })
        }),
{
}

/// A double click lets a plot go, dragging, clicking and scrolling hold it, and a plot that
/// cannot be touched stays as it is, as one does that nothing happens to.
pub proof fn plots_are_held_by_touching_them(locked: bool, interactive: bool, input: PlotInput)
    ensures
        !interactive ==> locked_after(locked, interactive, input) == locked,
        interactive && input.double_clicked ==> !locked_after(locked, interactive, input),
        interactive && !input.double_clicked && input.dragged ==> locked_after(
            locked,
            interactive,
            input,
        ),
        interactive && !input.double_clicked && input.clicked ==> locked_after(
            locked,
            interactive,
            input,
        ),
        interactive && !input.double_clicked && input.scrolled ==> locked_after(
            locked,
            interactive,
            input,
        ),
        !input.double_clicked && !input.dragged && !input.clicked && !input.scrolled
            ==> locked_after(locked, interactive, input) == locked,
{
}

/// A panel is painted where it is visible and reads something: it has a source, or it is a
/// status or a text.
pub proof fn panels_are_painted_where_they_read_something(c: Cell)
    ensures
        paintable(c) ==> c.visible,
        c.visible && c.sources.len() > 0 ==> paintable(c),
        c.visible && c.primitive == Primitive::Status ==> paintable(c),
        c.visible && c.primitive == Primitive::InfoText ==> paintable(c),
        c.sources.len() == 0 && c.primitive != Primitive::Status && c.primitive
            != Primitive::InfoText ==> !paintable(c),
{
}

} // verus!
