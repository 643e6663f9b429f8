//! Where panels go: how many columns a window has room for, which panel stands in
//! which slot, the areas of slots and banners, and the slot that a dragged panel
//! snaps to. Lengths are in sub-pixels unless they are said to be in pixels.
use vstd::prelude::*;

use crate::editor::rows_for;
use crate::keymap::SlotMap;
use crate::order::{at_or_before, by_slot, by_slot_sorts, put_in_at, slot_le, Slot};
use crate::template::{slot_of, Cell, LabelMode, Primitive, Section, Template};
use crate::wide::Wide;

verus! {

/// Sub-pixels to a pixel.
pub const SUBPX: i64 = 256;

/// Below this width of a panel, in pixels, the number of columns is halved.
pub const RESPONSIVE_MIN_CELL_W: i64 = 240;

/// Below this width of the window, in pixels, there is one column.
pub const RESPONSIVE_SINGLE_COL_W: i64 = 480;

/// Below this width of the window, in pixels, the 3D view leaves the split.
pub const RESPONSIVE_3D_COLLAPSE_W: i64 = 1100;

// ---------------------------------------------------------------- columns

/// `cols` halved until each column is wide enough or one is left.
pub open spec fn halved(width: int, cols: int) -> int
    decreases cols,
{
    if cols > 1 && width < RESPONSIVE_MIN_CELL_W * cols {
        halved(width, cols / 2)
    } else {
        cols
    }
}

/// At least one.
pub open spec fn at_least_one(n: int) -> int {
    if n < 1 {
        1
    } else {
        n
    }
}

/// The columns that a window of this width has room for, of those declared.
pub open spec fn fitting_cols(width: int, declared: int) -> int {
    if width < RESPONSIVE_SINGLE_COL_W {
        1
    } else {
        halved(width, at_least_one(declared))
    }
}

/// The rows that so many panels take, at least one.
pub open spec fn fitting_rows(count: int, cols: int) -> int {
    rows_for(at_least_one(count), cols)
}

/// Rows and columns for `visible_count` panels in a window `available_width`
/// pixels wide, for a template with `declared_cols` columns.
pub fn responsive_grid_dims(available_width: i64, visible_count: usize, declared_cols: usize) -> (r: (
    usize,
    usize,
))
    ensures
        r.1 == fitting_cols(available_width as int, declared_cols as int),
        r.0 == fitting_rows(visible_count as int, r.1 as int),
        r.0 >= 1,
        r.1 >= 1,
        r.1 <= at_least_one(declared_cols as int),
        r.0 * r.1 >= visible_count,
        r.0 * r.1 < at_least_one(visible_count as int) + r.1,
{
    let declared: usize = if declared_cols == 0 {
        1
    } else {
        declared_cols
    };
    let count: usize = if visible_count == 0 {
        1
    } else {
        visible_count
    };
    if available_width < RESPONSIVE_SINGLE_COL_W {
        proof {
            assert((count - 1) / 1 == count - 1);
        }
        return (count, 1);
    }
    let mut cols: usize = declared;
    let fit: u64 = (available_width / RESPONSIVE_MIN_CELL_W) as u64;
    while cols > 1 && fit < cols as u64
        invariant
            1 <= cols <= declared,
            available_width >= RESPONSIVE_SINGLE_COL_W,
            fit == available_width / RESPONSIVE_MIN_CELL_W,
            halved(available_width as int, cols as int) == halved(
                available_width as int,
                declared as int,
            ),
        decreases cols,
    {
        proof {
            lemma_narrow(available_width as int, cols as int);
        }
        cols = cols / 2;
    }
    proof {
        lemma_narrow(available_width as int, cols as int);
        lemma_rows(count as int, cols as int);
    }
    let rows: usize = (count - 1) / cols + 1;
    (rows, cols)
}

proof fn lemma_narrow(width: int, cols: int)
    requires
        width >= 0,
        cols >= 1,
    ensures
        width / 240 < cols <==> width < 240 * cols,
{
    assert(width / 240 < cols <==> width < 240 * cols) by (nonlinear_arith)
        requires
            width >= 0,
            cols >= 1,
    ;
}

pub(crate) proof fn lemma_rows(n: int, cols: int)
    requires
        n >= 1,
        cols >= 1,
    ensures
        ((n - 1) / cols + 1) * cols >= n,
        ((n - 1) / cols + 1) * cols < n + cols,
        (n - 1) / cols + 1 <= n,
{
    let q = (n - 1) / cols;
    vstd::arithmetic::div_mod::lemma_fundamental_div_mod(n - 1, cols);
    assert((q + 1) * cols == cols * q + cols) by (nonlinear_arith);
    assert(q <= n - 1) by (nonlinear_arith)
        requires
            n - 1 == cols * q + (n - 1) % cols,
            (n - 1) % cols >= 0,
            cols >= 1,
            q >= 0,
    ;
}

/// In a window that is not narrow a panel has at least the minimum width, or has
/// the window to itself; and a window wide enough keeps the declared columns.
pub proof fn columns_are_wide_enough(width: int, declared: int)
    requires
        width >= RESPONSIVE_SINGLE_COL_W,
    ensures
        fitting_cols(width, declared) == 1 || width >= RESPONSIVE_MIN_CELL_W * fitting_cols(
            width,
            declared,
        ),
        width >= RESPONSIVE_MIN_CELL_W * at_least_one(declared) ==> fitting_cols(width, declared)
            == at_least_one(declared),
{
    lemma_halved(width, at_least_one(declared));
}

proof fn lemma_halved(width: int, cols: int)
    requires
        cols >= 1,
    ensures
        halved(width, cols) == 1 || width >= 240 * halved(width, cols),
        1 <= halved(width, cols) <= cols,
    decreases cols,
{
    if cols > 1 && width < 240 * cols {
        lemma_halved(width, cols / 2);
    }
}

// ---------------------------------------------------------------- slots

/// The indices from 0 to `n - 1`.
pub open spec fn indices(n: nat) -> Seq<usize> {
    Seq::new(n, |i: int| i as usize)
}

/// The slot of the panel with this index, as a sort key.
pub open spec fn index_slot(cells: Seq<Cell>) -> spec_fn(usize) -> Slot {
    |i: usize| slot_of(cells[i as int])
}

/// Is a panel shown: switched on, and not hidden by the operator?
pub open spec fn shown(c: Cell, visibility: SlotMap<bool>) -> bool {
    c.visible && (visibility@.contains_key(slot_of(c)) ==> visibility@[slot_of(c)])
}

/// Does a panel lie within the declared grid?
pub open spec fn within(c: Cell, rows: int, cols: int) -> bool {
    c.row < rows && c.col < cols
}

/// The indices of the panels to place: those shown, or those within the grid.
pub open spec fn placed(tpl: Template, visibility: SlotMap<bool>, compact: bool) -> Seq<usize> {
    indices(tpl.cells.len() as nat).filter(
        |i: usize|
            if compact {
                shown(tpl.cells@[i as int], visibility)
            } else {
                within(
                    tpl.cells@[i as int],
                    at_least_one(tpl.grid.rows as int),
                    at_least_one(tpl.grid.cols as int),
                )
            },
    )
}

/// The indices of the panels to place, in reading order.
pub open spec fn reading_order(tpl: Template, visibility: SlotMap<bool>, compact: bool) -> Seq<usize> {
    by_slot(placed(tpl, visibility, compact), index_slot(tpl.cells@))
}

/// Which panel stands in which slot of the window.
#[derive(Clone, Debug)]
pub struct Arrangement {
    pub rows: usize,
    pub cols: usize,
    /// For each slot in reading order, the index of its panel.
    pub at: Vec<Option<usize>>,
}

/// Do all panels keep the slots that the template gives them? They do where hidden
/// panels leave their gaps and the window is wide enough.
pub open spec fn keeps_slots(tpl: Template, compact: bool, width: int) -> bool {
    !compact && width >= RESPONSIVE_SINGLE_COL_W && width >= RESPONSIVE_MIN_CELL_W * at_least_one(
        tpl.grid.cols as int,
    )
}

/// Do the slots hold the panels of `order`, one behind the other?
pub open spec fn holds_packed(at: Seq<Option<usize>>, order: Seq<usize>) -> bool {
    &&& order.len() <= at.len()
    &&& forall|i: int|
        0 <= i < at.len() ==> #[trigger] at[i] == if i < order.len() {
            Some(order[i])
        } else {
            None
        }
}

/// The last panel in slot `s`, of the first `n`.
pub open spec fn last_in(cells: Seq<Cell>, s: Slot, n: int) -> Option<usize>
    decreases n,
{
    if n <= 0 {
        None
    } else if slot_of(cells[n - 1]) == s {
        Some((n - 1) as usize)
    } else {
        last_in(cells, s, n - 1)
    }
}

/// Does each slot of the grid hold the last panel that the template puts there?
pub open spec fn holds_declared(at: Seq<Option<usize>>, cells: Seq<Cell>, rows: int, cols: int) -> bool {
    &&& at.len() == rows * cols
    &&& forall|r: int, c: int|
        0 <= r < rows && 0 <= c < cols ==> #[trigger] at[r * cols + c] == last_in(
            cells,
            (r as usize, c as usize),
            cells.len() as int,
        )
}

/// Is it the arrangement of a template's panels in a window so many pixels wide?
pub open spec fn arranged(
    a: Arrangement,
    tpl: Template,
    visibility: SlotMap<bool>,
    compact: bool,
    width: int,
) -> bool {
    let order = reading_order(tpl, visibility, compact);
    if keeps_slots(tpl, compact, width) {
        &&& a.rows == at_least_one(tpl.grid.rows as int)
        &&& a.cols == at_least_one(tpl.grid.cols as int)
        &&& holds_declared(a.at@, tpl.cells@, a.rows as int, a.cols as int)
    } else {
        &&& a.cols == fitting_cols(width, tpl.grid.cols as int)
        &&& a.rows == fitting_rows(order.len() as int, a.cols as int)
        &&& a.at.len() == a.rows * a.cols
        &&& holds_packed(a.at@, order)
    }
}

/// Put index `x` among indices in reading order, behind those of its slot.
fn put_index(v: &mut Vec<usize>, x: usize, tpl: &Template)
    requires
        x < tpl.cells.len(),
        forall|k: int| 0 <= k < old(v).len() ==> (#[trigger] old(v)@[k]) < tpl.cells.len(),
    ensures
        final(v)@ == crate::order::put_in(old(v)@, x, index_slot(tpl.cells@)),
{
    let ghost s = v@;
    let mut j: usize = v.len();
    while j > 0 && !at_or_before(
        (tpl.cells[v[j - 1]].row, tpl.cells[v[j - 1]].col),
        (tpl.cells[x].row, tpl.cells[x].col),
    )
        invariant
            v@ == s,
            j <= v.len(),
            x < tpl.cells.len(),
            forall|k: int| 0 <= k < s.len() ==> (#[trigger] s[k]) < tpl.cells.len(),
            forall|k: int|
                j <= k < s.len() ==> !slot_le(
                    slot_of(tpl.cells@[#[trigger] s[k] as int]),
                    slot_of(tpl.cells@[x as int]),
                ),
        decreases j,
    {
        j = j - 1;
    }
    proof {
        put_in_at(s, x, index_slot(tpl.cells@), j as int);
    }
    v.insert(j, x);
}

/// Is a panel shown?
fn is_shown(c: &Cell, visibility: &SlotMap<bool>) -> (r: bool)
    requires
        visibility.wf(),
    ensures
        r == shown(*c, *visibility),
{
    c.visible && match visibility.get((c.row, c.col)) {
        Some(v) => *v,
        None => true,
    }
}

/// The indices of the panels to place, in reading order.
fn order_panels(tpl: &Template, visibility: &SlotMap<bool>, compact: bool) -> (r: Vec<usize>)
    requires
        visibility.wf(),
    ensures
        r@ == reading_order(*tpl, *visibility, compact),
        r.len() <= tpl.cells.len(),
        forall|k: int| 0 <= k < r.len() ==> (#[trigger] r@[k]) < tpl.cells.len(),
{
    let rows: usize = if tpl.grid.rows == 0 {
        1
    } else {
        tpl.grid.rows
    };
    let cols: usize = if tpl.grid.cols == 0 {
        1
    } else {
        tpl.grid.cols
    };
    let ghost all = indices(tpl.cells.len() as nat);
    let ghost f = |i: usize|
        if compact {
            shown(tpl.cells@[i as int], *visibility)
        } else {
            within(
                tpl.cells@[i as int],
                at_least_one(tpl.grid.rows as int),
                at_least_one(tpl.grid.cols as int),
            )
        };
    let ghost key = index_slot(tpl.cells@);
    let mut out: Vec<usize> = Vec::new();
    let mut i: usize = 0;
    proof {
        reveal(Seq::filter);
        assert(all.take(0).filter(f) =~= Seq::empty());
        assert(out@ =~= by_slot(all.take(0).filter(f), key));
    }
    while i < tpl.cells.len()
        invariant
            visibility.wf(),
            i <= tpl.cells.len(),
            rows == at_least_one(tpl.grid.rows as int),
            cols == at_least_one(tpl.grid.cols as int),
            all == indices(tpl.cells.len() as nat),
            f == (|i: usize|
                if compact {
                    shown(tpl.cells@[i as int], *visibility)
                } else {
                    within(
                        tpl.cells@[i as int],
                        at_least_one(tpl.grid.rows as int),
                        at_least_one(tpl.grid.cols as int),
                    )
                }),
            key == index_slot(tpl.cells@),
            out@ == by_slot(all.take(i as int).filter(f), key),
            out.len() <= i,
            forall|k: int| 0 <= k < out.len() ==> (#[trigger] out@[k]) < i,
        decreases tpl.cells.len() - i,
    {
        let ghost so_far = all.take(i as int).filter(f);
        proof {
            reveal(Seq::filter);
            assert(all.take(i + 1).drop_last() =~= all.take(i as int));
            assert(all.take(i + 1).last() == i);
            by_slot_sorts(so_far, key);
        }
        let take = if compact {
            is_shown(&tpl.cells[i], visibility)
        } else {
            tpl.cells[i].row < rows && tpl.cells[i].col < cols
        };
        if take {
            put_index(&mut out, i, tpl);
            proof {
                assert(so_far.push(i).drop_last() =~= so_far);
                by_slot_sorts(so_far.push(i), key);
                assert forall|k: int| 0 <= k < out.len() implies (#[trigger] out@[k]) < i + 1 by {
                    assert(by_slot(so_far.push(i), key).contains(out@[k]));
                    let y = out@[k];
                    assert(so_far.push(i).contains(y));
                    let m = choose|m: int| 0 <= m < so_far.push(i).len() && so_far.push(i)[m] == y;
                    if m < so_far.len() {
                        lemma_filter_member(all.take(i as int), f, m);
                    }
                }
            }
        }
        i = i + 1;
    }
    proof {
        assert(all.take(all.len() as int) =~= all);
    }
    out
}

/// What a filter of the first indices lets through is one of them.
proof fn lemma_filter_member(s: Seq<usize>, f: spec_fn(usize) -> bool, m: int)
    requires
        0 <= m < s.filter(f).len(),
        forall|k: int| 0 <= k < s.len() ==> (#[trigger] s[k]) < s.len(),
    ensures
        s.filter(f)[m] < s.len(),
    decreases s.len(),
{
    lemma_filter_contains(s, f, m);
    let k = choose|k: int| 0 <= k < s.len() && s[k] == s.filter(f)[m];
    assert(s[k] < s.len());
}

proof fn lemma_filter_contains(s: Seq<usize>, f: spec_fn(usize) -> bool, m: int)
    requires
        0 <= m < s.filter(f).len(),
    ensures
        exists|k: int| 0 <= k < s.len() && s[k] == s.filter(f)[m],
    decreases s.len(),
{
    reveal(Seq::filter);
    if s.len() > 0 {
        let t = s.drop_last();
        if f(s.last()) && m == s.filter(f).len() - 1 {
            assert(s[s.len() - 1] == s.filter(f)[m]);
        } else {
            lemma_filter_contains(t, f, m);
            let k = choose|k: int| 0 <= k < t.len() && t[k] == t.filter(f)[m];
            assert(s[k] == s.filter(f)[m]);
        }
    }
}

/// Set indices one behind the other into `n` slots.
fn pack(order: &Vec<usize>, n: usize) -> (at: Vec<Option<usize>>)
    requires
        order.len() <= n,
    ensures
        at.len() == n,
        holds_packed(at@, order@),
{
    let mut at: Vec<Option<usize>> = Vec::new();
    let mut i: usize = 0;
    while i < n
        invariant
            i <= n,
            at.len() == i,
            forall|k: int|
                0 <= k < i ==> #[trigger] at@[k] == if k < order.len() {
                    Some(order@[k])
                } else {
                    None
                },
        decreases n - i,
    {
        if i < order.len() {
            at.push(Some(order[i]));
        } else {
            at.push(None);
        }
        i = i + 1;
    }
    at
}

/// The last panel of slot `s`.
fn find_last(tpl: &Template, s: Slot) -> (r: Option<usize>)
    ensures
        r == last_in(tpl.cells@, s, tpl.cells.len() as int),
{
    let mut n: usize = tpl.cells.len();
    while n > 0
        invariant
            n <= tpl.cells.len(),
            last_in(tpl.cells@, s, tpl.cells.len() as int) == last_in(tpl.cells@, s, n as int),
        decreases n,
    {
        if tpl.cells[n - 1].row == s.0 && tpl.cells[n - 1].col == s.1 {
            return Some(n - 1);
        }
        n = n - 1;
    }
    None
}

/// Each slot of the grid with the last panel that the template puts there.
fn declare(tpl: &Template, rows: usize, cols: usize) -> (at: Vec<Option<usize>>)
    requires
        rows * cols <= usize::MAX,
        cols >= 1,
    ensures
        holds_declared(at@, tpl.cells@, rows as int, cols as int),
{
    let mut at: Vec<Option<usize>> = Vec::new();
    let mut r: usize = 0;
    while r < rows
        invariant
            r <= rows,
            cols >= 1,
            at.len() == r * cols,
            forall|a: int, b: int|
                0 <= a < r && 0 <= b < cols ==> #[trigger] at@[a * cols + b] == last_in(
                    tpl.cells@,
                    (a as usize, b as usize),
                    tpl.cells.len() as int,
                ),
        decreases rows - r,
    {
        let mut c: usize = 0;
        proof {
            assert(r * cols + 0 == r * cols);
        }
        while c < cols
            invariant
                r < rows,
                c <= cols,
                cols >= 1,
                at.len() == r * cols + c,
                forall|a: int, b: int|
                    0 <= a < r && 0 <= b < cols ==> #[trigger] at@[a * cols + b] == last_in(
                        tpl.cells@,
                        (a as usize, b as usize),
                        tpl.cells.len() as int,
                    ),
                forall|b: int|
                    0 <= b < c ==> #[trigger] at@[r * cols + b] == last_in(
                        tpl.cells@,
                        (r, b as usize),
                        tpl.cells.len() as int,
                    ),
            decreases cols - c,
        {
            let x = find_last(tpl, (r, c));
            let ghost was = at@;
            at.push(x);
            proof {
                assert forall|a: int, b: int| 0 <= a < r && 0 <= b < cols implies #[trigger] at@[a
                    * cols + b] == last_in(
                    tpl.cells@,
                    (a as usize, b as usize),
                    tpl.cells.len() as int,
                ) by {
                    assert(0 <= a * cols + b < r * cols) by (nonlinear_arith)
                        requires
                            0 <= a < r,
                            0 <= b < cols,
                    ;
                    assert(at@[a * cols + b] == was[a * cols + b]);
                }
                assert forall|b: int| 0 <= b < c + 1 implies #[trigger] at@[r * cols + b] == last_in(
                    tpl.cells@,
                    (r, b as usize),
                    tpl.cells.len() as int,
                ) by {
                    if b < c {
                        assert(at@[r * cols + b] == was[r * cols + b]);
                    }
                }
            }
            c = c + 1;
        }
        proof {
            assert((r + 1) * cols == r * cols + cols) by (nonlinear_arith);
            assert forall|a: int, b: int| 0 <= a < r + 1 && 0 <= b < cols implies #[trigger] at@[a
                * cols + b] == last_in(
                tpl.cells@,
                (a as usize, b as usize),
                tpl.cells.len() as int,
            ) by {
                if a == r {
                    assert(at@[r * cols + b] == last_in(
                        tpl.cells@,
                        (r, b as usize),
                        tpl.cells.len() as int,
                    ));
                }
            }
        }
        r = r + 1;
    }
    at
}

/// Which panel stands in which slot of a window so many pixels wide. With `compact`
/// the panels that are not shown leave no gaps.
pub fn arrange(tpl: &Template, visibility: &SlotMap<bool>, compact: bool, width: i64) -> (a: Arrangement)
    requires
        visibility.wf(),
        at_least_one(tpl.grid.rows as int) * at_least_one(tpl.grid.cols as int) <= usize::MAX,
        tpl.cells.len() + at_least_one(tpl.grid.cols as int) <= usize::MAX,
    ensures
        arranged(a, *tpl, *visibility, compact, width as int),
{
    let order = order_panels(tpl, visibility, compact);
    let cols: usize = if tpl.grid.cols == 0 {
        1
    } else {
        tpl.grid.cols
    };
    let rows: usize = if tpl.grid.rows == 0 {
        1
    } else {
        tpl.grid.rows
    };
    if !compact && width >= RESPONSIVE_SINGLE_COL_W {
        let fit: u64 = (width / RESPONSIVE_MIN_CELL_W) as u64;
        proof {
            lemma_narrow(width as int, cols as int);
        }
        if fit >= cols as u64 {
            let at = declare(tpl, rows, cols);
            return Arrangement { rows, cols, at };
        }
    }
    let (r, c) = responsive_grid_dims(width, order.len(), cols);
    let n: usize = r * c;
    let at = pack(&order, n);
    Arrangement { rows: r, cols: c, at }
}

/// Hiding a panel closes its gap: without gaps the panels shown fill the first slots
/// in reading order, each once, and no other slot holds a panel.
pub proof fn compact_arrangement_has_no_gaps(
    a: Arrangement,
    tpl: Template,
    visibility: SlotMap<bool>,
    width: int,
)
    requires
        arranged(a, tpl, visibility, true, width),
    ensures
        reading_order(tpl, visibility, true).to_multiset() == placed(tpl, visibility, true).to_multiset(),
        forall|i: int|
            0 <= i < a.at.len() ==> ((#[trigger] a.at@[i]) is Some <==> i < placed(
                tpl,
                visibility,
                true,
            ).len()),
{
    by_slot_sorts(placed(tpl, visibility, true), index_slot(tpl.cells@));
}

/// Is the window scrolled? It is where the panels stand in one column of more than
/// two.
pub fn scrolls(a: &Arrangement) -> (r: bool)
    ensures
        r == (a.cols == 1 && a.rows > 2),
{
    a.cols == 1 && a.rows > 2
}

// ---------------------------------------------------------------- areas

/// An upright rectangle: its upper left corner and its size.
#[derive(Clone, Copy, Debug, PartialEq, Eq, Structural)]
pub struct Area {
    pub x: i128,
    pub y: i128,
    pub w: i128,
    pub h: i128,
}

/// The part of the screen that a grid is laid out in: its upper left corner and its
/// size. A size below zero counts as none.
#[derive(Clone, Copy, Debug, PartialEq, Eq, Structural)]
pub struct Window {
    pub x: i64,
    pub y: i64,
    pub w: i64,
    pub h: i64,
}

/// The height of a banner.
pub const BANNER_H: i128 = 4608;

/// The gap between a slot's edge and its panel.
pub const CELL_PAD: i128 = 768;

/// The least height of a slot.
pub const MIN_SLOT_H: i128 = 15360;

/// The least width of a slot.
pub const MIN_SLOT_W: i128 = 20480;

/// More than any count.
pub const COUNT_LIMIT: i128 = 0x1_0000_0000_0000_0000;

/// The largest width or height of all slots together.
pub const REACH: i128 = 0x1_0000_0000_0000_0000_0000;

/// Where the `i`-th of `n` equal parts of a length starts.
pub open spec fn edge(i: int, n: int, total: int) -> int {
    (i * total) / n
}

/// Do two areas have no point in common?
pub open spec fn apart(a: Area, b: Area) -> bool {
    a.x + a.w <= b.x || b.x + b.w <= a.x || a.y + a.h <= b.y || b.y + b.h <= a.y
}

/// Is a section's banner drawn above row `r`?
pub open spec fn bannered(s: Section, r: int) -> bool {
    s.label@.len() > 0 && s.anchor_row == r
}

/// How many of the first `n` sections have a banner above row `r`.
pub open spec fn banners_at(sections: Seq<Section>, n: int, r: int) -> int
    decreases n,
{
    if n <= 0 {
        0
    } else {
        banners_at(sections, n - 1, r) + if bannered(sections[n - 1], r) {
            1int
        } else {
            0
        }
    }
}

/// How many of the first `n` sections have a banner above row `r` or one before it.
pub open spec fn banners_upto(sections: Seq<Section>, n: int, r: int) -> int
    decreases n,
{
    if n <= 0 {
        0
    } else {
        banners_upto(sections, n - 1, r) + if sections[n - 1].label@.len() > 0
            && sections[n - 1].anchor_row <= r {
            1int
        } else {
            0
        }
    }
}

/// The slots and banners of a window.
#[derive(Clone, Debug)]
pub struct GridLayout {
    pub x: i64,
    pub y: i64,
    pub rows: usize,
    pub cols: usize,
    /// The width of all slots together.
    pub width: i128,
    /// The height of all slots together.
    pub height: i128,
    /// How far each row is pushed down by the banners above it.
    pub offsets: Vec<i128>,
    /// The sections with a banner, by index, and its area.
    pub banners: Vec<(usize, Area)>,
    /// All of it.
    pub total: Area,
}

impl GridLayout {
    /// The area of the panel in slot `(r, c)`.
    pub open spec fn slot_area(self, r: int, c: int) -> Area {
        let x0 = edge(c, self.cols as int, self.width as int);
        let x1 = edge(c + 1, self.cols as int, self.width as int);
        let y0 = edge(r, self.rows as int, self.height as int);
        let y1 = edge(r + 1, self.rows as int, self.height as int);
        Area {
            x: (self.x + x0 + CELL_PAD) as i128,
            y: (self.y + y0 + self.offsets@[r] + CELL_PAD) as i128,
            w: (x1 - x0 - 2 * CELL_PAD) as i128,
            h: (y1 - y0 - 2 * CELL_PAD) as i128,
        }
    }

    /// Is it the layout of a window with so many rows and columns?
    pub open spec fn of(self, window: Window, rows: int, cols: int, sections: Seq<Section>) -> bool {
        let n = sections.len() as int;
        let room = window.h - BANNER_H * banners_upto(sections, n, rows - 1);
        &&& self.x == window.x
        &&& self.y == window.y
        &&& self.rows == rows
        &&& self.cols == cols
        &&& self.width == if window.w > MIN_SLOT_W * cols {
            window.w as int
        } else {
            MIN_SLOT_W * cols
        }
        &&& self.height == if room > MIN_SLOT_H * rows {
            room
        } else {
            MIN_SLOT_H * rows
        }
        &&& self.offsets.len() == rows
        &&& forall|r: int|
            0 <= r < rows ==> #[trigger] self.offsets@[r] == BANNER_H * banners_upto(
                sections,
                n,
                r,
            )
        &&& self.total == (Area {
            x: window.x as i128,
            y: window.y as i128,
            w: self.width,
            h: (self.height + BANNER_H * banners_upto(sections, n, rows - 1)) as i128,
        })
    }

    /// There is a slot, each has the least size, and nothing lies further out than the
    /// numbers of rows, columns and banners can push it.
    pub open spec fn wf(self) -> bool {
        &&& 1 <= self.rows
        &&& 1 <= self.cols
        &&& MIN_SLOT_W * self.cols <= self.width <= REACH
        &&& MIN_SLOT_H * self.rows <= self.height <= REACH
        &&& self.offsets.len() == self.rows
        &&& forall|r: int| 0 <= r < self.rows ==> 0 <= #[trigger] self.offsets@[r] <= REACH
        &&& i64::MIN <= self.total.x <= i64::MAX
        &&& i64::MIN <= self.total.y <= i64::MAX
        &&& 0 <= self.total.w <= REACH
        &&& 0 <= self.total.h <= 2 * REACH
    }

    /// The area of the panel in slot `(r, c)`.
    pub fn cell_rect(&self, r: usize, c: usize) -> (a: Area)
        requires
            self.wf(),
            r < self.rows,
            c < self.cols,
        ensures
            a == self.slot_area(r as int, c as int),
    {
        proof {
            lemma_edges(c as int, self.cols as int, self.width as int, MIN_SLOT_W as int);
            lemma_edges(r as int, self.rows as int, self.height as int, MIN_SLOT_H as int);
        }
        let x0: i128 = edge_at(c, self.cols, self.width);
        let x1: i128 = edge_at(c + 1, self.cols, self.width);
        let y0: i128 = edge_at(r, self.rows, self.height);
        let y1: i128 = edge_at(r + 1, self.rows, self.height);
        Area {
            x: self.x as i128 + x0 + CELL_PAD,
            y: self.y as i128 + y0 + self.offsets[r] + CELL_PAD,
            w: x1 - x0 - 2 * CELL_PAD,
            h: y1 - y0 - 2 * CELL_PAD,
        }
    }
}

/// Where the `i`-th of `n` equal parts of a length starts.
fn edge_at(i: usize, n: usize, total: i128) -> (r: i128)
    requires
        i <= n,
        1 <= n,
        0 <= total,
    ensures
        r == edge(i as int, n as int, total as int),
{
    let whole: u128 = total as u128;
    let parts: u128 = n as u128;
    let at: u128 = i as u128;
    let q: u128 = whole / parts;
    let m: u128 = whole % parts;
    proof {
        let (t, d, k) = (whole as int, parts as int, at as int);
        vstd::arithmetic::div_mod::lemma_fundamental_div_mod(t, d);
        assert(k * q <= t) by (nonlinear_arith)
            requires
                t == d * q + m,
                0 <= k <= d,
                0 <= q,
                0 <= m,
        ;
        assert(0 <= k * q && 0 <= k * m) by (nonlinear_arith)
            requires
                0 <= k,
                0 <= q,
                0 <= m,
        ;
        assert(k * m <= 0xFFFF_FFFF_FFFF_FFFF * 0xFFFF_FFFF_FFFF_FFFF) by (nonlinear_arith)
            requires
                0 <= k <= 0xFFFF_FFFF_FFFF_FFFF,
                0 <= m <= 0xFFFF_FFFF_FFFF_FFFF,
        ;
        assert(k * t == k * m + (k * q) * d) by (nonlinear_arith)
            requires
                t == d * q + m,
        ;
        vstd::arithmetic::div_mod::lemma_hoist_over_denominator(k * m, k * q, d as nat);
        assert((k * m) / d + k * q == (k * t) / d);
        vstd::arithmetic::div_mod::lemma_div_pos_is_pos(k * m, d);
        assert(k * t <= d * t) by (nonlinear_arith)
            requires
                0 <= k <= d,
                0 <= t,
        ;
        vstd::arithmetic::div_mod::lemma_div_is_ordered(k * t, d * t, d);
        vstd::arithmetic::div_mod::lemma_div_multiples_vanish(t, d);
    }
    let r: u128 = (at * m) / parts + at * q;
    r as i128
}

/// Neighbouring edges are at least `least` apart where the whole has room for it,
/// and none lies beyond the whole.
pub(crate) proof fn lemma_edges(i: int, n: int, total: int, least: int)
    requires
        0 <= i < n,
        0 <= least,
        least * n <= total,
    ensures
        0 <= edge(i, n, total),
        edge(i, n, total) + least <= edge(i + 1, n, total),
        edge(i + 1, n, total) <= total,
{
    let a = i * total;
    let b = (i + 1) * total;
    assert(b == a + total) by (nonlinear_arith)
        requires
            a == i * total,
            b == (i + 1) * total,
    ;
    assert(0 <= a) by (nonlinear_arith)
        requires
            0 <= i,
            0 <= total,
            a == i * total,
    ;
    vstd::arithmetic::div_mod::lemma_fundamental_div_mod(a, n);
    let q = a / n;
    assert(q >= 0) by {
        vstd::arithmetic::div_mod::lemma_div_pos_is_pos(a, n);
    }
    // b >= n * (q + least)
    assert(n * (q + least) <= b) by (nonlinear_arith)
        requires
            a == n * q + a % n,
            a % n >= 0,
            b == a + total,
            least * n <= total,
    ;
    vstd::arithmetic::div_mod::lemma_div_is_ordered(n * (q + least), b, n);
    vstd::arithmetic::div_mod::lemma_div_multiples_vanish(q + least, n);
    assert(b <= n * total) by (nonlinear_arith)
        requires
            b == (i + 1) * total,
            i + 1 <= n,
            0 <= total,
    ;
    vstd::arithmetic::div_mod::lemma_div_is_ordered(b, n * total, n);
    vstd::arithmetic::div_mod::lemma_div_multiples_vanish(total, n);
}

/// Edges do not go down.
pub(crate) proof fn lemma_edge_order(i: int, j: int, n: int, total: int)
    requires
        0 <= i <= j,
        n >= 1,
        0 <= total,
    ensures
        edge(i, n, total) <= edge(j, n, total),
{
    assert(i * total <= j * total) by (nonlinear_arith)
        requires
            i <= j,
            0 <= total,
    ;
    vstd::arithmetic::div_mod::lemma_div_is_ordered(i * total, j * total, n);
}

/// Panels in two slots have no point in common.
pub proof fn slots_do_not_overlap(
    l: GridLayout,
    window: Window,
    sections: Seq<Section>,
    r: int,
    c: int,
    s: int,
    d: int,
)
    requires
        l.wf(),
        l.of(window, l.rows as int, l.cols as int, sections),
        0 <= r < l.rows,
        0 <= c < l.cols,
        0 <= s < l.rows,
        0 <= d < l.cols,
        r != s || c != d,
    ensures
        apart(l.slot_area(r, c), l.slot_area(s, d)),
{
    offsets_go_down(l, window, sections);
    lemma_edges(c, l.cols as int, l.width as int, MIN_SLOT_W as int);
    lemma_edges(d, l.cols as int, l.width as int, MIN_SLOT_W as int);
    lemma_edges(r, l.rows as int, l.height as int, MIN_SLOT_H as int);
    lemma_edges(s, l.rows as int, l.height as int, MIN_SLOT_H as int);
    if c < d {
        lemma_edge_order(c + 1, d, l.cols as int, l.width as int);
    } else if d < c {
        lemma_edge_order(d + 1, c, l.cols as int, l.width as int);
    } else if r < s {
        lemma_edge_order(r + 1, s, l.rows as int, l.height as int);
        assert(l.offsets@[r] <= l.offsets@[s]);
    } else {
        lemma_edge_order(s + 1, r, l.rows as int, l.height as int);
        assert(l.offsets@[s] <= l.offsets@[r]);
    }
}

/// Every panel lies within the layout and has room.
pub proof fn slots_lie_inside(l: GridLayout, window: Window, sections: Seq<Section>, r: int, c: int)
    requires
        l.wf(),
        l.of(window, l.rows as int, l.cols as int, sections),
        0 <= r < l.rows,
        0 <= c < l.cols,
    ensures
        l.slot_area(r, c).w > 0,
        l.slot_area(r, c).h > 0,
        l.slot_area(r, c).x >= window.x,
        l.slot_area(r, c).y >= window.y,
        l.slot_area(r, c).x + l.slot_area(r, c).w <= window.x + l.width,
        l.slot_area(r, c).y + l.slot_area(r, c).h <= l.total.y + l.total.h,
        window.w >= MIN_SLOT_W * l.cols ==> l.width == window.w,
{
    lemma_edges(c, l.cols as int, l.width as int, MIN_SLOT_W as int);
    lemma_edges(r, l.rows as int, l.height as int, MIN_SLOT_H as int);
    let n = sections.len() as int;
    lemma_upto(sections, n, r, l.rows - 1);
    assert(l.offsets@[r] == BANNER_H * banners_upto(sections, n, r));
    assert(l.offsets@[l.rows - 1] == BANNER_H * banners_upto(sections, n, l.rows - 1));
}

pub(crate) proof fn lemma_upto(sections: Seq<Section>, n: int, r: int, s: int)
    requires
        0 <= n <= sections.len(),
        r <= s,
    ensures
        0 <= banners_upto(sections, n, r) <= banners_upto(sections, n, s),
    decreases n,
{
    if n > 0 {
        lemma_upto(sections, n - 1, r, s);
    }
}

pub(crate) proof fn lemma_upto_bound(sections: Seq<Section>, n: int, r: int)
    requires
        0 <= n <= sections.len(),
    ensures
        0 <= banners_upto(sections, n, r) <= n,
        0 <= banners_at(sections, n, r) <= n,
        banners_upto(sections, n, r) == banners_upto(sections, n, r - 1) + banners_at(sections, n, r),
    decreases n,
{
    if n > 0 {
        lemma_upto_bound(sections, n - 1, r);
    }
}

/// No section starts above row 0.
proof fn lemma_upto_none(sections: Seq<Section>, n: int)
    requires
        0 <= n <= sections.len(),
    ensures
        banners_upto(sections, n, -1) == 0,
    decreases n,
{
    if n > 0 {
        lemma_upto_none(sections, n - 1);
    }
}

/// How many of the sections have a banner above row `r`, of the first `n`.
fn count_banners(sections: &Vec<Section>, n: usize, r: usize) -> (k: usize)
    requires
        n <= sections.len(),
    ensures
        k == banners_at(sections@, n as int, r as int),
        k <= n,
{
    let mut k: usize = 0;
    let mut i: usize = 0;
    while i < n
        invariant
            i <= n <= sections.len(),
            k == banners_at(sections@, i as int, r as int),
            k <= i,
        decreases n - i,
    {
        if !sections[i].label.as_str().is_empty() && sections[i].anchor_row == r {
            k = k + 1;
        }
        i = i + 1;
    }
    k
}

/// Where the banner of section `i` is: above its row, below the banners of earlier
/// sections for that row.
pub open spec fn banner_area(l: GridLayout, sections: Seq<Section>, i: int) -> Area {
    let r = sections[i].anchor_row as int;
    let n = sections.len() as int;
    Area {
        x: l.x as i128,
        y: (l.y + edge(r, l.rows as int, l.height as int) + BANNER_H * (banners_upto(
            sections,
            n,
            r - 1,
        ) + banners_at(sections, i, r))) as i128,
        w: l.width,
        h: BANNER_H,
    }
}

/// The sections, of the first `n`, whose row is there and that have a label.
pub open spec fn drawn_sections(sections: Seq<Section>, n: int, rows: int) -> Seq<int>
    decreases n,
{
    if n <= 0 {
        Seq::empty()
    } else if sections[n - 1].label@.len() > 0 && sections[n - 1].anchor_row < rows {
        drawn_sections(sections, n - 1, rows).push(n - 1)
    } else {
        drawn_sections(sections, n - 1, rows)
    }
}

/// Are these the banners of a layout?
pub open spec fn banners_of(l: GridLayout, sections: Seq<Section>) -> bool {
    let at = drawn_sections(sections, sections.len() as int, l.rows as int);
    &&& l.banners.len() == at.len()
    &&& forall|j: int|
        0 <= j < at.len() ==> (#[trigger] l.banners@[j]).0 == at[j] && l.banners@[j].1
            == banner_area(l, sections, at[j])
}

/// The slots and banners of a window. Each labelled section gets a strip of its own
/// above its row, so that it never lies over a panel.
pub fn compute_layout(window: Window, rows: usize, cols: usize, sections: &Vec<Section>) -> (l: GridLayout)
    requires
        1 <= rows,
        1 <= cols,
    ensures
        l.of(window, rows as int, cols as int, sections@),
        l.wf(),
        banners_of(l, sections@),
{
    let n: usize = sections.len();
    let mut offsets: Vec<i128> = Vec::new();
    let mut before: Vec<i128> = Vec::new();
    let mut sum: i128 = 0;
    let mut r: usize = 0;
    proof {
        lemma_upto_none(sections@, n as int);
    }
    while r < rows
        invariant
            r <= rows,
            n == sections.len(),
            sum == banners_upto(sections@, n as int, r - 1),
            0 <= sum <= n,
            offsets.len() == r,
            before.len() == r,
            forall|q: int|
                0 <= q < r ==> #[trigger] offsets@[q] == BANNER_H * banners_upto(
                    sections@,
                    n as int,
                    q,
                ),
            forall|q: int|
                0 <= q < r ==> #[trigger] before@[q] == banners_upto(sections@, n as int, q - 1),
            forall|q: int| 0 <= q < r ==> 0 <= #[trigger] offsets@[q] <= REACH,
            forall|q: int| 0 <= q < r ==> 0 <= #[trigger] before@[q] <= COUNT_LIMIT,
        decreases rows - r,
    {
        let k: usize = count_banners(sections, n, r);
        proof {
            lemma_upto_bound(sections@, n as int, r as int);
        }
        before.push(sum);
        sum = sum + k as i128;
        offsets.push(BANNER_H * sum);
        r = r + 1;
    }
    let least_w: i128 = MIN_SLOT_W * cols as i128;
    let least_h: i128 = MIN_SLOT_H * rows as i128;
    let width: i128 = if window.w as i128 > least_w {
        window.w as i128
    } else {
        least_w
    };
    let room: i128 = window.h as i128 - BANNER_H * sum;
    let height: i128 = if room > least_h {
        room
    } else {
        least_h
    };
    let total = Area {
        x: window.x as i128,
        y: window.y as i128,
        w: width,
        h: height + BANNER_H * sum,
    };
    let mut l = GridLayout {
        x: window.x,
        y: window.y,
        rows,
        cols,
        width,
        height,
        offsets,
        banners: Vec::new(),
        total,
    };
    let mut i: usize = 0;
    while i < n
        invariant
            i <= n,
            n == sections.len(),
            l.of(window, rows as int, cols as int, sections@),
            l.wf(),
            rows == l.rows,
            before.len() == rows,
            forall|q: int|
                0 <= q < rows ==> #[trigger] before@[q] == banners_upto(sections@, n as int, q - 1),
            forall|q: int| 0 <= q < rows ==> 0 <= #[trigger] before@[q] <= COUNT_LIMIT,
            l.banners.len() == drawn_sections(sections@, i as int, rows as int).len(),
            forall|j: int|
                0 <= j < l.banners.len() ==> (#[trigger] l.banners@[j]).0 == drawn_sections(
                    sections@,
                    i as int,
                    rows as int,
                )[j] && l.banners@[j].1 == banner_area(
                    l,
                    sections@,
                    drawn_sections(sections@, i as int, rows as int)[j],
                ),
        decreases n - i,
    {
        if !sections[i].label.as_str().is_empty() && sections[i].anchor_row < rows {
            let a: usize = sections[i].anchor_row;
            let k: usize = count_banners(sections, i, a);
            proof {
                lemma_edges(a as int, rows as int, l.height as int, MIN_SLOT_H as int);
                assert(0 <= before@[a as int] <= COUNT_LIMIT);
            }
            let top: i128 = edge_at(a, rows, l.height);
            let above: i128 = before[a] + k as i128;
            let area = Area {
                x: l.x as i128,
                y: l.y as i128 + top + BANNER_H * above,
                w: l.width,
                h: BANNER_H,
            };
            let ghost was = l;
            l.banners.push((i, area));
            proof {
                assert forall|j: int| 0 <= j < l.banners.len() implies (#[trigger] l.banners@[j]).0
                    == drawn_sections(sections@, i + 1, rows as int)[j] && l.banners@[j].1
                    == banner_area(
                    l,
                    sections@,
                    drawn_sections(sections@, i + 1, rows as int)[j],
                ) by {
                    if j < was.banners.len() {
                        assert(was.banners@[j] == l.banners@[j]);
                        assert(banner_area(
                            l,
                            sections@,
                            drawn_sections(sections@, i as int, rows as int)[j],
                        ) == banner_area(
                            was,
                            sections@,
                            drawn_sections(sections@, i as int, rows as int)[j],
                        ));
                    }
                }
            }
        }
        i = i + 1;
    }
    l
}

/// A banner lies over no panel.
pub proof fn banners_do_not_cover_panels(
    l: GridLayout,
    window: Window,
    sections: Seq<Section>,
    i: int,
    r: int,
    c: int,
)
    requires
        l.wf(),
        l.of(window, l.rows as int, l.cols as int, sections),
        0 <= i < sections.len(),
        sections[i].label@.len() > 0,
        sections[i].anchor_row < l.rows,
        0 <= r < l.rows,
        0 <= c < l.cols,
    ensures
        apart(banner_area(l, sections, i), l.slot_area(r, c)),
{
    let a = sections[i].anchor_row as int;
    let n = sections.len() as int;
    lemma_upto_bound(sections, n, a);
    lemma_upto_bound(sections, i, a);
    lemma_at_strict(sections, i, n, a);
    lemma_edges(r, l.rows as int, l.height as int, MIN_SLOT_H as int);
    lemma_edges(a, l.rows as int, l.height as int, MIN_SLOT_H as int);
    lemma_edges(c, l.cols as int, l.width as int, MIN_SLOT_W as int);
    lemma_upto_bound(sections, n, r);
    assert(l.offsets@[a] == BANNER_H * banners_upto(sections, n, a));
    lemma_upto_bound(sections, n, a - 1);
    if r < a {
        lemma_edge_order(r + 1, a, l.rows as int, l.height as int);
        lemma_upto(sections, n, r, a - 1);
        assert(l.offsets@[r] == BANNER_H * banners_upto(sections, n, r));
    } else {
        lemma_edge_order(a, r, l.rows as int, l.height as int);
        lemma_upto(sections, n, a, r);
        assert(l.offsets@[r] == BANNER_H * banners_upto(sections, n, r));
    }
}

pub(crate) proof fn lemma_at_strict(sections: Seq<Section>, i: int, n: int, r: int)
    requires
        0 <= i < n <= sections.len(),
        bannered(sections[i], r),
    ensures
        banners_at(sections, i, r) + 1 <= banners_at(sections, n, r),
    decreases n,
{
    if n - 1 > i {
        lemma_at_strict(sections, i, n - 1, r);
    }
}

/// Rows further down are pushed down at least as far.
pub(crate) proof fn offsets_go_down(l: GridLayout, window: Window, sections: Seq<Section>)
    requires
        l.of(window, l.rows as int, l.cols as int, sections),
    ensures
        forall|a: int, b: int|
            0 <= a <= b < l.rows ==> (#[trigger] l.offsets@[a]) <= (#[trigger] l.offsets@[b]),
{
    assert forall|a: int, b: int| 0 <= a <= b < l.rows implies (#[trigger] l.offsets@[a]) <= (
    #[trigger] l.offsets@[b]) by {
        lemma_upto(sections, sections.len() as int, a, b);
    }
}

/// The areas of all slots in reading order.
fn all_areas(l: &GridLayout) -> (r: Vec<Area>)
    requires
        l.wf(),
        l.rows * l.cols <= usize::MAX,
    ensures
        r.len() == l.rows * l.cols,
        forall|i: int|
            0 <= i < r.len() ==> #[trigger] r@[i] == l.slot_area(
                i / (l.cols as int),
                i % (l.cols as int),
            ),
{
    let n: usize = l.rows * l.cols;
    let mut out: Vec<Area> = Vec::new();
    let mut i: usize = 0;
    while i < n
        invariant
            i <= n,
            n == l.rows * l.cols,
            l.wf(),
            out.len() == i,
            forall|k: int|
                0 <= k < i ==> #[trigger] out@[k] == l.slot_area(
                    k / (l.cols as int),
                    k % (l.cols as int),
                ),
        decreases n - i,
    {
        proof {
            lemma_slot_index(i as int, l.rows as int, l.cols as int);
        }
        out.push(l.cell_rect(i / l.cols, i % l.cols));
        i = i + 1;
    }
    out
}

proof fn lemma_slot_index(i: int, rows: int, cols: int)
    requires
        0 <= i < rows * cols,
        cols >= 1,
    ensures
        0 <= i / cols < rows,
        0 <= i % cols < cols,
{
    vstd::arithmetic::div_mod::lemma_fundamental_div_mod(i, cols);
    assert(i / cols < rows) by (nonlinear_arith)
        requires
            i < rows * cols,
            i == cols * (i / cols) + i % cols,
            i % cols >= 0,
            cols >= 1,
    ;
    vstd::arithmetic::div_mod::lemma_div_pos_is_pos(i, cols);
}

/// Are these the areas of all slots of the layout `l`, in reading order?
pub open spec fn areas_of(
    r: Seq<Area>,
    l: GridLayout,
    window: Window,
    rows: int,
    cols: int,
    sections: Seq<Section>,
) -> bool {
    &&& l.of(window, rows, cols, sections)
    &&& l.wf()
    &&& r.len() == rows * cols
    &&& forall|i: int| 0 <= i < r.len() ==> #[trigger] r[i] == l.slot_area(i / cols, i % cols)
}

/// The areas of the slots of a template's own grid, in reading order.
pub fn layout_cell_rects(tpl: &Template, window: Window) -> (r: Vec<Area>)
    requires
        at_least_one(tpl.grid.rows as int) * at_least_one(tpl.grid.cols as int) <= usize::MAX,
    ensures
        exists|l: GridLayout|
            areas_of(
                r@,
                l,
                window,
                at_least_one(tpl.grid.rows as int),
                at_least_one(tpl.grid.cols as int),
                tpl.sections@,
            ),
{
    let rows: usize = if tpl.grid.rows == 0 {
        1
    } else {
        tpl.grid.rows
    };
    let cols: usize = if tpl.grid.cols == 0 {
        1
    } else {
        tpl.grid.cols
    };
    let l = compute_layout(window, rows, cols, &tpl.sections);
    let r = all_areas(&l);
    proof {
        assert(areas_of(
            r@,
            l,
            window,
            at_least_one(tpl.grid.rows as int),
            at_least_one(tpl.grid.cols as int),
            tpl.sections@,
        ));
    }
    r
}

/// The number of panels that are switched on.
pub open spec fn visible_count(cells: Seq<Cell>) -> nat {
    cells.filter(|c: Cell| c.visible).len()
}

fn count_visible(tpl: &Template) -> (n: usize)
    ensures
        n == visible_count(tpl.cells@),
        n <= tpl.cells.len(),
{
    let ghost f = |c: Cell| c.visible;
    let mut n: usize = 0;
    let mut i: usize = 0;
    proof {
        reveal(Seq::filter);
        assert(tpl.cells@.take(0).filter(f) =~= Seq::empty());
    }
    while i < tpl.cells.len()
        invariant
            i <= tpl.cells.len(),
            f == (|c: Cell| c.visible),
            n == tpl.cells@.take(i as int).filter(f).len(),
            n <= i,
        decreases tpl.cells.len() - i,
    {
        proof {
            reveal(Seq::filter);
            assert(tpl.cells@.take(i + 1).drop_last() =~= tpl.cells@.take(i as int));
            assert(tpl.cells@.take(i + 1).last() == tpl.cells@[i as int]);
        }
        if tpl.cells[i].visible {
            n = n + 1;
        }
        i = i + 1;
    }
    proof {
        assert(tpl.cells@.take(tpl.cells.len() as int) =~= tpl.cells@);
    }
    n
}

/// Rows, columns and areas of the slots that a window has for the panels that are
/// switched on, in reading order.
pub fn responsive_cell_rects(tpl: &Template, window: Window) -> (r: (usize, usize, Vec<Area>))
    requires
        tpl.cells.len() + at_least_one(tpl.grid.cols as int) <= usize::MAX,
    ensures
        r.1 == fitting_cols(window.w as int / SUBPX as int, tpl.grid.cols as int),
        r.0 == fitting_rows(visible_count(tpl.cells@) as int, r.1 as int),
        exists|l: GridLayout|
            areas_of(r.2@, l, window, r.0 as int, r.1 as int, tpl.sections@),
{
    let n: usize = count_visible(tpl);
    let width: i64 = if window.w < 0 {
        -1
    } else {
        window.w / SUBPX
    };
    let (rows, cols) = responsive_grid_dims(width, n, tpl.grid.cols);
    proof {
        let count = if n == 0 { 1int } else { n as int };
        lemma_rows(count, cols as int);
    }
    let l = compute_layout(window, rows, cols, &tpl.sections);
    let r = all_areas(&l);
    let out = (rows, cols, r);
    proof {
        assert(areas_of(out.2@, l, window, out.0 as int, out.1 as int, tpl.sections@));
    }
    out
}

// ---------------------------------------------------------------- dragging

/// What the operator asks to be done with a panel.
#[derive(Clone, Copy, Debug, PartialEq, Eq)]
pub enum CellMenuAction {
    Edit { row: usize, col: usize },
    HideToggle { row: usize, col: usize },
    ResetZoom { row: usize, col: usize },
    SetLabelMode { row: usize, col: usize, mode: LabelMode },
    Delete { row: usize, col: usize },
    /// A panel was dropped on another.
    SwapTo { from: (usize, usize), to: (usize, usize) },
    /// A panel was dropped on an empty slot.
    MoveTo { from: (usize, usize), to: (usize, usize) },
}

/// How far outside the layout a drop still counts.
pub const DROP_MARGIN: i128 = 2048;

/// Is a point within an area or no more than the margin outside it?
pub open spec fn near(a: Area, x: i64, y: i64) -> bool {
    a.x - DROP_MARGIN <= x <= a.x + a.w + DROP_MARGIN && a.y - DROP_MARGIN <= y <= a.y + a.h
        + DROP_MARGIN
}

/// Four times the squared distance between the middle of an area and a point.
pub open spec fn distance(a: Area, x: i64, y: i64) -> int {
    let dx = 2 * a.x + a.w - 2 * x;
    let dy = 2 * a.y + a.h - 2 * y;
    dx * dx + dy * dy
}

/// Is slot `(r, c)` before slot `(a, b)` in reading order?
pub open spec fn reads_before(r: int, c: int, a: int, b: int) -> bool {
    r < a || (r == a && c < b)
}

/// Twice the way from `at` to the middle of a length that starts at `from`, without its
/// sign.
fn twice_off(from: i128, length: i128, at: i64) -> (r: u128)
    requires
        -4 * REACH <= from <= 4 * REACH,
        -4 * REACH <= length <= 4 * REACH,
    ensures
        r * r == (2 * from + length - 2 * at) * (2 * from + length - 2 * at),
        r <= 16 * REACH,
{
    let d: i128 = 2 * from + length - 2 * (at as i128);
    if d < 0 {
        proof {
            assert((-d) * (-d) == d * d) by (nonlinear_arith);
        }
        (-d) as u128
    } else {
        d as u128
    }
}

/// Four times the squared distance between the middle of an area and a point.
fn measure(a: Area, x: i64, y: i64) -> (d: Wide)
    requires
        -4 * REACH <= a.x <= 4 * REACH,
        -4 * REACH <= a.y <= 4 * REACH,
        -4 * REACH <= a.w <= 4 * REACH,
        -4 * REACH <= a.h <= 4 * REACH,
    ensures
        d.value() == distance(a, x, y),
{
    let p = Wide::square(twice_off(a.x, a.w, x));
    let q = Wide::square(twice_off(a.y, a.h, y));
    p.plus(q)
}

/// Is `r` the slot that a panel let go at `center` falls into: of all but its own the one
/// whose middle is nearest, the first of those in reading order, and none where the
/// pointer has left the grid?
pub open spec fn snaps(
    l: GridLayout,
    from: (usize, usize),
    center: (i64, i64),
    pointer: (i64, i64),
    r: Option<(usize, usize)>,
) -> bool {
    match r {
        None => !near(l.total, pointer.0, pointer.1) || (l.rows == 1 && l.cols == 1 && from
            == (0usize, 0usize)),
        Some(t) => {
            let best = distance(l.slot_area(t.0 as int, t.1 as int), center.0, center.1);
            &&& near(l.total, pointer.0, pointer.1)
            &&& t.0 < l.rows && t.1 < l.cols && t != from
            &&& forall|a: int, b: int|
                0 <= a < l.rows && 0 <= b < l.cols && other_slot(a, b, from)
                    ==> best <= distance(#[trigger] l.slot_area(a, b), center.0, center.1)
            &&& forall|a: int, b: int|
                0 <= a < l.rows && 0 <= b < l.cols && other_slot(a, b, from)
                    && reads_before(a, b, t.0 as int, t.1 as int) ==> best < distance(
                    #[trigger] l.slot_area(a, b),
                    center.0,
                    center.1,
                )
        },
    }
}

/// The slot that a panel dragged from slot `from` snaps to: the one whose middle is
/// nearest to the middle of the dragged panel, the first in reading order of several.
/// None where the pointer is well outside the layout or there is no other slot.
pub fn snap_target(
    l: &GridLayout,
    from: (usize, usize),
    center: (i64, i64),
    pointer: (i64, i64),
) -> (r: Option<(usize, usize)>)
    requires
        l.wf(),
    ensures
        snaps(*l, from, center, pointer, r),
{
    let t = l.total;
    let px: i128 = pointer.0 as i128;
    let py: i128 = pointer.1 as i128;
    if !(t.x - DROP_MARGIN <= px && px <= t.x + t.w + DROP_MARGIN && t.y - DROP_MARGIN <= py && py
        <= t.y + t.h + DROP_MARGIN) {
        return None;
    }
    let mut best: Option<(usize, usize)> = None;
    let mut best_d: Wide = Wide { hi: 0, lo: 0 };
    let mut r: usize = 0;
    while r < l.rows
        invariant
            l.wf(),
            r <= l.rows,
            near(l.total, pointer.0, pointer.1),
            snapped(*l, from, center, best, best_d.value(), r as int, 0),
        decreases l.rows - r,
    {
        let mut c: usize = 0;
        while c < l.cols
            invariant
                l.wf(),
                r < l.rows,
                c <= l.cols,
                near(l.total, pointer.0, pointer.1),
                snapped(*l, from, center, best, best_d.value(), r as int, c as int),
            decreases l.cols - c,
        {
            if !(r == from.0 && c == from.1) {
                let area = l.cell_rect(r, c);
                proof {
                    lemma_edges(c as int, l.cols as int, l.width as int, MIN_SLOT_W as int);
                    lemma_edges(r as int, l.rows as int, l.height as int, MIN_SLOT_H as int);
                }
                let d: Wide = measure(area, center.0, center.1);
                let better = match best {
                    None => true,
                    Some(_) => d.less(best_d),
                };
                if better {
                    best = Some((r, c));
                    best_d = d;
                }
            }
            c = c + 1;
        }
        r = r + 1;
    }
    proof {
        if best is None {
            assert(!other_slot(0, 0, from));
            if l.cols > 1 {
                assert(!other_slot(0, 1, from));
            }
            if l.rows > 1 {
                assert(!other_slot(1, 0, from));
            }
        }
    }
    best
}

/// Is slot `(a, b)` another than `from`?
pub open spec fn other_slot(a: int, b: int, from: (usize, usize)) -> bool {
    a != from.0 || b != from.1
}

/// Is `best` the nearest slot of those before slot `(r, c)`?
pub open spec fn snapped(
    l: GridLayout,
    from: (usize, usize),
    center: (i64, i64),
    best: Option<(usize, usize)>,
    best_d: int,
    r: int,
    c: int,
) -> bool {
    match best {
        None => forall|a: int, b: int|
            0 <= a < l.rows && 0 <= b < l.cols && reads_before(a, b, r, c) ==> !#[trigger] other_slot(
                a,
                b,
                from,
            ),
        Some(t) => {
            &&& t.0 < l.rows && t.1 < l.cols && t != from
            &&& reads_before(t.0 as int, t.1 as int, r, c)
            &&& best_d == distance(l.slot_area(t.0 as int, t.1 as int), center.0, center.1)
            &&& forall|a: int, b: int|
                0 <= a < l.rows && 0 <= b < l.cols && other_slot(a, b, from)
                    && reads_before(a, b, r, c) ==> best_d <= distance(
                    #[trigger] l.slot_area(a, b),
                    center.0,
                    center.1,
                )
            &&& forall|a: int, b: int|
                0 <= a < l.rows && 0 <= b < l.cols && other_slot(a, b, from)
                    && reads_before(a, b, t.0 as int, t.1 as int) ==> best_d < distance(
                    #[trigger] l.slot_area(a, b),
                    center.0,
                    center.1,
                )
        },
    }
}

/// What a drop on a slot asks for: to change places with the panel that stands there, or
/// to move where none does.
pub open spec fn dropped(tpl: Template, a: Arrangement, from: Slot, to: Slot) -> CellMenuAction {
    match a.at@[to.0 * a.cols + to.1] {
        Some(k) => CellMenuAction::SwapTo { from, to: slot_of(tpl.cells@[k as int]) },
        None => CellMenuAction::MoveTo { from, to },
    }
}

/// What dropping a panel on a slot asks for: an exchange with the panel that stands
/// there, or a move where none does.
pub fn drop_action(tpl: &Template, a: &Arrangement, from: (usize, usize), to: (usize, usize)) -> (r:
    CellMenuAction)
    requires
        a.at.len() == a.rows * a.cols,
        to.0 < a.rows,
        to.1 < a.cols,
        forall|i: int|
            0 <= i < a.at.len() ==> ((#[trigger] a.at@[i]) is Some ==> a.at@[i]->0 < tpl.cells.len()),
    ensures
        r == dropped(*tpl, *a, from, to),
{
    assert(to.0 * a.cols + to.1 < a.rows * a.cols) by (nonlinear_arith)
        requires
            to.0 < a.rows,
            to.1 < a.cols,
    ;
    assert(0 <= to.0 * a.cols) by (nonlinear_arith);
    let i: usize = to.0 * a.cols + to.1;
    match a.at[i] {
        Some(k) => CellMenuAction::SwapTo { from, to: (tpl.cells[k].row, tpl.cells[k].col) },
        None => CellMenuAction::MoveTo { from, to },
    }
}

/// Is there anything to paint of a panel?
pub open spec fn paintable(c: Cell) -> bool {
    c.visible && (c.sources.len() > 0 || c.primitive == Primitive::Status || c.primitive
        == Primitive::InfoText)
}

/// Is there anything to paint of a panel?
pub fn is_paintable(c: &Cell) -> (r: bool)
    ensures
        r == paintable(*c),
{
    let own = match c.primitive {
        Primitive::Status => true,
        Primitive::InfoText => true,
        _ => false,
    };
    c.visible && (c.sources.len() > 0 || own)
}

/// What the pointer did on a plot.
#[derive(Clone, Copy, Debug, PartialEq, Eq, Structural)]
pub struct PlotInput {
    pub double_clicked: bool,
    pub dragged: bool,
    pub clicked: bool,
    pub scrolled: bool,
}

/// Does a plot hold still after this input? A double click lets it go, any other input
/// holds it, and one that cannot be touched stays as it is.
pub open spec fn locked_after(locked: bool, interactive: bool, input: PlotInput) -> bool {
    if !interactive {
        locked
    } else if input.double_clicked {
        false
    } else {
        locked || input.dragged || input.clicked || input.scrolled
    }
}

/// Is the view of a plot locked after the operator's input? A double click frees it,
/// any other touch locks it, and a plot that takes no input stays as it is.
pub fn next_locked(locked: bool, interactive: bool, input: PlotInput) -> (r: bool)
    ensures
        r == locked_after(locked, interactive, input),
{
    if !interactive {
        locked
    } else if input.double_clicked {
        false
    } else {
        locked || input.dragged || input.clicked || input.scrolled
    }
}

} // verus!
