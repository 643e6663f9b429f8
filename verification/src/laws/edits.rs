//! Editing: which field of a form becomes which part of a panel or a trail, which forms are
//! refused, and where panels go.
use vstd::prelude::*;

use crate::drafts::{draft_of, drafted_trail, trail_fault, TrailDraft};
use crate::editor::{
    color_rows, draft_fault, drafted, exchanged, first_in, grown, moved, packed, rows_for,
    without_slot, PanelDraft,
};
use crate::template::{Cell, Grid, Primitive, StatusKind, Trail3d};
use crate::text::{dec, is_space, trimmed};

verus! {

// ---------------------------------------------------------------- forms

/// A text that neither begins nor ends with a blank, and is not empty.
pub open spec fn tidy(s: Seq<char>) -> bool {
    s.len() > 0 && !is_space(s[0]) && !is_space(s.last())
}

proof fn lemma_tidy(s: Seq<char>)
    requires
        tidy(s),
    ensures
        trimmed(s) == s,
{
}

/// Each field of a form goes to its own part of the panel: the channel, its fallback and
/// the channel to subtract, the connection and the drone, the colour, the slot, the title
/// and the mode of the label. Only a difference subtracts.
pub proof fn fields_go_to_their_own_part(c: Cell, d: PanelDraft)
    requires
        drafted(c, d),
        tidy(d.source_key@),
        tidy(d.fallback@),
        tidy(d.minus@),
        tidy(d.source_uri@),
        tidy(d.source_drone@),
        tidy(d.color@),
    ensures
        c.row == d.row,
        c.col == d.col,
        c.title@ == d.title@,
        c.primitive == d.primitive,
        c.label_mode == d.label_mode,
        c.visible,
        c.sources.len() >= 1,
        c.sources@[0].key@ == d.source_key@,
        c.sources@[0].fallback is Some && c.sources@[0].fallback->0@ == d.fallback@,
        c.sources@[0].source_uri is Some && c.sources@[0].source_uri->0@ == d.source_uri@,
        c.sources@[0].source_drone is Some && c.sources@[0].source_drone->0@ == d.source_drone@,
        c.sources@[0].color@ == d.color@,
        c.color is Some && c.color->0@ == d.color@,
        d.primitive == Primitive::Diff ==> c.sources@[0].minus is Some && c.sources@[0].minus->0@
            == d.minus@,
        d.primitive != Primitive::Diff ==> c.sources@[0].minus is None,
        d.primitive != Primitive::Overlay ==> c.sources.len() == 1,
{
    lemma_tidy(d.source_key@);
    lemma_tidy(d.fallback@);
    lemma_tidy(d.minus@);
    lemma_tidy(d.source_uri@);
    lemma_tidy(d.source_drone@);
    lemma_tidy(d.color@);
}

/// A status panel reads the channel of the form, shows it as the form says, and takes its
/// colours; no other panel has any of these.
pub proof fn only_status_panels_have_a_kind(c: Cell, d: PanelDraft)
    requires
        drafted(c, d),
        tidy(d.source_key@),
        tidy(d.status_default_color@),
    ensures
        d.primitive == Primitive::Status ==> {
            &&& c.source@ == d.source_key@
            &&& c.kind == Some(d.status_kind)
            &&& c.default_color is Some && c.default_color->0@ == d.status_default_color@
        },
        d.primitive != Primitive::Status ==> {
            &&& c.source@.len() == 0
            &&& c.kind is None
            &&& c.default_color is None
            &&& c.color_map@.dom() == Set::<Seq<char>>::empty()
        },
{
    lemma_tidy(d.source_key@);
    lemma_tidy(d.status_default_color@);
    if d.primitive != Primitive::Status {
        assert(crate::editor::text_map(c.color_map).dom() =~= c.color_map@.dom());
    }
}

/// A field that holds nothing but blanks sets nothing.
pub proof fn blank_fields_set_nothing(c: Cell, d: PanelDraft)
    requires
        drafted(c, d),
    ensures
        trimmed(d.fallback@).len() == 0 ==> c.sources@[0].fallback is None,
        trimmed(d.source_uri@).len() == 0 ==> c.sources@[0].source_uri is None,
        trimmed(d.source_drone@).len() == 0 ==> c.sources@[0].source_drone is None,
        trimmed(d.color@).len() == 0 ==> c.color is None,
{
}

/// The further channels of an overlay follow the first in the order of the form, from the
/// same connection and drone, without a fallback of their own.
pub proof fn overlays_take_their_further_channels(c: Cell, d: PanelDraft, i: int)
    requires
        drafted(c, d),
        d.primitive == Primitive::Overlay,
        forall|k: int| 0 <= k < d.overlay_extra_keys.len() ==> tidy((#[trigger] d.overlay_extra_keys@[k])@),
        0 <= i < d.overlay_extra_keys.len(),
    ensures
        c.sources.len() == 1 + d.overlay_extra_keys.len(),
        c.sources@[i + 1].key@ == d.overlay_extra_keys@[i]@,
        c.sources@[i + 1].fallback is None,
        c.sources@[i + 1].minus is None,
        c.sources@[i + 1].color@.len() == 0,
        c.sources@[i + 1].source_uri is Some <==> c.sources@[0].source_uri is Some,
        c.sources@[i + 1].source_uri is Some ==> c.sources@[i + 1].source_uri->0@
            == c.sources@[0].source_uri->0@,
        c.sources@[i + 1].source_drone is Some <==> c.sources@[0].source_drone is Some,
        c.sources@[i + 1].source_drone is Some ==> c.sources@[i + 1].source_drone->0@
            == c.sources@[0].source_drone->0@,
{
    let t = crate::text::texts(d.overlay_extra_keys@);
    assert forall|k: int| 0 <= k < t.len() implies tidy(#[trigger] t[k]) by {
        assert(tidy(d.overlay_extra_keys@[k]@));
    }
    lemma_keys(t);
    assert(t[i] == d.overlay_extra_keys@[i]@);
    let s = c.sources@[i + 1];
    assert(crate::editor::drafted_source(
        c.sources@[i + 1],
        crate::editor::drafted_extras(d)[i],
        d,
        None,
        None,
        Seq::empty(),
    ));
    assert(crate::template::opt_text(s.source_uri) == crate::template::opt_text(
        c.sources@[0].source_uri,
    ));
}

proof fn lemma_keys(v: Seq<Seq<char>>)
    requires
        forall|k: int| 0 <= k < v.len() ==> tidy(#[trigger] v[k]),
    ensures
        crate::editor::stated_keys(v) == v,
    decreases v.len(),
{
    if v.len() > 0 {
        assert(tidy(v[v.len() - 1]));
        lemma_tidy(v.last());
        lemma_keys(v.drop_last());
        assert(v.drop_last().push(v.last()) =~= v);
    } else {
        assert(crate::editor::stated_keys(v) =~= v);
    }
}

/// Each row of a form's colours gives its colour to its text: the last row of a text counts,
/// and rows that miss one of the two do not.
pub proof fn color_rows_give_their_color_to_their_text(
    rows: Seq<(Seq<char>, Seq<char>)>,
    text: Seq<char>,
    color: Seq<char>,
    other: Seq<char>,
)
    requires
        tidy(text),
        tidy(color),
        other != text,
    ensures
        ({
            let m = color_rows(rows);
            let n = color_rows(rows.push((text, color)));
            &&& n.contains_key(text) && n[text] == color
            &&& n.contains_key(other) <==> m.contains_key(other)
            &&& m.contains_key(other) ==> n[other] == m[other]
        }),
        color_rows(rows.push((text, Seq::empty()))) == color_rows(rows),
        color_rows(rows.push((Seq::empty(), color))) == color_rows(rows),
        color_rows(Seq::empty()) == Map::<Seq<char>, Seq<char>>::empty(),
{
    let none = Seq::<char>::empty();
    lemma_tidy(text);
    lemma_tidy(color);
    assert(trimmed(none) == none);
    assert(rows.push((text, color)).drop_last() =~= rows);
    assert(rows.push((text, none)).drop_last() =~= rows);
    assert(rows.push((none, color)).drop_last() =~= rows);
}

/// A form is refused exactly if it names no channel, is a difference without one to
/// subtract, or lies outside a grid of 64 by 64.
pub proof fn forms_are_refused_for_their_faults(d: PanelDraft)
    ensures
        draft_fault(d) is Some <==> trimmed(d.source_key@).len() == 0 || d.primitive
            == Primitive::Diff && trimmed(d.minus@).len() == 0 || d.row >= 64 || d.col >= 64,
        trimmed(d.source_key@).len() == 0 ==> draft_fault(d) == Some(
            "source key must not be empty"@,
        ),
        trimmed(d.source_key@).len() > 0 && d.primitive == Primitive::Diff && trimmed(
            d.minus@,
        ).len() == 0 ==> draft_fault(d) == Some("diff primitive requires a subtrahend key"@),
        trimmed(d.source_key@).len() > 0 && d.primitive != Primitive::Diff && d.row >= 64
            ==> draft_fault(d) == Some(
            "row "@ + dec(d.row as nat) + " exceeds maximum grid dimension (64)"@,
        ),
        trimmed(d.source_key@).len() > 0 && d.primitive != Primitive::Diff && d.row < 64 && d.col
            >= 64 ==> draft_fault(d) == Some(
            "col "@ + dec(d.col as nat) + " exceeds maximum grid dimension (64)"@,
        ),
{
}

/// A form that is opened for a panel shows each part of it in its own field.
pub proof fn forms_show_the_panel(d: PanelDraft, c: Cell)
    requires
        draft_of(d, c),
        c.sources.len() > 0,
        c.primitive != Primitive::Status,
    ensures
        ({
            let s = c.sources@[0];
            &&& d.row == c.row && d.col == c.col
            &&& d.primitive == c.primitive
            &&& d.title@ == c.title@
            &&& d.label_mode == c.label_mode
            &&& d.source_key@ == s.key@
            &&& s.source_uri is Some ==> d.source_uri@ == s.source_uri->0@
            &&& s.source_uri is None ==> d.source_uri@.len() == 0
            &&& s.source_drone is Some ==> d.source_drone@ == s.source_drone->0@
            &&& s.source_drone is None ==> d.source_drone@.len() == 0
            &&& s.fallback is Some ==> d.fallback@ == s.fallback->0@
            &&& s.fallback is None ==> d.fallback@.len() == 0
            &&& s.minus is Some ==> d.minus@ == s.minus->0@
            &&& s.minus is None ==> d.minus@.len() == 0
            &&& s.color@.len() > 0 ==> d.color@ == s.color@
            &&& s.color@.len() == 0 && c.color is Some ==> d.color@ == c.color->0@
            &&& s.color@.len() == 0 && c.color is None ==> d.color@ == "#1f77b4"@
            &&& d.overlay_extra_keys.len() == c.sources.len() - 1
        }),
        forall|i: int|
            0 <= i < d.overlay_extra_keys.len() ==> (#[trigger] d.overlay_extra_keys@[i])@
                == c.sources@[i + 1].key@,
{
    let t = crate::text::texts(d.overlay_extra_keys@);
    let e = crate::drafts::extra_keys_of(c);
    assert(t.len() == e.len());
    assert forall|i: int| 0 <= i < d.overlay_extra_keys.len() implies (
    #[trigger] d.overlay_extra_keys@[i])@ == c.sources@[i + 1].key@ by {
        assert(t[i] == e[i]);
    }
}

/// A form that is opened for a status panel shows its channel, its kind and its colour.
pub proof fn forms_show_the_status(d: PanelDraft, c: Cell)
    requires
        draft_of(d, c),
        c.primitive == Primitive::Status,
        c.source@.len() > 0,
    ensures
        d.source_key@ == c.source@,
        c.kind is Some ==> d.status_kind == c.kind->0,
        c.kind is None ==> d.status_kind == StatusKind::Text,
        c.default_color is Some ==> d.status_default_color@ == c.default_color->0@,
        c.default_color is None ==> d.status_default_color@ == "#aaaaaa"@,
{
}

// ---------------------------------------------------------------- trails

/// Each field of a form for a trail goes to its own part of the trail. A trail is either
/// integrated, from accelerations, attitudes and a seed, or drawn from its three positions.
pub proof fn trail_fields_go_to_their_own_part(t: Trail3d, d: TrailDraft)
    requires
        drafted_trail(t, d),
        tidy(d.name@),
    ensures
        t.name@ == d.name@,
        t.color@ == d.color@,
        d.label@.len() > 0 ==> t.label@ == d.label@,
        d.label@.len() == 0 ==> t.label@ == d.name@,
        d.use_deadreckon ==> t.sources is None && t.deadreckon is Some,
        !d.use_deadreckon ==> t.deadreckon is None && t.sources is Some,
        d.use_deadreckon && tidy(d.accel_key@) ==> t.deadreckon->0.accel@ == d.accel_key@,
        d.use_deadreckon && tidy(d.quat_key@) ==> t.deadreckon->0.quat@ == d.quat_key@,
        d.use_deadreckon && tidy(d.seed_key@) ==> t.deadreckon->0.seed_from@ == d.seed_key@,
        !d.use_deadreckon && tidy(d.x_key@) ==> t.sources->0.x@ == d.x_key@,
        !d.use_deadreckon && tidy(d.y_key@) ==> t.sources->0.y@ == d.y_key@,
        !d.use_deadreckon && tidy(d.z_neg_key@) ==> t.sources->0.z_neg@ == d.z_neg_key@,
{
    lemma_tidy(d.name@);
}

/// A form for a trail is refused exactly if it has no name or misses one of the channels
/// that its kind of trail is made of.
pub proof fn trails_are_refused_for_what_they_miss(d: TrailDraft)
    ensures
        trail_fault(d) is Some <==> trimmed(d.name@).len() == 0 || d.use_deadreckon && (trimmed(
            d.accel_key@,
        ).len() == 0 || trimmed(d.quat_key@).len() == 0 || trimmed(d.seed_key@).len() == 0)
            || !d.use_deadreckon && (trimmed(d.x_key@).len() == 0 || trimmed(d.y_key@).len() == 0
            || trimmed(d.z_neg_key@).len() == 0),
        trimmed(d.name@).len() == 0 ==> trail_fault(d) == Some("trail name must not be empty"@),
        trimmed(d.name@).len() > 0 && trail_fault(d) is Some && d.use_deadreckon ==> trail_fault(d)
            == Some("dead-reckon trail requires accel + quat + seed keys"@),
        trimmed(d.name@).len() > 0 && trail_fault(d) is Some && !d.use_deadreckon ==> trail_fault(d)
            == Some("direct trail requires x + y + z_neg keys"@),
{
}

// ---------------------------------------------------------------- places

/// A grid grows just enough to hold a slot, and never shrinks.
pub proof fn grids_grow_to_hold_a_slot(g: Grid, row: usize, col: usize)
    requires
        row < usize::MAX,
        col < usize::MAX,
    ensures
        grown(g, row, col).rows > row,
        grown(g, row, col).cols > col,
        grown(g, row, col).rows >= g.rows,
        grown(g, row, col).cols >= g.cols,
        grown(g, row, col).rows == g.rows || grown(g, row, col).rows == row + 1,
        grown(g, row, col).cols == g.cols || grown(g, row, col).cols == col + 1,
        row < g.rows && col < g.cols ==> grown(g, row, col) == g,
{
}

/// Two panels that change places take each other's slot and nothing else; all others stay.
pub proof fn swapped_panels_take_each_others_slot(cells: Seq<Cell>, i: int, j: int, k: int)
    requires
        0 <= i < cells.len(),
        0 <= j < cells.len(),
        i != j,
        0 <= k < cells.len(),
        k != i,
        k != j,
    ensures
        exchanged(cells, i, j).len() == cells.len(),
        exchanged(cells, i, j)[i] == (Cell { row: cells[j].row, col: cells[j].col, ..cells[i] }),
        exchanged(cells, i, j)[j] == (Cell { row: cells[i].row, col: cells[i].col, ..cells[j] }),
        exchanged(cells, i, j)[k] == cells[k],
{
}

/// A panel that moves takes the new slot and keeps all else.
pub proof fn moved_panels_keep_all_but_their_slot(c: Cell, row: usize, col: usize)
    ensures
        moved(c, (row, col)).row == row,
        moved(c, (row, col)).col == col,
        moved(c, (row, col)) == (Cell { row, col, ..c }),
{
}

/// The first panel of a slot is the one that an edit speaks of.
pub proof fn edits_speak_of_the_first_panel(cells: Seq<Cell>, row: usize, col: usize, i: int, k: int)
    requires
        first_in(cells, (row, col), i),
        0 <= k < cells.len(),
        cells[k].row == row,
        cells[k].col == col,
    ensures
        cells[i].row == row,
        cells[i].col == col,
        i <= k,
{
}

/// Removing from a slot leaves the panels of all other slots, and none of that one.
pub proof fn removal_takes_one_slot(cells: Seq<Cell>, row: usize, col: usize, c: Cell)
    ensures
        without_slot(cells, (row, col)).contains(c) <==> cells.contains(c) && (c.row != row || c.col
            != col),
    decreases cells.len(),
{
    reveal(Seq::filter);
    if cells.len() > 0 {
        let t = cells.drop_last();
        removal_takes_one_slot(t, row, col, c);
        let head = without_slot(t, (row, col));
        let all = without_slot(cells, (row, col));
        if all.contains(c) {
            let i = choose|i: int| 0 <= i < all.len() && all[i] == c;
            if i < head.len() {
                assert(head[i] == c);
                assert(head.contains(c));
                let k = choose|k: int| 0 <= k < t.len() && t[k] == c;
                assert(cells[k] == c);
            } else {
                assert(cells[cells.len() - 1] == c);
            }
        }
        if cells.contains(c) && (c.row != row || c.col != col) {
            let k = choose|k: int| 0 <= k < cells.len() && cells[k] == c;
            if k < t.len() {
                assert(t[k] == c);
                assert(head.contains(c));
                let i = choose|i: int| 0 <= i < head.len() && head[i] == c;
                assert(all[i] == c);
            } else {
                assert(all[all.len() - 1] == c);
            }
        }
    }
}

/// Packed panels fill the rows one after another from the left: the next panel stands one
/// column further, or at the left of the next row where the row is full.
pub proof fn packed_panels_fill_the_rows(cells: Seq<Cell>, cols: int, i: int)
    requires
        1 <= cols <= usize::MAX,
        0 <= i < cells.len() <= usize::MAX,
    ensures
        packed(cells, cols).len() == cells.len(),
        packed(cells, cols)[0].row == 0,
        packed(cells, cols)[0].col == 0,
        packed(cells, cols)[i].col < cols,
        packed(cells, cols)[i].title == cells[i].title,
        packed(cells, cols)[i].sources == cells[i].sources,
        i + 1 < cells.len() ==> {
            let a = packed(cells, cols)[i];
            let b = packed(cells, cols)[i + 1];
            &&& a.col + 1 < cols ==> b.row == a.row && b.col == a.col + 1
            &&& a.col + 1 == cols ==> b.row == a.row + 1 && b.col == 0
        },
{
    assert(0int / cols == 0 && 0int % cols == 0) by (nonlinear_arith)
        requires
            cols >= 1,
    ;
    let q = i / cols;
    let r = i % cols;
    assert(i == q * cols + r && 0 <= r < cols && 0 <= q <= i) by (nonlinear_arith)
        requires
            q == i / cols,
            r == i % cols,
            cols >= 1,
            i >= 0,
    ;
    if i + 1 < cells.len() {
        if r + 1 < cols {
            vstd::arithmetic::div_mod::lemma_fundamental_div_mod_converse(i + 1, cols, q, r + 1);
        } else {
            assert(i + 1 == (q + 1) * cols + 0) by (nonlinear_arith)
                requires
                    i == q * cols + r,
                    r + 1 == cols,
            ;
            vstd::arithmetic::div_mod::lemma_fundamental_div_mod_converse(i + 1, cols, q + 1, 0);
            assert(q + 1 <= i + 1);
        }
    }
}

/// There are just enough rows for the panels, and one where there are none.
pub proof fn packed_rows_hold_the_panels(n: int, cols: int)
    requires
        n >= 0,
        cols >= 1,
    ensures
        rows_for(n, cols) >= 1,
        rows_for(n, cols) * cols >= n,
        n >= 1 ==> (rows_for(n, cols) - 1) * cols < n,
        n == 0 ==> rows_for(n, cols) == 1,
{
    if n >= 1 {
        let q = (n - 1) / cols;
        assert((q + 1) * cols >= n && q * cols < n && q >= 0) by (nonlinear_arith)
            requires
                q == (n - 1) / cols,
                n >= 1,
                cols >= 1,
        ;
    }
}

} // verus!
