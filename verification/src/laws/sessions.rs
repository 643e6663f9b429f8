//! A session: what an action does to the panels and what it leaves alone, what is kept for
//! undoing, and what is saved.
use vstd::prelude::*;

use crate::editor::{
    cell_slot, draft_fault, drafted, exchanged, first_in, lemma_reading_order, packed,
    taken_sentence, PanelDraft,
};
use crate::form::rechosen;
use crate::frame::{panel_has_data, shown_upto};
use crate::keymap::{KeyMap, SlotMap};
use crate::keys::{known_from, status_kind_for, ValueShape};
use crate::label::LabelOverride;
use crate::layout::{Arrangement, CellMenuAction};
use crate::library::{opened_name, path_of, TemplateOrigin};
use crate::menu::{key_asks, menu_of, EditKey, KeyPress, MenuItem};
use crate::num::Num;
use crate::order::{by_slot, by_slot_sorts, in_slot_order, slot_le};
use crate::plot::{source_points, store_of, with_points};
use crate::session::{
    after_action, after_add, after_edit, after_form, after_redo, after_trail, after_undo, captured,
    edited_sentence, first_mode, label_map, moved_sentence, panes_of, recorded, slot_keys_differ,
    swapped_sentence, switched, visibility_map, EditorMode, FormOutcome, Panes, Session, ViewMode,
};
use crate::status::has_status;
use crate::store::StoresView;
use crate::template::{
    opt_text, same_cell, same_template, slot_of, Cell, LabelMode, Primitive, Template, UiState,
};
use crate::text::dec;

verus! {

// ---------------------------------------------------------------- switches

/// Hiding a panel turns its own switch, once off and once on again, and no other; the
/// panels stay as they are.
pub proof fn hiding_turns_one_switch(
    s: Session,
    next: Session,
    again: Session,
    row: usize,
    col: usize,
    other: (usize, usize),
)
    requires
        after_action(s, next, CellMenuAction::HideToggle { row, col }),
        after_action(next, again, CellMenuAction::HideToggle { row, col }),
        other != (row, col),
    ensures
        next.visibility@.contains_key((row, col)),
        !s.visibility@.contains_key((row, col)) ==> !next.visibility@[(row, col)],
        s.visibility@.contains_key((row, col)) ==> next.visibility@[(row, col)]
            == !s.visibility@[(row, col)],
        again.visibility@[(row, col)] == !next.visibility@[(row, col)],
        next.visibility@.contains_key(other) <==> s.visibility@.contains_key(other),
        s.visibility@.contains_key(other) ==> next.visibility@[other] == s.visibility@[other],
        next.template == s.template,
        next.labels == s.labels,
        next.locked == s.locked,
        next.dirty,
{
}

/// A label mode is set for the panels of its slot and for no other.
pub proof fn label_modes_are_set_for_one_slot(
    s: Session,
    next: Session,
    row: usize,
    col: usize,
    mode: LabelMode,
    i: int,
)
    requires
        after_action(s, next, CellMenuAction::SetLabelMode { row, col, mode }),
        s.template is Some,
        0 <= i < s.template->0.cells.len(),
    ensures
        next.template is Some,
        next.template->0.cells.len() == s.template->0.cells.len(),
        ({
            let c = s.template->0.cells@[i];
            let d = next.template->0.cells@[i];
            &&& c.row == row && c.col == col ==> d == (Cell { label_mode: mode, ..c })
            &&& c.row != row || c.col != col ==> d == c
        }),
        next.labels@.contains_key((row, col)) && next.labels@[(row, col)] == mode,
        next.visibility == s.visibility,
        next.dirty,
{
    assert(crate::session::relabeled(s.template->0, next.template->0, (row, col), mode));
    let d = next.template->0.cells@[i];
}

/// Resetting the zoom lets the plot of its slot go and no other, and changes no panel.
pub proof fn zooms_are_reset_for_one_slot(
    s: Session,
    next: Session,
    row: usize,
    col: usize,
    other: (usize, usize),
)
    requires
        after_action(s, next, CellMenuAction::ResetZoom { row, col }),
        other != (row, col),
    ensures
        next.locked@.contains_key((row, col)) ==> !next.locked@[(row, col)],
        next.locked@.contains_key(other) <==> s.locked@.contains_key(other),
        s.locked@.contains_key(other) ==> next.locked@[other] == s.locked@[other],
        next.template == s.template,
        next.dirty == s.dirty,
        next.history == s.history,
{
}

/// Editing opens a form for the slot and changes nothing else yet.
pub proof fn editing_opens_a_form_for_the_slot(s: Session, next: Session, row: usize, col: usize)
    requires
        after_action(s, next, CellMenuAction::Edit { row, col }),
    ensures
        next.editor is Some,
        next.editor->0 is EditPanel,
        next.editor->0->row == row,
        next.editor->0->col == col,
        next.editor->0->draft.row == row,
        next.editor->0->draft.col == col,
        next.template == s.template,
        next.history == s.history,
        next.dirty == s.dirty,
{
}

/// The form shows the first panel of the slot, and is blank where there is none.
pub proof fn editing_shows_the_first_panel_of_the_slot(
    s: Session,
    next: Session,
    row: usize,
    col: usize,
    t: Template,
    k: int,
)
    requires
        after_action(s, next, CellMenuAction::Edit { row, col }),
        s.template == Some(t),
        0 <= k < t.cells.len(),
        forall|m: int|
            0 <= m < k ==> (#[trigger] t.cells@[m]).row != row || t.cells@[m].col != col,
    ensures
        ({
            let d = next.editor->0->draft;
            let c = t.cells@[k];
            &&& c.row == row && c.col == col ==> {
                &&& d.title@ == c.title@
                &&& d.primitive == c.primitive
                &&& d.label_mode == c.label_mode
                &&& c.sources.len() > 0 && c.primitive != Primitive::Status ==> d.source_key@
                    == c.sources@[0].key@
            }
            &&& k == t.cells.len() - 1 && (c.row != row || c.col != col) ==> {
                &&& d.title@.len() == 0
                &&& d.source_key@.len() == 0
                &&& d.primitive == Primitive::Scalar
            }
        }),
{
    let at = (row, col);
    let c = t.cells@[k];
    if slot_of(c) == at {
        assert(t.occupied(at));
        let d = next.editor->0->draft;
        let i = choose|i: int| #[trigger]
            first_in(t.cells@, at, i) && crate::drafts::draft_of(d, t.cells@[i]);
        assert(i == k);
    }
}

// ---------------------------------------------------------------- words

/// What was done is told with the slots that it was done to, the first one first.
pub proof fn slots_are_told_in_order(a: usize, b: usize, c: usize, d: usize)
    ensures
        swapped_sentence((a, b), (c, d)) == "Swapped ("@ + dec(a as nat) + ", "@ + dec(b as nat)
            + ") ↔ ("@ + dec(c as nat) + ", "@ + dec(d as nat) + ")"@,
        moved_sentence((a, b), (c, d)) == "Moved ("@ + dec(a as nat) + ", "@ + dec(b as nat)
            + ") → ("@ + dec(c as nat) + ", "@ + dec(d as nat) + ")"@,
        taken_sentence(a, b) == "Panel already exists at ("@ + dec(a as nat) + ","@ + dec(b as nat)
            + "); pick a different slot or delete the existing one first"@,
{
    assert(swapped_sentence((a, b), (c, d)) =~= "Swapped ("@ + dec(a as nat) + ", "@ + dec(b as nat)
        + ") ↔ ("@ + dec(c as nat) + ", "@ + dec(d as nat) + ")"@);
    assert(moved_sentence((a, b), (c, d)) =~= "Moved ("@ + dec(a as nat) + ", "@ + dec(b as nat)
        + ") → ("@ + dec(c as nat) + ", "@ + dec(d as nat) + ")"@);
}

// ---------------------------------------------------------------- deletion and drops

/// Deleting from a slot that holds nothing changes no panel, and a swap or a move that
/// cannot be done changes nothing but the history.
pub proof fn vain_actions_change_no_panel(
    s: Session,
    next: Session,
    action: CellMenuAction,
    t: Template,
)
    requires
        after_action(s, next, action),
        s.template == Some(t),
        match action {
            CellMenuAction::Delete { row, col } => forall|i: int|
                0 <= i < t.cells.len() ==> (#[trigger] t.cells@[i]).row != row || t.cells@[i].col
                    != col,
            CellMenuAction::SwapTo { from, to } => from != to && forall|i: int|
                0 <= i < t.cells.len() ==> (#[trigger] t.cells@[i]).row != to.0 || t.cells@[i].col
                    != to.1,
            CellMenuAction::MoveTo { from, to } => from != to && exists|i: int|
                0 <= i < t.cells.len() && (#[trigger] t.cells@[i]).row == to.0 && t.cells@[i].col
                    == to.1,
            _ => false,
        },
    ensures
        next.template is Some,
        next.template->0.cells@ == t.cells@,
        next.template->0.grid == t.grid,
        !(action is Delete) ==> next.dirty == s.dirty && next.last_action == s.last_action,
{
}

/// Deleting a panel leaves one place less for each panel that stood in its slot: the number
/// of panels goes down, and those of other slots all stay.
pub proof fn deleting_leaves_the_others(s: Session, next: Session, row: usize, col: usize, t: Template)
    requires
        after_action(s, next, CellMenuAction::Delete { row, col }),
        s.template == Some(t),
        t.occupied((row, col)),
        t.grid.cols > 0,
    ensures
        next.template is Some,
        next.template->0.cells.len() == crate::editor::without_slot(t.cells@, (row, col)).len(),
        next.template->0.grid.cols == t.grid.cols,
        next.dirty,
        next.template->0.name == t.name,
        next.template->0.sections == t.sections,
        next.template->0.view_3d == t.view_3d,
{
    let left = crate::editor::without_slot(t.cells@, (row, col));
    crate::order::by_slot_sorts(left, crate::editor::cell_slot());
}

// ---------------------------------------------------------------- places

proof fn lemma_sorted_once(a: Seq<Cell>, b: Seq<Cell>)
    requires
        in_slot_order(a, cell_slot()),
        in_slot_order(b, cell_slot()),
        a.to_multiset() == b.to_multiset(),
        forall|i: int, j: int|
            0 <= i < j < a.len() ==> slot_of(#[trigger] a[i]) != slot_of(#[trigger] a[j]),
    ensures
        a == b,
    decreases a.len(),
{
    broadcast use vstd::seq_lib::group_to_multiset_ensures;

    let key = cell_slot();
    vstd::seq_lib::to_multiset_len(a);
    vstd::seq_lib::to_multiset_len(b);
    assert(a.len() == b.len());
    if a.len() > 0 {
        let n = a.len() - 1;
        let x = a[n];
        let y = b[n];
        assert(a.contains(x));
        assert(b.to_multiset().count(x) > 0);
        assert(b.contains(x));
        assert(b.contains(y));
        assert(a.to_multiset().count(y) > 0);
        assert(a.contains(y));
        let p = choose|p: int| 0 <= p < b.len() && b[p] == x;
        let q = choose|q: int| 0 <= q < a.len() && a[q] == y;
        assert(y == x) by {
            if p < n && q < n {
                assert(slot_le(key(b[p]), key(b[n])));
                assert(slot_le(key(a[q]), key(a[n])));
                assert(slot_of(x) == slot_of(y));
                assert(slot_of(a[q]) == slot_of(a[n]));
            }
        }
        assert(a.remove(n) =~= a.drop_last());
        assert(b.remove(n) =~= b.drop_last());
        let (c, d) = (a.drop_last(), b.drop_last());
        assert(c.to_multiset() == d.to_multiset());
        assert forall|i: int, j: int| 0 <= i < j < c.len() implies slot_le(
            key(#[trigger] c[i]),
            key(#[trigger] c[j]),
        ) by {
            assert(slot_le(key(a[i]), key(a[j])));
        }
        assert forall|i: int, j: int| 0 <= i < j < d.len() implies slot_le(
            key(#[trigger] d[i]),
            key(#[trigger] d[j]),
        ) by {
            assert(slot_le(key(b[i]), key(b[j])));
        }
        assert forall|i: int, j: int| 0 <= i < j < c.len() implies slot_of(#[trigger] c[i])
            != slot_of(#[trigger] c[j]) by {
            assert(slot_of(a[i]) != slot_of(a[j]));
        }
        lemma_sorted_once(c, d);
        assert(a =~= c.push(x));
        assert(b =~= d.push(y));
    } else {
        assert(a =~= b);
    }
}

/// On a grid without gaps two panels that change places do just that: each stands where the
/// other stood, and all others stand where they did.
pub proof fn swapped_panels_change_places(
    s: Session,
    next: Session,
    t: Template,
    i: int,
    j: int,
    k: int,
)
    requires
        s.template == Some(t),
        t.grid.cols > 0,
        t.cells.len() <= usize::MAX,
        forall|m: int|
            0 <= m < t.cells.len() ==> (#[trigger] t.cells@[m]).row == m / t.grid.cols as int
                && t.cells@[m].col == m % t.grid.cols as int,
        0 <= i < t.cells.len(),
        0 <= j < t.cells.len(),
        0 <= k < t.cells.len(),
        i != j,
        k != i,
        k != j,
        after_action(
            s,
            next,
            CellMenuAction::SwapTo {
                from: (t.cells@[i].row, t.cells@[i].col),
                to: (t.cells@[j].row, t.cells@[j].col),
            },
        ),
    ensures
        ({
            let a = t.cells@;
            let b = next.template->0.cells@;
            &&& next.template is Some
            &&& b.len() == a.len()
            &&& b[i] == (Cell { row: a[i].row, col: a[i].col, ..a[j] })
            &&& b[j] == (Cell { row: a[j].row, col: a[j].col, ..a[i] })
            &&& b[k] == a[k]
            &&& next.template->0.grid.cols == t.grid.cols
            &&& next.dirty
        }),
{
    broadcast use vstd::seq_lib::group_to_multiset_ensures;

    let a = t.cells@;
    let cols = t.grid.cols as int;
    let from = (a[i].row, a[i].col);
    let to = (a[j].row, a[j].col);
    assert forall|m: int, n: int| 0 <= m < n < a.len() implies slot_of(#[trigger] a[m]) != slot_of(
        #[trigger] a[n],
    ) && slot_le(slot_of(a[m]), slot_of(a[n])) by {
        lemma_reading_order(m, n, cols);
    }
    assert(from != to);
    assert(slot_of(a[i]) == from && slot_of(a[j]) == to);
    assert(t.occupied(from) && t.occupied(to));
    let (p, q) = choose|p: int, q: int|
        #![trigger exchanged(a, p, q)]
        first_in(a, from, p) && first_in(a, to, q) && crate::session::tidied(
            t,
            next.template->0,
            exchanged(a, p, q),
            t.grid,
        );
    assert(p == i) by {
        if p < i {
            assert(slot_of(a[p]) != slot_of(a[i]));
        } else if i < p {
            assert(slot_of(a[i]) != slot_of(a[p]));
        }
    }
    assert(q == j) by {
        if q < j {
            assert(slot_of(a[q]) != slot_of(a[j]));
        } else if j < q {
            assert(slot_of(a[j]) != slot_of(a[q]));
        }
    }
    let e = exchanged(a, i, j);
    let f = e.update(i, e[j]).update(j, e[i]);
    vstd::seq_lib::to_multiset_update(e, i, e[j]);
    vstd::seq_lib::to_multiset_update(e.update(i, e[j]), j, e[i]);
    assert(e.to_multiset().count(e[i]) > 0) by {
        assert(e.contains(e[i]));
    }
    assert(e.to_multiset().count(e[j]) > 0) by {
        assert(e.contains(e[j]));
    }
    assert(f.to_multiset() =~= e.to_multiset());
    assert forall|m: int| 0 <= m < f.len() implies slot_of(#[trigger] f[m]) == slot_of(a[m]) by {
    }
    assert(in_slot_order(f, cell_slot())) by {
        assert forall|m: int, n: int| 0 <= m < n < f.len() implies slot_le(
            cell_slot()(#[trigger] f[m]),
            cell_slot()(#[trigger] f[n]),
        ) by {
            assert(slot_le(slot_of(a[m]), slot_of(a[n])));
        }
    }
    assert forall|m: int, n: int| 0 <= m < n < f.len() implies slot_of(#[trigger] f[m]) != slot_of(
        #[trigger] f[n],
    ) by {
        assert(slot_of(a[m]) != slot_of(a[n]));
    }
    by_slot_sorts(e, cell_slot());
    lemma_sorted_once(f, by_slot(e, cell_slot()));
    let b = next.template->0.cells@;
    assert(b == packed(f, cols));
    assert(b[i] == (Cell { row: (i / cols) as usize, col: (i % cols) as usize, ..f[i] }));
    assert(b[j] == (Cell { row: (j / cols) as usize, col: (j % cols) as usize, ..f[j] }));
    assert(b[k] == (Cell { row: (k / cols) as usize, col: (k % cols) as usize, ..f[k] }));
    assert(a[i].row == i / cols && a[j].row == j / cols && a[k].row == k / cols);
}

/// A panel that moves to a free slot takes the grid along so far that the slot is in it, and
/// no panel is lost.
pub proof fn moved_panels_take_the_grid_along(
    s: Session,
    next: Session,
    t: Template,
    from: (usize, usize),
    to: (usize, usize),
)
    requires
        s.template == Some(t),
        from != to,
        t.occupied(from),
        !t.occupied(to),
        to.0 < usize::MAX,
        to.1 < usize::MAX,
        after_action(s, next, CellMenuAction::MoveTo { from, to }),
    ensures
        next.template is Some,
        next.template->0.cells.len() == t.cells.len(),
        next.template->0.grid.cols > to.1,
        next.template->0.grid.cols == t.grid.cols || next.template->0.grid.cols == to.1 + 1,
        next.template->0.grid.cols >= t.grid.cols,
        next.dirty,
{
    let i = choose|i: int|
        #![trigger first_in(t.cells@, from, i)]
        first_in(t.cells@, from, i) && crate::session::tidied(
            t,
            next.template->0,
            t.cells@.update(i, crate::editor::moved(t.cells@[i], to)),
            crate::editor::grown(t.grid, to.0, to.1),
        );
    by_slot_sorts(
        t.cells@.update(i, crate::editor::moved(t.cells@[i], to)),
        cell_slot(),
    );
}

// ---------------------------------------------------------------- forms

/// A form that is accepted puts its panel behind the others, closes itself and says where; a
/// form that is refused stays open and changes no panel.
pub proof fn added_panels_come_last(s: Session, next: Session, d: PanelDraft, t: Template)
    requires
        after_add(s, next, d),
        s.template == Some(t),
    ensures
        ({
            let free = forall|i: int|
                0 <= i < t.cells.len() ==> (#[trigger] t.cells@[i]).row != d.row || t.cells@[i].col
                    != d.col;
            let good = free && draft_fault(d) is None;
            let n = next.template->0.cells@;
            &&& good ==> {
                &&& n.len() == t.cells.len() + 1
                &&& drafted(n[t.cells.len() as int], d)
                &&& forall|i: int| 0 <= i < t.cells.len() ==> #[trigger] n[i] == t.cells@[i]
                &&& next.editor is None
                &&& next.dirty
                &&& opt_text(next.last_action) == Some(
                    "Added cell at ("@ + dec(d.row as nat) + ", "@ + dec(d.col as nat) + ")"@,
                )
            }
            &&& !good ==> {
                &&& next.template == s.template
                &&& next.history == s.history
                &&& next.dirty == s.dirty
                &&& next.editor == Some(EditorMode::AddPanel(d))
            }
        }),
{
    let n = next.template->0.cells@;
    if !t.occupied((d.row, d.col)) && draft_fault(d) is None {
        assert forall|i: int| 0 <= i < t.cells.len() implies #[trigger] n[i] == t.cells@[i] by {
            assert(t.cells@.push(n.last())[i] == t.cells@[i]);
        }
    }
}

/// A form for a panel replaces what stood in its slot and leaves all other panels; one whose
/// new slot is taken changes none and stays open.
pub proof fn edited_panels_replace_those_of_their_slot(
    s: Session,
    next: Session,
    row: usize,
    col: usize,
    d: PanelDraft,
    t: Template,
    c: Cell,
)
    requires
        after_edit(s, next, row, col, d),
        s.template == Some(t),
        draft_fault(d) is None,
        t.cells@.contains(c),
        c.row != row || c.col != col,
    ensures
        ({
            let taken = (d.row != row || d.col != col) && exists|i: int|
                0 <= i < t.cells.len() && (#[trigger] t.cells@[i]).row == d.row && t.cells@[i].col
                    == d.col;
            let n = next.template->0.cells@;
            &&& next.template is Some
            &&& n.contains(c)
            &&& !taken ==> drafted(n.last(), d) && next.editor is None && next.dirty
            &&& taken ==> n == t.cells@ && next.editor is Some
        }),
{
    let kept = crate::editor::without_slot(t.cells@, (row, col));
    crate::laws::edits::removal_takes_one_slot(t.cells@, row, col, c);
    let i = choose|i: int| 0 <= i < kept.len() && kept[i] == c;
    let n = next.template->0.cells@;
    let taken = (d.row != row || d.col != col) && t.occupied((d.row, d.col));
    if !taken {
        assert(kept.push(n.last())[i] == c);
        assert(n[i] == c);
    }
}

/// What an edit did is told by the slots of the panel before and after it.
pub proof fn edits_are_told_by_their_slots(row: usize, col: usize, d: PanelDraft)
    ensures
        d.row == row && d.col == col ==> edited_sentence(row, col, d) == "Updated cell at ("@ + dec(
            row as nat,
        ) + ", "@ + dec(col as nat) + ")"@,
        d.row != row || d.col != col ==> edited_sentence(row, col, d) == "Moved cell ("@ + dec(
            row as nat,
        ) + ", "@ + dec(col as nat) + ") → ("@ + dec(d.row as nat) + ", "@ + dec(d.col as nat)
            + ")"@,
{
    if d.row != row || d.col != col {
        assert(edited_sentence(row, col, d) =~= "Moved cell ("@ + dec(row as nat) + ", "@ + dec(
            col as nat,
        ) + ") → ("@ + dec(d.row as nat) + ", "@ + dec(d.col as nat) + ")"@);
    }
}

/// Closing a form without accepting it changes nothing but that it is closed, and an open
/// form changes nothing.
pub proof fn cancelled_forms_change_nothing(s: Session, next: Session)
    ensures
        after_form(s, next, FormOutcome::Open) ==> next == s,
        after_form(s, next, FormOutcome::Cancel) ==> next.editor is None && next.template
            == s.template && next.history == s.history && next.dirty == s.dirty
            && next.last_action == s.last_action,
{
}

/// A new trail comes behind the others, and no panel changes for it.
pub proof fn added_trails_come_last(
    s: Session,
    next: Session,
    d: crate::drafts::TrailDraft,
    t: Template,
)
    requires
        after_trail(s, next, d),
        s.template == Some(t),
    ensures
        next.template is Some,
        next.template->0.cells == t.cells,
        next.template->0.grid == t.grid,
        crate::drafts::trail_fault(d) is None ==> {
            let n = next.template->0.view_3d->0.trails@;
            &&& next.template->0.view_3d is Some
            &&& crate::drafts::drafted_trail(n.last(), d)
            &&& t.view_3d is Some ==> n.drop_last() == t.view_3d->0.trails@
            &&& t.view_3d is None ==> n.len() == 1
            &&& t.view_3d is Some ==> next.template->0.view_3d->0.title == t.view_3d->0.title
            &&& t.view_3d is Some ==> next.template->0.view_3d->0.trail_slider_initial
                == t.view_3d->0.trail_slider_initial
            &&& t.view_3d is None ==> next.template->0.view_3d->0.title@.len() == 0
            &&& t.view_3d is None ==> next.template->0.view_3d->0.trail_slider_initial.bits
                == 0x3FD0_0000_0000_0000
            &&& next.editor is None
            &&& next.dirty
        },
        crate::drafts::trail_fault(d) is Some ==> next.template == s.template && next.editor == Some(
            EditorMode::AddTrail(d),
        ),
{
    if crate::drafts::trail_fault(d) is None {
        let n = next.template->0.view_3d->0.trails@;
        if t.view_3d is Some {
            assert(n.drop_last() =~= t.view_3d->0.trails@);
        }
    }
}

// ---------------------------------------------------------------- undoing

/// What is kept for undoing is the template as it stands, as the newest; what was undone
/// before can then no longer be redone. No more is kept than there is room for, the oldest
/// goes first.
pub proof fn the_newest_state_is_kept(s: Session, next: Session, t: Template)
    requires
        recorded(s.history, next.history, Some(t)),
    ensures
        next.history.past.len() > 0,
        same_template(next.history.past@[next.history.past.len() - 1], t),
        next.history.future.len() == 0,
        s.history.past.len() < s.history.capacity ==> next.history.past.len() == s.history.past.len()
            + 1,
        s.history.past.len() < s.history.capacity ==> forall|i: int|
            0 <= i < s.history.past.len() ==> #[trigger] next.history.past@[i] == s.history.past@[i],
        s.history.past.len() == s.history.capacity && s.history.capacity > 0 ==> forall|i: int|
            0 <= i < s.history.past.len() - 1 ==> #[trigger] next.history.past@[i]
                == s.history.past@[i + 1],
{
    let grown = s.history.past@.push(next.history.past@.last());
    if s.history.past.len() < s.history.capacity {
        assert(next.history.past@ == grown);
    }
}

/// Undoing brings back the newest state that was kept and keeps the present one for redoing;
/// it changes no switch.
pub proof fn undoing_brings_back_the_newest_state(s: Session, next: Session)
    requires
        after_undo(s, next),
        s.template is Some,
        s.history.past.len() > 0,
    ensures
        next.template == Some(s.history.past@[s.history.past.len() - 1]),
        next.history.past.len() == s.history.past.len() - 1,
        next.history.future.len() == s.history.future.len() + 1,
        next.history.future@[s.history.future.len() as int] == s.template->0,
        next.dirty,
        opt_text(next.last_action) == Some("Undo"@),
        next.visibility == s.visibility,
        next.labels == s.labels,
{
}

/// Redoing brings back what was undone last.
pub proof fn redoing_brings_back_what_was_undone_last(s: Session, next: Session)
    requires
        after_redo(s, next),
        s.template is Some,
        s.history.future.len() > 0,
    ensures
        next.template == Some(s.history.future@[s.history.future.len() - 1]),
        next.history.future.len() == s.history.future.len() - 1,
        next.history.past.len() == s.history.past.len() + 1,
        next.history.past@[s.history.past.len() as int] == s.template->0,
        next.dirty,
        opt_text(next.last_action) == Some("Redo"@),
{
}

// ---------------------------------------------------------------- saving

/// What is saved holds each panel's own visibility and label mode under its row and column,
/// and the two sliders of a template with a view of space each under its own name.
pub proof fn saved_switches_stand_under_their_slot(
    ui: UiState,
    t: Template,
    ov: LabelOverride,
    trails: KeyMap<bool>,
    trail_frac: Num,
    view_frac: Num,
    i: int,
)
    requires
        captured(ui, t, ov, trails, trail_frac, view_frac),
        0 <= i < t.cells.len(),
        forall|a: int, b: int|
            0 <= a < b < t.cells.len() ==> (#[trigger] t.cells@[a]).row != (#[trigger] t.cells@[b]).row
                || t.cells@[a].col != t.cells@[b].col,
    ensures
        ({
            let c = t.cells@[i];
            let k = dec(c.row as nat) + ","@ + dec(c.col as nat);
            &&& ui.cell_visibility@.contains_key(k)
            &&& ui.cell_visibility@[k] == c.visible
            &&& ui.cell_label_mode@.contains_key(k)
            &&& ov == LabelOverride::Respect ==> ui.cell_label_mode@[k] == c.label_mode
            &&& ov matches LabelOverride::Force(m) ==> ui.cell_label_mode@[k] == m
        }),
        t.view_3d is Some ==> ui.trail_frac == Some(trail_frac) && ui.view_frac == Some(view_frac)
            && ui.trail_visibility@ == trails@,
        t.view_3d is None ==> ui.trail_frac is None && ui.view_frac is None,
{
    lemma_saved(t.cells@, t.cells.len() as int, ov, i);
}

proof fn lemma_saved(cells: Seq<Cell>, n: int, ov: LabelOverride, i: int)
    requires
        0 <= i < n <= cells.len(),
        forall|a: int, b: int|
            0 <= a < b < cells.len() ==> (#[trigger] cells[a]).row != (#[trigger] cells[b]).row
                || cells[a].col != cells[b].col,
    ensures
        ({
            let c = cells[i];
            let k = dec(c.row as nat) + ","@ + dec(c.col as nat);
            &&& visibility_map(cells, n).contains_key(k)
            &&& visibility_map(cells, n)[k] == c.visible
            &&& label_map(cells, n, ov).contains_key(k)
            &&& label_map(cells, n, ov)[k] == ov.effective(c.label_mode)
        }),
    decreases n,
{
    if i < n - 1 {
        lemma_saved(cells, n - 1, ov, i);
        let a = (cells[i].row, cells[i].col);
        let b = (cells[n - 1].row, cells[n - 1].col);
        assert(a != b);
        if crate::template::slot_key(a) == crate::template::slot_key(b) {
            slot_keys_differ(a, b);
        }
    }
}

/// What is loaded takes the switches that were saved for its slot, and keeps its own where
/// none were.
pub proof fn loaded_panels_take_their_switches(t: Template, next: Template, i: int)
    requires
        switched(t, next),
        0 <= i < t.cells.len(),
    ensures
        t.ui_state is None ==> next.cells@[i] == t.cells@[i],
        t.ui_state is Some ==> {
            let c = t.cells@[i];
            let ui = t.ui_state->0;
            let k = dec(c.row as nat) + ","@ + dec(c.col as nat);
            let n = next.cells@[i];
            &&& ui.cell_visibility@.contains_key(k) ==> n.visible == ui.cell_visibility@[k]
            &&& !ui.cell_visibility@.contains_key(k) ==> n.visible == c.visible
            &&& ui.cell_label_mode@.contains_key(k) ==> n.label_mode == ui.cell_label_mode@[k]
            &&& !ui.cell_label_mode@.contains_key(k) ==> n.label_mode == c.label_mode
            &&& n.row == c.row && n.col == c.col && n.title == c.title && n.sources == c.sources
        },
{
    let n = next.cells@[i];
}

/// Two panels that are alike are so in every part.
pub proof fn copies_are_alike_in_every_part(a: Cell, b: Cell, i: int)
    requires
        same_cell(a, b),
        0 <= i < a.sources.len(),
    ensures
        a.row == b.row && a.col == b.col,
        a.title@ == b.title@,
        a.primitive == b.primitive,
        a.visible == b.visible,
        a.label_mode == b.label_mode,
        a.source@ == b.source@,
        a.kind == b.kind,
        a.zero_reference_line == b.zero_reference_line,
        a.color is Some <==> b.color is Some,
        a.color is Some ==> a.color->0@ == b.color->0@,
        a.default_color is Some <==> b.default_color is Some,
        a.default_color is Some ==> a.default_color->0@ == b.default_color->0@,
        a.text is Some <==> b.text is Some,
        a.text is Some ==> a.text->0@ == b.text->0@,
        a.icon is Some <==> b.icon is Some,
        a.icon is Some ==> a.icon->0@ == b.icon->0@,
        a.sources.len() == b.sources.len(),
        ({
            let x = a.sources@[i];
            let y = b.sources@[i];
            &&& x.key@ == y.key@
            &&& x.color@ == y.color@
            &&& x.label@ == y.label@
            &&& x.scale == y.scale
            &&& x.fallback is Some <==> y.fallback is Some
            &&& x.fallback is Some ==> x.fallback->0@ == y.fallback->0@
            &&& x.minus is Some <==> y.minus is Some
            &&& x.minus is Some ==> x.minus->0@ == y.minus->0@
            &&& x.source_uri is Some <==> y.source_uri is Some
            &&& x.source_uri is Some ==> x.source_uri->0@ == y.source_uri->0@
            &&& x.source_drone is Some <==> y.source_drone is Some
            &&& x.source_drone is Some ==> x.source_drone->0@ == y.source_drone->0@
            &&& x.transform is Some <==> y.transform is Some
            &&& x.transform is Some ==> x.transform->0@ == y.transform->0@
        }),
{
    assert(crate::template::same_source(a.sources@[i], b.sources@[i]));
}

// ---------------------------------------------------------------- views

/// A template with a view of space starts with both halves.
pub proof fn templates_with_space_start_split(t: Option<Template>)
    ensures
        first_mode(t) == ViewMode::Split <==> t is Some && t->0.view_3d is Some,
        first_mode(t) == ViewMode::Grid <==> t is None || t->0.view_3d is None,
{
}

/// Without a template there is one trace. The view of space is drawn where there is one and
/// the mode asks for it: alone, beside the grid on windows of 1100 pixels and more, or above
/// it on narrower ones.
pub proof fn space_is_drawn_where_there_is_room(
    has_template: bool,
    has_3d: bool,
    mode: ViewMode,
    width: int,
    open: bool,
)
    ensures
        ({
            let p = panes_of(has_template, has_3d, mode, width, open);
            let both = has_template && has_3d && mode == ViewMode::Split && open;
            &&& p == Panes::Trace <==> !has_template
            &&& p == Panes::View3d <==> has_template && has_3d && mode == ViewMode::View3d
            &&& p == Panes::SideBySide <==> both && width >= 1100
            &&& p == Panes::GridWithOverlay <==> both && width < 1100
            &&& p == Panes::Grid <==> has_template && (!has_3d || mode == ViewMode::Grid || mode
                == ViewMode::Split && !open)
        }),
{
}

// ---------------------------------------------------------------- menus

/// Every entry of a panel's menu does to that panel what it says.
pub proof fn menu_entries_do_what_they_say(m: Seq<MenuItem>, c: Cell, i: int)
    requires
        menu_of(m, c),
        0 <= i < m.len(),
    ensures
        ({
            let (row, col) = (c.row, c.col);
            let t = m[i].caption@;
            let a = m[i].action;
            ||| t == "Edit panel..."@ && a == (CellMenuAction::Edit { row, col })
            ||| t == "Hide panel"@ && a == (CellMenuAction::HideToggle { row, col })
            ||| t == "Reset zoom"@ && a == (CellMenuAction::ResetZoom { row, col })
            ||| t == "off"@ && a == (CellMenuAction::SetLabelMode { row, col, mode: LabelMode::Off })
            ||| t == "data"@ && a == (CellMenuAction::SetLabelMode { row, col, mode: LabelMode::Data })
            ||| t == "metadata"@ && a == (CellMenuAction::SetLabelMode {
                row,
                col,
                mode: LabelMode::Metadata,
            })
            ||| t == "Delete panel"@ && a == (CellMenuAction::Delete { row, col })
        }),
        c.primitive == Primitive::Scalar || c.primitive == Primitive::Vector || c.primitive
            == Primitive::Overlay || c.primitive == Primitive::Magnitude || c.primitive
            == Primitive::MagInterference || c.primitive == Primitive::Diff || c.primitive
            == Primitive::AttitudeRpy ==> m.len() == 7,
        c.primitive == Primitive::Status || c.primitive == Primitive::StatusBadge || c.primitive
            == Primitive::InfoText ==> m.len() == 3,
{
}

/// The command key with `z` undoes, with `y`, or with `z` and shift, it redoes; without the
/// command key nothing is asked.
pub proof fn keys_undo_and_redo(k: KeyPress)
    ensures
        !k.command ==> key_asks(k) == EditKey::Nothing,
        k.command && k.z && !k.shift ==> key_asks(k) == EditKey::Undo,
        k.command && k.z && k.shift ==> key_asks(k) == EditKey::Redo,
        k.command && k.y && !k.z ==> key_asks(k) == EditKey::Redo,
        k.command && !k.z && !k.y ==> key_asks(k) == EditKey::Nothing,
{
}

/// A channel that is chosen for a plain form changes its kind of panel to suit what is known
/// of the channel, and nothing else but the kind of status; a kind that was chosen stays.
pub proof fn forms_suit_the_chosen_channel(d: PanelDraft, next: PanelDraft, before: Seq<char>)
    requires
        rechosen(d, next, before),
    ensures
        ({
            let k = d.source_key@;
            let known = known_from(k, 0);
            let changed = k != before && k.len() > 0;
            &&& !changed || known is None ==> next == d
            &&& d.primitive != Primitive::Scalar ==> next.primitive == d.primitive
            &&& changed && d.primitive == Primitive::Scalar && known == Some(ValueShape::Vector(3))
                ==> next.primitive == Primitive::Vector
            &&& changed && d.primitive == Primitive::Scalar && (known == Some(ValueShape::String)
                || known == Some(ValueShape::Bool) || known == Some(ValueShape::TextLog))
                ==> next.primitive == Primitive::Status
            &&& changed && d.primitive == Primitive::Scalar && known == Some(ValueShape::Scalar)
                ==> next.primitive == Primitive::Scalar
            &&& next == (PanelDraft {
                primitive: next.primitive,
                status_kind: next.status_kind,
                ..d
            })
            &&& next.primitive != Primitive::Status ==> next.status_kind == d.status_kind
            &&& changed && known is Some && next.primitive == Primitive::Status && status_kind_for(
                k,
                known->0,
            ) is Some ==> next.status_kind == status_kind_for(k, known->0)->0
        }),
{
}

// ---------------------------------------------------------------- counts

/// A panel of numbers has data where one of its sources has a point, and a panel of status
/// where the store that it reads has what it shows.
pub proof fn panels_have_data_where_a_source_has(view: StoresView, c: Cell)
    requires
        c.primitive == Primitive::Scalar || c.primitive == Primitive::Overlay,
    ensures
        panel_has_data(view, c) <==> exists|i: int|
            0 <= i < c.sources.len() && source_points(view, #[trigger] c.sources@[i]).len() > 0,
{
    lemma_with_points(view, c.sources@, c.sources.len() as int);
}

proof fn lemma_with_points(
    view: StoresView,
    sources: Seq<crate::template::CellSource>,
    n: int,
)
    requires
        0 <= n <= sources.len(),
    ensures
        with_points(view, sources, n).len() > 0 <==> exists|i: int|
            0 <= i < n && source_points(view, #[trigger] sources[i]).len() > 0,
    decreases n,
{
    if n > 0 {
        lemma_with_points(view, sources, n - 1);
        assert(source_points(view, sources[n - 1]).len() >= 0);
    }
}

/// A panel of status looks for its data in the store that its first source is pinned to, and
/// in the one on view where it has no source.
pub proof fn statuses_are_looked_up_where_they_are_pinned(view: StoresView, c: Cell)
    requires
        c.primitive == Primitive::Status,
    ensures
        c.sources.len() > 0 ==> (panel_has_data(view, c) <==> has_status(
            c,
            store_of(view, c.sources@[0]),
        )),
        c.sources.len() == 0 ==> (panel_has_data(view, c) <==> has_status(c, view.on_view())),
{
}

/// On a grid that keeps its slots a slot that is switched off is not counted, and one that
/// was never switched is as one that is on.
pub proof fn hidden_slots_are_not_counted(
    a: Arrangement,
    t: Template,
    visibility: SlotMap<bool>,
    view: StoresView,
    dragged: Option<usize>,
    n: int,
    row: usize,
    col: usize,
)
    requires
        0 <= n < a.at.len(),
        a.cols > 0,
        row == n / a.cols as int,
        col == n % a.cols as int,
    ensures
        ({
            let (p, d) = shown_upto(a, t, visibility, false, view, dragged, n);
            let (q, e) = shown_upto(a, t, visibility, false, view, dragged, n + 1);
            let k = a.at@[n];
            let off = visibility@.contains_key((row, col)) && !visibility@[(row, col)];
            let painted = k is Some && crate::layout::paintable(t.cells@[k->0 as int]);
            &&& off ==> q == p && e == d
            &&& !off && painted ==> q == p + 1
            &&& !painted ==> q == p && e == d
        }),
{
}

/// One more slot adds one panel where a panel is painted in it, and one with data where that
/// panel has data and is not being dragged.
pub proof fn slots_are_counted_one_by_one(
    a: Arrangement,
    t: Template,
    visibility: SlotMap<bool>,
    view: StoresView,
    dragged: Option<usize>,
    n: int,
)
    requires
        0 <= n < a.at.len(),
    ensures
        ({
            let (p, d) = shown_upto(a, t, visibility, true, view, dragged, n);
            let (q, e) = shown_upto(a, t, visibility, true, view, dragged, n + 1);
            let k = a.at@[n];
            let painted = k is Some && crate::layout::paintable(t.cells@[k->0 as int]);
            let full = painted && dragged != Some(n as usize) && panel_has_data(
                view,
                t.cells@[k->0 as int],
            );
            &&& q == p + if painted {
                1nat
            } else {
                0
            }
            &&& e == d + if full {
                1nat
            } else {
                0
            }
        }),
        shown_upto(a, t, visibility, true, view, dragged, 0) == (0nat, 0nat),
{
}

// ---------------------------------------------------------------- library

/// A template that is bundled has no file to save to; any other is saved to its own. An
/// opened one is named by itself, else by its file, else as opened.
pub proof fn templates_are_saved_to_their_own_file(
    o: TemplateOrigin,
    given: Option<Seq<char>>,
    stem: Option<Seq<char>>,
)
    ensures
        o is Bundled ==> path_of(o) is None,
        o matches TemplateOrigin::User { path } ==> path_of(o) == Some(path@),
        o matches TemplateOrigin::Cli { path } ==> path_of(o) == Some(path@),
        given is Some ==> opened_name(given, stem) == given->0,
        given is None && stem is Some ==> opened_name(given, stem) == stem->0,
        given is None && stem is None ==> opened_name(given, stem) == "opened"@,
{
}

} // verus!
