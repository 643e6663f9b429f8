//! The editing session: the template on screen, its history, the editor that is
//! open, and what the operator's actions do to them.
use vstd::prelude::*;
use vstd::string::*;

use crate::drafts::{
    apply_trail_draft, draft_of, drafted_trail, panel_draft_from_cell, trail_fault, trails_of,
    TrailDraft,
};
use crate::editor::{
    add_panel_draft, cell_slot, compact_cells, compacted, destination_sentence, draft_fault,
    drafted, exchanged, first_in, grown, moved, relocate_cell, remove_cell_at, replace_cell_at,
    rows_for, swap_cells, taken_sentence, width, without_slot, PanelDraft,
};
use crate::history::{last_n, stepped_back, stepped_forth, undo_and_redo_are_inverse, EditHistory};
use crate::keymap::{KeyMap, SlotMap};
use crate::label::LabelOverride;
use crate::layout::CellMenuAction;
use crate::num::Num;
use crate::order::{by_slot, by_slot_sorts, Slot};
use crate::template::{
    cell_wf, copy_map, opt_text, same_cell, same_template, slot_key, slot_name, slot_of,
    with_switches, Cell, Grid, LabelMode, Template, UiState,
};
use crate::text::{
    cat2, cat3, dec, first_of_unique, owned, printing_can_be_read_back, say_slot, slot_sentence,
};

verus! {

/// What the window shows.
#[derive(Clone, Copy, Debug, PartialEq, Eq, Structural)]
pub enum ViewMode {
    Grid,
    View3d,
    Split,
}

/// What the open editor is for.
#[derive(Clone, Debug)]
pub enum EditorMode {
    /// A new panel.
    AddPanel(PanelDraft),
    /// The panel at a slot.
    EditPanel { row: usize, col: usize, draft: PanelDraft },
    /// A new trail.
    AddTrail(TrailDraft),
}

/// How the operator left the editor's form.
#[derive(Clone, Copy, Debug, PartialEq, Eq, Structural)]
pub enum FormOutcome {
    /// Still at it.
    Open,
    Commit,
    Cancel,
}

/// What was done with a template's file.
#[derive(Clone, Copy, Debug, PartialEq, Eq, Structural)]
pub enum FileStep {
    Open,
    Parse,
    Save,
}

/// The template on screen and all that editing it takes.
#[derive(Clone, Debug)]
pub struct Session {
    pub template: Option<Template>,
    pub history: EditHistory,
    /// Panels that the operator hid or showed again.
    pub visibility: SlotMap<bool>,
    /// Label modes that the operator chose.
    pub labels: SlotMap<LabelMode>,
    /// Plots whose view the operator moved.
    pub locked: SlotMap<bool>,
    pub editor: Option<EditorMode>,
    /// Are there changes that were not saved?
    pub dirty: bool,
    /// What was done last, in words.
    pub last_action: Option<String>,
    pub mode: ViewMode,
    /// Have the 3D view's settings been taken from the template?
    pub view3d_inited: bool,
}

/// The mode in which a template is shown at first: split where it has a 3D view.
pub open spec fn first_mode(tpl: Option<Template>) -> ViewMode {
    if tpl is Some && tpl->0.view_3d is Some {
        ViewMode::Split
    } else {
        ViewMode::Grid
    }
}

/// The mode in which a template is shown at first.
pub fn initial_mode(tpl: &Option<Template>) -> (r: ViewMode)
    ensures
        r == first_mode(*tpl),
{
    match tpl {
        Some(t) => if t.view_3d.is_some() {
            ViewMode::Split
        } else {
            ViewMode::Grid
        },
        None => ViewMode::Grid,
    }
}

/// The panes of the window.
#[derive(Clone, Copy, Debug, PartialEq, Eq, Structural)]
pub enum Panes {
    /// A single trace, without a template.
    Trace,
    Grid,
    View3d,
    /// The grid, and the 3D view in a window above it.
    GridWithOverlay,
    /// The grid beside the 3D view.
    SideBySide,
}

/// What is drawn: one trace without a template, else the grid, the view of space, or both as
/// far as there is room.
pub open spec fn panes_of(
    has_template: bool,
    has_3d: bool,
    mode: ViewMode,
    width: int,
    pane_3d_open: bool,
) -> Panes {
    if !has_template {
        Panes::Trace
    } else if !has_3d || mode == ViewMode::Grid {
        Panes::Grid
    } else if mode == ViewMode::View3d {
        Panes::View3d
    } else if !pane_3d_open {
        Panes::Grid
    } else if width < crate::layout::RESPONSIVE_3D_COLLAPSE_W {
        Panes::GridWithOverlay
    } else {
        Panes::SideBySide
    }
}

/// The panes that are shown: a split narrows to the grid where the 3D view is
/// switched off, and to the grid with an overlay where the window is narrow.
pub fn panes(
    has_template: bool,
    has_3d: bool,
    mode: ViewMode,
    width: i64,
    pane_3d_open: bool,
) -> (r: Panes)
    ensures
        r == panes_of(has_template, has_3d, mode, width as int, pane_3d_open),
{
    if !has_template {
        Panes::Trace
    } else if !has_3d {
        Panes::Grid
    } else {
        match mode {
            ViewMode::Grid => Panes::Grid,
            ViewMode::View3d => Panes::View3d,
            ViewMode::Split => if !pane_3d_open {
                Panes::Grid
            } else if width < crate::layout::RESPONSIVE_3D_COLLAPSE_W {
                Panes::GridWithOverlay
            } else {
                Panes::SideBySide
            },
        }
    }
}

/// Has a snapshot of the template been put into the history?
pub open spec fn recorded(before: EditHistory, after: EditHistory, tpl: Option<Template>) -> bool {
    match tpl {
        None => after == before,
        Some(t) => {
            &&& after.capacity == before.capacity
            &&& after.future@ == Seq::<Template>::empty()
            &&& after.past.len() > 0
            &&& same_template(after.past@.last(), t)
            &&& after.past@ == last_n(
                before.past@.push(after.past@.last()),
                before.capacity as int,
            )
        },
    }
}

/// All snapshots are in order.
pub open spec fn snapshots_wf(h: EditHistory) -> bool {
    &&& h.wf()
    &&& forall|i: int| 0 <= i < h.past.len() ==> (#[trigger] h.past@[i]).wf()
    &&& forall|i: int| 0 <= i < h.future.len() ==> (#[trigger] h.future@[i]).wf()
}

/// A template with its panels set anew in reading order without gaps.
pub open spec fn tidied(t: Template, next: Template, cells: Seq<Cell>, grid: Grid) -> bool {
    &&& next.cells@ == compacted(cells, width(grid))
    &&& next.grid.cols == grid.cols
    &&& next.grid.rows == rows_for(cells.len() as int, width(grid))
    &&& next == (Template { cells: next.cells, grid: next.grid, ..t })
}

/// A template with the label mode of the panels at a slot set.
pub open spec fn relabeled(t: Template, next: Template, at: Slot, mode: LabelMode) -> bool {
    &&& next == (Template { cells: next.cells, ..t })
    &&& next.cells.len() == t.cells.len()
    &&& forall|i: int|
        0 <= i < t.cells.len() ==> #[trigger] next.cells@[i] == if slot_of(t.cells@[i]) == at {
            Cell { label_mode: mode, ..t.cells@[i] }
        } else {
            t.cells@[i]
        }
}

/// Is it the editor for the panel at a slot, with the draft that it starts with?
pub open spec fn edits(e: Option<EditorMode>, tpl: Option<Template>, at: Slot) -> bool {
    match e {
        Some(EditorMode::EditPanel { row, col, draft }) => {
            &&& (row, col) == at
            &&& if tpl is Some && tpl->0.occupied(at) {
                exists|i: int| #[trigger]
                    first_in(tpl->0.cells@, at, i) && draft_of(draft, tpl->0.cells@[i])
            } else {
                blank_draft(draft, at)
            }
        },
        _ => false,
    }
}

/// Is it the draft of a panel of which nothing is known but its slot?
pub open spec fn blank_draft(d: PanelDraft, at: Slot) -> bool {
    let none = Seq::<char>::empty();
    &&& (d.row, d.col) == at
    &&& d.primitive == crate::template::Primitive::Scalar
    &&& d.title@ == none
    &&& d.source_key@ == none
    &&& d.source_uri@ == none
    &&& d.source_drone@ == none
    &&& d.fallback@ == none
    &&& d.minus@ == none
    &&& d.color@ == "#1f77b4"@
    &&& d.label_mode == LabelMode::Off
    &&& d.overlay_extra_keys@ == Seq::<String>::empty()
    &&& d.status_kind == crate::template::StatusKind::Text
    &&& d.status_color_map@ == Seq::<(String, String)>::empty()
    &&& d.status_default_color@ == "#aaaaaa"@
}

/// The draft of a panel of which nothing is known but its slot.
pub fn draft_at(row: usize, col: usize) -> (d: PanelDraft)
    ensures
        blank_draft(d, (row, col)),
{
    let mut d = PanelDraft::default();
    d.row = row;
    d.col = col;
    d
}

/// What is said of two panels that changed places.
pub open spec fn swapped_sentence(from: Slot, to: Slot) -> Seq<char> {
    slot_sentence("Swapped ("@, from.0, ", "@, from.1, ") ↔ ("@) + slot_sentence(
        Seq::empty(),
        to.0,
        ", "@,
        to.1,
        ")"@,
    )
}

/// What is said of a panel that was moved.
pub open spec fn moved_sentence(from: Slot, to: Slot) -> Seq<char> {
    slot_sentence("Moved ("@, from.0, ", "@, from.1, ") → ("@) + slot_sentence(
        Seq::empty(),
        to.0,
        ", "@,
        to.1,
        ")"@,
    )
}

/// A sentence with two slots in it.
fn say_two(head: &str, from: Slot, mid: &str, to: Slot) -> (r: String)
    ensures
        r@ == slot_sentence(head@, from.0, ", "@, from.1, mid@) + slot_sentence(
            Seq::empty(),
            to.0,
            ", "@,
            to.1,
            ")"@,
        ),
{
    let a = say_slot(head, from.0, ", ", from.1, mid);
    let none = String::new();
    let b = say_slot(none.as_str(), to.0, ", ", to.1, ")");
    proof {
        assert(none@ =~= Seq::<char>::empty());
    }
    cat2(a.as_str(), b.as_str())
}

/// Panels keep their colour maps in order when they are moved about.
proof fn lemma_compacted_wf(cells: Seq<Cell>, cols: int)
    requires
        forall|i: int| 0 <= i < cells.len() ==> cell_wf(#[trigger] cells[i]),
    ensures
        forall|i: int|
            0 <= i < compacted(cells, cols).len() ==> cell_wf(#[trigger] compacted(cells, cols)[i]),
{
    let s = by_slot(cells, cell_slot());
    by_slot_sorts(cells, cell_slot());
    assert forall|i: int| 0 <= i < s.len() implies cell_wf(
        #[trigger] compacted(cells, cols)[i],
    ) by {
        assert(s.contains(s[i]));
        assert(cells.contains(s[i]));
        let k = choose|k: int| 0 <= k < cells.len() && cells[k] == s[i];
        assert(cell_wf(cells[k]));
    }
}

proof fn lemma_filter_wf(cells: Seq<Cell>, f: spec_fn(Cell) -> bool)
    requires
        forall|i: int| 0 <= i < cells.len() ==> cell_wf(#[trigger] cells[i]),
    ensures
        forall|i: int| 0 <= i < cells.filter(f).len() ==> cell_wf(#[trigger] cells.filter(f)[i]),
    decreases cells.len(),
{
    reveal(Seq::filter);
    if cells.len() > 0 {
        let t = cells.drop_last();
        assert forall|i: int| 0 <= i < t.len() implies cell_wf(#[trigger] t[i]) by {
            assert(cell_wf(cells[i]));
        }
        lemma_filter_wf(t, f);
        assert(cell_wf(cells[cells.len() - 1]));
        assert forall|i: int| 0 <= i < cells.filter(f).len() implies cell_wf(
            #[trigger] cells.filter(f)[i],
        ) by {
            if i < t.filter(f).len() {
                assert(cells.filter(f)[i] == t.filter(f)[i]);
            }
        }
    }
}

/// Is `next` the template with the switches that were saved with it?
pub open spec fn switched(tpl: Template, next: Template) -> bool {
    &&& next.cells.len() == tpl.cells.len()
    &&& forall|i: int|
        0 <= i < tpl.cells.len() ==> #[trigger] next.cells@[i] == match tpl.ui_state {
            Some(ui) => with_switches(tpl.cells@[i], ui),
            None => tpl.cells@[i],
        }
    &&& next == (Template { cells: next.cells, ..tpl })
}

/// Is it the template without panels of this name?
pub open spec fn is_blank_template(t: Template, name: Seq<char>) -> bool {
    &&& t.name@ == name
    &&& t.grid == (Grid { rows: 1, cols: 1 })
    &&& t.cells@ == Seq::<Cell>::empty()
    &&& t.sections@ == Seq::<crate::template::Section>::empty()
    &&& t.view_3d is None
    &&& t.view_slider is None
    &&& t.ui_state is None
}

/// Are two templates alike, but for the switches saved with them?
pub open spec fn same_but_switches(a: Template, b: Template) -> bool {
    same_template((Template { ui_state: b.ui_state, ..a }), b)
}

/// Are these the operator's switches on a template?
pub open spec fn captured(
    ui: UiState,
    tpl: Template,
    label_override: LabelOverride,
    trails: KeyMap<bool>,
    trail_frac: Num,
    view_frac: Num,
) -> bool {
    &&& ui.wf()
    &&& ui.cell_visibility@ == visibility_map(tpl.cells@, tpl.cells.len() as int)
    &&& ui.cell_label_mode@ == label_map(tpl.cells@, tpl.cells.len() as int, label_override)
    &&& match tpl.view_3d {
        Some(_) => ui.trail_visibility@ == trails@ && ui.trail_frac == Some(trail_frac)
            && ui.view_frac == Some(view_frac),
        None => ui.trail_visibility@ == Map::<Seq<char>, bool>::empty() && ui.trail_frac is None
            && ui.view_frac is None,
    }
}

/// Is `next` the session after a step back? Nothing happens where there is none to
/// take.
pub open spec fn after_undo(s: Session, next: Session) -> bool {
    if s.template is None || s.history.past.len() == 0 {
        next == s
    } else {
        &&& next.template is Some
        &&& (next.history.stacks(), next.template->0) == stepped_back(
            s.history.stacks(),
            s.template->0,
        )
        &&& next.history.capacity == s.history.capacity
        &&& opt_text(next.last_action) == Some("Undo"@)
        &&& next == (Session {
            template: next.template,
            history: next.history,
            dirty: true,
            last_action: next.last_action,
            ..s
        })
    }
}

/// Is `next` the session after a step forth? Nothing happens where there is none to
/// take.
pub open spec fn after_redo(s: Session, next: Session) -> bool {
    if s.template is None || s.history.future.len() == 0 {
        next == s
    } else {
        &&& next.template is Some
        &&& (next.history.stacks(), next.template->0) == stepped_forth(
            s.history.stacks(),
            s.template->0,
        )
        &&& next.history.capacity == s.history.capacity
        &&& opt_text(next.last_action) == Some("Redo"@)
        &&& next == (Session {
            template: next.template,
            history: next.history,
            dirty: true,
            last_action: next.last_action,
            ..s
        })
    }
}

impl Session {
    /// Every part is in order.
    pub open spec fn wf(self) -> bool {
        &&& snapshots_wf(self.history)
        &&& self.visibility.wf()
        &&& self.labels.wf()
        &&& self.locked.wf()
        &&& self.template is Some ==> self.template->0.wf()
    }

    /// A session on a template.
    pub fn new(template: Option<Template>) -> (r: Session)
        requires
            template is Some ==> template->0.wf(),
        ensures
            r.wf(),
            r.template == template,
            r.history.past@ == Seq::<Template>::empty(),
            r.history.future@ == Seq::<Template>::empty(),
            r.history.capacity == 64,
            r.visibility@ == Map::<Slot, bool>::empty(),
            r.labels@ == Map::<Slot, LabelMode>::empty(),
            r.locked@ == Map::<Slot, bool>::empty(),
            r.editor is None,
            !r.dirty,
            r.last_action is None,
            r.mode == first_mode(template),
            !r.view3d_inited,
    {
        let mode = initial_mode(&template);
        Session {
            template,
            history: EditHistory::default(),
            visibility: SlotMap::new(),
            labels: SlotMap::new(),
            locked: SlotMap::new(),
            editor: None,
            dirty: false,
            last_action: None,
            mode,
            view3d_inited: false,
        }
    }

    /// Put a snapshot into the history.
    fn keep_snapshot(&mut self, snapshot: Template)
        requires
            old(self).wf(),
            snapshot.wf(),
        ensures
            final(self).wf(),
            recorded(old(self).history, final(self).history, Some(snapshot)),
            final(self).history.past@.last() == snapshot,
            *final(self) == (Session { history: final(self).history, ..*old(self) }),
    {
        let ghost before = self.history;
        self.history.record(snapshot);
        proof {
            let all = before.past@.push(snapshot);
            assert forall|i: int| 0 <= i < self.history.past.len() implies (
            #[trigger] self.history.past@[i]).wf() by {
                let k = if all.len() > before.capacity {
                    i + (all.len() - before.capacity)
                } else {
                    i
                };
                assert(self.history.past@[i] == all[k]);
                if k < before.past.len() {
                    assert(before.past@[k].wf());
                }
            }
        }
    }

    /// Put a snapshot of the template into the history, if there is one.
    pub fn record_history(&mut self)
        requires
            old(self).wf(),
        ensures
            final(self).wf(),
            recorded(old(self).history, final(self).history, old(self).template),
            *final(self) == (Session { history: final(self).history, ..*old(self) }),
    {
        let snap: Option<Template> = match &self.template {
            Some(t) => Some(t.duplicate()),
            None => None,
        };
        match snap {
            Some(s) => {
                self.keep_snapshot(s);
            },
            None => {},
        }
    }

    /// Go back to the state before the last edit, if there is one.
    pub fn apply_undo(&mut self)
        requires
            old(self).wf(),
        ensures
            final(self).wf(),
            after_undo(*old(self), *final(self)),
    {
        if self.template.is_none() || !self.history.can_undo() {
            return ;
        }
        let ghost start = *self;
        match self.template.take() {
            Some(current) => {
                match self.history.undo(current) {
                    Some(prev) => {
                        self.template = Some(prev);
                        self.dirty = true;
                        self.last_action = Some(owned("Undo"));
                    },
                    None => {},
                }
            },
            None => {},
        }
        proof {
            let h = start.history;
            assert(h.past@.last() == h.past@[h.past.len() - 1]);
            assert forall|i: int| 0 <= i < self.history.future.len() implies (
            #[trigger] self.history.future@[i]).wf() by {
                if i < h.future.len() {
                    assert(h.future@[i].wf());
                }
            }
            assert forall|i: int| 0 <= i < self.history.past.len() implies (
            #[trigger] self.history.past@[i]).wf() by {
                assert(h.past@[i].wf());
            }
        }
    }

    /// Go forth to the state that was undone last, if there is one.
    pub fn apply_redo(&mut self)
        requires
            old(self).wf(),
        ensures
            final(self).wf(),
            after_redo(*old(self), *final(self)),
    {
        if self.template.is_none() || !self.history.can_redo() {
            return ;
        }
        let ghost start = *self;
        match self.template.take() {
            Some(current) => {
                match self.history.redo(current) {
                    Some(next) => {
                        self.template = Some(next);
                        self.dirty = true;
                        self.last_action = Some(owned("Redo"));
                    },
                    None => {},
                }
            },
            None => {},
        }
        proof {
            let h = start.history;
            assert(h.future@.last() == h.future@[h.future.len() - 1]);
            assert forall|i: int| 0 <= i < self.history.past.len() implies (
            #[trigger] self.history.past@[i]).wf() by {
                if i < h.past.len() {
                    assert(h.past@[i].wf());
                }
            }
            assert forall|i: int| 0 <= i < self.history.future.len() implies (
            #[trigger] self.history.future@[i]).wf() by {
                assert(h.future@[i].wf());
            }
        }
    }

    /// Open the editor on the panel at a slot.
    fn open_editor(&mut self, row: usize, col: usize)
        requires
            old(self).wf(),
        ensures
            final(self).wf(),
            edits(final(self).editor, old(self).template, (row, col)),
            *final(self) == (Session { editor: final(self).editor, ..*old(self) }),
    {
        let draft = match &self.template {
            Some(t) => match t.first_at((row, col)) {
                Some(i) => {
                    let d = panel_draft_from_cell(&t.cells[i]);
                    proof {
                        assert(first_in(t.cells@, (row, col), i as int));
                    }
                    d
                },
                None => draft_at(row, col),
            },
            None => draft_at(row, col),
        };
        self.editor = Some(EditorMode::EditPanel { row, col, draft });
    }

    /// Do what the operator asked for on a panel.
    pub fn apply_cell_menu_action(&mut self, action: CellMenuAction)
        requires
            old(self).wf(),
            match action {
                CellMenuAction::MoveTo { from: _, to } => to.0 < usize::MAX && to.1 < usize::MAX,
                _ => true,
            },
        ensures
            final(self).wf(),
            after_action(*old(self), *final(self), action),
    {
        match action {
            CellMenuAction::Edit { row, col } => {
                self.open_editor(row, col);
            },
            CellMenuAction::HideToggle { row, col } => {
                self.record_history();
                let shown = match self.visibility.get((row, col)) {
                    Some(v) => *v,
                    None => true,
                };
                self.visibility.insert((row, col), !shown);
                self.dirty = true;
            },
            CellMenuAction::ResetZoom { row, col } => {
                if self.locked.get((row, col)).is_some() {
                    self.locked.insert((row, col), false);
                }
            },
            CellMenuAction::SetLabelMode { row, col, mode } => {
                self.record_history();
                self.labels.insert((row, col), mode);
                match self.template.take() {
                    Some(t) => {
                        let next = set_label(t, row, col, mode);
                        self.template = Some(next);
                    },
                    None => {},
                }
                self.dirty = true;
            },
            CellMenuAction::Delete { row, col } => {
                self.record_history();
                match self.template.take() {
                    Some(t) => {
                        let next = delete_panel(t, row, col);
                        self.template = Some(next);
                        self.dirty = true;
                    },
                    None => {},
                }
            },
            CellMenuAction::SwapTo { from, to } => {
                self.record_history();
                match self.template.take() {
                    Some(t) => {
                        let (next, done) = swap_panels(t, from, to);
                        self.template = Some(next);
                        if done {
                            self.dirty = true;
                            self.last_action = Some(say_two("Swapped (", from, ") ↔ (", to));
                        }
                    },
                    None => {},
                }
            },
            CellMenuAction::MoveTo { from, to } => {
                self.record_history();
                match self.template.take() {
                    Some(t) => {
                        let (next, done) = move_panel(t, from, to);
                        self.template = Some(next);
                        if done {
                            self.dirty = true;
                            self.last_action = Some(say_two("Moved (", from, ") → (", to));
                        }
                    },
                    None => {},
                }
            },
        }
    }

    /// The number of panels that the operator hid.
    pub fn hidden_count(&self) -> (n: usize)
        ensures
            n == self.visibility.entries@.filter(|e: (Slot, bool)| !e.1).len(),
    {
        let ghost f = |e: (Slot, bool)| !e.1;
        let mut n: usize = 0;
        let mut i: usize = 0;
        proof {
            reveal(Seq::filter);
            assert(self.visibility.entries@.take(0).filter(f) =~= Seq::empty());
        }
        while i < self.visibility.entries.len()
            invariant
                i <= self.visibility.entries.len(),
                f == (|e: (Slot, bool)| !e.1),
                n == self.visibility.entries@.take(i as int).filter(f).len(),
                n <= i,
            decreases self.visibility.entries.len() - i,
        {
            proof {
                let all = self.visibility.entries@;
                reveal(Seq::filter);
                assert(all.take(i + 1).drop_last() =~= all.take(i as int));
                assert(all.take(i + 1).last() == all[i as int]);
            }
            if !self.visibility.entries[i].1 {
                n = n + 1;
            }
            i = i + 1;
        }
        proof {
            let all = self.visibility.entries@;
            assert(all.take(all.len() as int) =~= all);
        }
        n
    }

    /// Show all hidden panels again.
    pub fn restore_hidden(&mut self)
        requires
            old(self).wf(),
        ensures
            final(self).wf(),
            final(self).visibility@ == Map::<Slot, bool>::empty(),
            *final(self) == (Session { visibility: final(self).visibility, dirty: true, ..*old(self) }),
    {
        self.visibility = SlotMap::new();
        self.dirty = true;
    }

    /// Show another template, with the switches that were saved with it. It counts as
    /// unchanged; the history and what was hidden stay.
    pub fn load(&mut self, tpl: Template, origin: &str)
        requires
            old(self).wf(),
            tpl.wf(),
        ensures
            final(self).wf(),
            final(self).template is Some,
            switched(tpl, final(self).template->0),
            opt_text(final(self).last_action) == Some("Loaded '"@ + tpl.name@ + "' ("@ + origin@ + ")"@),
            *final(self) == (Session {
                template: final(self).template,
                mode: first_mode(Some(tpl)),
                view3d_inited: false,
                dirty: false,
                last_action: final(self).last_action,
                ..*old(self)
            }),
    {
        let mut msg = cat3("Loaded '", tpl.name.as_str(), "' (");
        msg.append(origin);
        msg.append(")");
        let saved = match &tpl.ui_state {
            Some(ui) => Some(ui.duplicate()),
            None => None,
        };
        let mut fresh = tpl;
        match saved {
            Some(ui) => {
                fresh.apply_ui_state(&ui);
                proof {
                    assert forall|i: int| 0 <= i < tpl.cells.len() implies with_switches(
                        #[trigger] tpl.cells@[i],
                        ui,
                    ) == with_switches(tpl.cells@[i], tpl.ui_state->0) by {}
                    assert forall|i: int| 0 <= i < fresh.cells.len() implies cell_wf(
                        #[trigger] fresh.cells@[i],
                    ) by {
                        assert(cell_wf(tpl.cells@[i]));
                    }
                }
            },
            None => {},
        }
        let shown = Some(fresh);
        self.mode = initial_mode(&shown);
        self.template = shown;
        self.view3d_inited = false;
        self.dirty = false;
        self.last_action = Some(msg);
    }

    /// Begin a template without panels, named after the file that it is to be saved to.
    /// It counts as changed until it is saved.
    pub fn new_blank(&mut self, stem: Option<&str>, path: &str)
        requires
            old(self).wf(),
        ensures
            final(self).wf(),
            final(self).template is Some,
            is_blank_template(
                final(self).template->0,
                match stem {
                    Some(s) => s@,
                    None => "untitled"@,
                },
            ),
            opt_text(final(self).last_action) == Some("New blank template (save to "@ + path@ + ")"@),
            *final(self) == (Session {
                template: final(self).template,
                mode: ViewMode::Grid,
                view3d_inited: false,
                dirty: true,
                last_action: final(self).last_action,
                ..*old(self)
            }),
    {
        let name = match stem {
            Some(s) => owned(s),
            None => owned("untitled"),
        };
        self.template = Some(Template::blank(name));
        self.mode = ViewMode::Grid;
        self.view3d_inited = false;
        self.dirty = true;
        self.last_action = Some(cat3("New blank template (save to ", path, ")"));
    }

    /// The template to be written, with the operator's switches. Nothing where no
    /// template is shown.
    pub fn prepare_save(
        &mut self,
        label_override: LabelOverride,
        trails: &KeyMap<bool>,
        trail_frac: Num,
        view_frac: Num,
    ) -> (r: Option<Template>)
        requires
            old(self).wf(),
            trails.wf(),
        ensures
            final(self).wf(),
            match old(self).template {
                Some(t) => {
                    &&& *final(self) == *old(self)
                    &&& r is Some
                    &&& r->0.wf()
                    &&& same_but_switches(r->0, t)
                    &&& r->0.ui_state is Some
                    &&& captured(r->0.ui_state->0, t, label_override, *trails, trail_frac, view_frac)
                },
                None => {
                    &&& r is None
                    &&& opt_text(final(self).last_action) == Some("Save failed: no template loaded"@)
                    &&& *final(self) == (Session {
                        last_action: final(self).last_action,
                        ..*old(self)
                    })
                },
            },
    {
        let copy: Option<Template> = match &self.template {
            Some(t) => {
                let mut c = t.duplicate();
                c.ui_state = Some(
                    capture_ui_state(t, label_override, trails, trail_frac, view_frac),
                );
                Some(c)
            },
            None => None,
        };
        if copy.is_none() {
            self.last_action = Some(owned("Save failed: no template loaded"));
        }
        copy
    }

    /// Note that the template was written to a file.
    pub fn saved(&mut self, path: &str)
        requires
            old(self).wf(),
        ensures
            final(self).wf(),
            opt_text(final(self).last_action) == Some("Saved to "@ + path@),
            *final(self) == (Session {
                dirty: false,
                last_action: final(self).last_action,
                ..*old(self)
            }),
    {
        self.dirty = false;
        self.last_action = Some(cat2("Saved to ", path));
    }

    /// Note that a file could not be read, understood or written.
    pub fn failed(&mut self, step: FileStep, why: &str)
        requires
            old(self).wf(),
        ensures
            final(self).wf(),
            opt_text(final(self).last_action) == Some(
                match step {
                    FileStep::Open => "Open failed: "@ + why@,
                    FileStep::Parse => "Parse failed: "@ + why@,
                    FileStep::Save => "Save failed: "@ + why@,
                },
            ),
            *final(self) == (Session { last_action: final(self).last_action, ..*old(self) }),
    {
        self.last_action = Some(
            match step {
                FileStep::Open => cat2("Open failed: ", why),
                FileStep::Parse => cat2("Parse failed: ", why),
                FileStep::Save => cat2("Save failed: ", why),
            },
        );
    }
}

/// Is `next` the session after an action?
pub open spec fn after_action(s: Session, next: Session, action: CellMenuAction) -> bool {
    match action {
        CellMenuAction::Edit { row, col } => {
            &&& edits(next.editor, s.template, (row, col))
            &&& next == (Session { editor: next.editor, ..s })
        },
        CellMenuAction::HideToggle { row, col } => {
            let at = (row, col);
            let shown = s.visibility@.contains_key(at) ==> s.visibility@[at];
            &&& recorded(s.history, next.history, s.template)
            &&& next.visibility@ == s.visibility@.insert(at, !shown)
            &&& next == (Session {
                history: next.history,
                visibility: next.visibility,
                dirty: true,
                ..s
            })
        },
        CellMenuAction::ResetZoom { row, col } => {
            &&& next.locked@ == if s.locked@.contains_key((row, col)) {
                s.locked@.insert((row, col), false)
            } else {
                s.locked@
            }
            &&& next == (Session { locked: next.locked, ..s })
        },
        CellMenuAction::SetLabelMode { row, col, mode } => {
            &&& recorded(s.history, next.history, s.template)
            &&& next.labels@ == s.labels@.insert((row, col), mode)
            &&& match s.template {
                Some(t) => next.template is Some && relabeled(
                    t,
                    next.template->0,
                    (row, col),
                    mode,
                ),
                None => next.template is None,
            }
            &&& next == (Session {
                template: next.template,
                history: next.history,
                labels: next.labels,
                dirty: true,
                ..s
            })
        },
        CellMenuAction::Delete { row, col } => {
            &&& recorded(s.history, next.history, s.template)
            &&& match s.template {
                Some(t) => {
                    &&& next.template is Some
                    &&& if t.occupied((row, col)) {
                        tidied(
                            t,
                            next.template->0,
                            without_slot(t.cells@, (row, col)),
                            t.grid,
                        )
                    } else {
                        next.template->0.cells@ == t.cells@ && next.template->0 == (Template {
                            cells: next.template->0.cells,
                            ..t
                        })
                    }
                    &&& next.dirty
                },
                None => next.template is None && next.dirty == s.dirty,
            }
            &&& next == (Session {
                template: next.template,
                history: next.history,
                dirty: next.dirty,
                ..s
            })
        },
        CellMenuAction::SwapTo { from, to } => {
            &&& recorded(s.history, next.history, s.template)
            &&& match s.template {
                Some(t) => {
                    &&& next.template is Some
                    &&& swapped(t, next.template->0, from, to)
                    &&& told(s, next, can_swap(t, from, to), swapped_sentence(from, to))
                },
                None => next.template is None && told(s, next, false, Seq::empty()),
            }
            &&& next == (Session {
                template: next.template,
                history: next.history,
                dirty: next.dirty,
                last_action: next.last_action,
                ..s
            })
        },
        CellMenuAction::MoveTo { from, to } => {
            &&& recorded(s.history, next.history, s.template)
            &&& match s.template {
                Some(t) => {
                    &&& next.template is Some
                    &&& relocated(t, next.template->0, from, to)
                    &&& told(s, next, can_move(t, from, to), moved_sentence(from, to))
                },
                None => next.template is None && told(s, next, false, Seq::empty()),
            }
            &&& next == (Session {
                template: next.template,
                history: next.history,
                dirty: next.dirty,
                last_action: next.last_action,
                ..s
            })
        },
    }
}

/// Was a change that was made noted, and one that was not left unmentioned?
pub open spec fn told(s: Session, next: Session, done: bool, words: Seq<char>) -> bool {
    if done {
        next.dirty && opt_text(next.last_action) == Some(words)
    } else {
        next.dirty == s.dirty && next.last_action == s.last_action
    }
}

/// Can two slots be exchanged?
pub open spec fn can_swap(t: Template, from: Slot, to: Slot) -> bool {
    from == to || (t.occupied(from) && t.occupied(to))
}

/// Can the panel at one slot be moved to another?
pub open spec fn can_move(t: Template, from: Slot, to: Slot) -> bool {
    from == to || (t.occupied(from) && !t.occupied(to))
}

/// Is `next` the template with two slots exchanged and all panels set anew, or the
/// template as it was where they cannot be?
pub open spec fn swapped(t: Template, next: Template, from: Slot, to: Slot) -> bool {
    if !can_swap(t, from, to) {
        next == t
    } else if from == to {
        tidied(t, next, t.cells@, t.grid)
    } else {
        exists|i: int, j: int|
            #![trigger exchanged(t.cells@, i, j)]
            first_in(t.cells@, from, i) && first_in(t.cells@, to, j) && tidied(
                t,
                next,
                exchanged(t.cells@, i, j),
                t.grid,
            )
    }
}

/// Is `next` the template with a panel moved and all panels set anew, or the template
/// as it was where it cannot be?
pub open spec fn relocated(t: Template, next: Template, from: Slot, to: Slot) -> bool {
    if !can_move(t, from, to) {
        next == t
    } else if from == to {
        tidied(t, next, t.cells@, t.grid)
    } else {
        exists|i: int|
            #![trigger first_in(t.cells@, from, i)]
            first_in(t.cells@, from, i) && tidied(
                t,
                next,
                t.cells@.update(i, moved(t.cells@[i], to)),
                grown(t.grid, to.0, to.1),
            )
    }
}

/// Set the label mode of the panels at a slot.
fn set_label(t: Template, row: usize, col: usize, mode: LabelMode) -> (next: Template)
    requires
        t.wf(),
    ensures
        next.wf(),
        relabeled(t, next, (row, col), mode),
{
    let mut next = t;
    let mut i: usize = 0;
    while i < next.cells.len()
        invariant
            t.wf(),
            i <= next.cells.len() == t.cells.len(),
            next == (Template { cells: next.cells, ..t }),
            forall|k: int|
                0 <= k < i ==> #[trigger] next.cells@[k] == if slot_of(t.cells@[k]) == (row, col) {
                    Cell { label_mode: mode, ..t.cells@[k] }
                } else {
                    t.cells@[k]
                },
            forall|k: int| i <= k < t.cells.len() ==> #[trigger] next.cells@[k] == t.cells@[k],
        decreases next.cells.len() - i,
    {
        if next.cells[i].row == row && next.cells[i].col == col {
            next.cells[i].label_mode = mode;
        }
        i = i + 1;
    }
    proof {
        assert forall|k: int| 0 <= k < next.cells.len() implies cell_wf(#[trigger] next.cells@[k]) by {
            assert(cell_wf(t.cells@[k]));
        }
    }
    next
}

/// Take the panels at a slot out and close the gap.
fn delete_panel(t: Template, row: usize, col: usize) -> (next: Template)
    requires
        t.wf(),
    ensures
        next.wf(),
        t.occupied((row, col)) ==> tidied(t, next, without_slot(t.cells@, (row, col)), t.grid),
        !t.occupied((row, col)) ==> next.cells@ == t.cells@ && next == (Template {
            cells: next.cells,
            ..t
        }),
{
    let mut next = t;
    proof {
        lemma_filter_wf(t.cells@, |c: Cell| slot_of(c) != (row, col));
    }
    let removed = remove_cell_at(&mut next, row, col);
    if removed.is_ok() {
        proof {
            lemma_compacted_wf(next.cells@, width(next.grid));
        }
        compact_cells(&mut next);
    }
    next
}

/// Exchange two slots and set all panels anew.
fn swap_panels(t: Template, from: Slot, to: Slot) -> (r: (Template, bool))
    requires
        t.wf(),
    ensures
        r.0.wf(),
        r.1 == can_swap(t, from, to),
        swapped(t, r.0, from, to),
{
    let mut next = t;
    let done = swap_cells(&mut next, from, to);
    if done.is_ok() {
        proof {
            assert forall|k: int| 0 <= k < next.cells.len() implies cell_wf(
                #[trigger] next.cells@[k],
            ) by {
                assert(cell_wf(t.cells@[k]));
            }
            lemma_compacted_wf(next.cells@, width(next.grid));
        }
        let ghost mid = next.cells@;
        compact_cells(&mut next);
        proof {
            if from != to {
                let (i, j) = choose|i: int, j: int|
                    #![trigger exchanged(t.cells@, i, j)]
                    first_in(t.cells@, from, i) && first_in(t.cells@, to, j) && mid == exchanged(
                        t.cells@,
                        i,
                        j,
                    );
                assert(tidied(t, next, exchanged(t.cells@, i, j), t.grid));
                assert(slot_of(t.cells@[i]) == from);
                assert(slot_of(t.cells@[j]) == to);
            }
        }
        (next, true)
    } else {
        (next, false)
    }
}

/// Move a panel to a free slot and set all panels anew.
fn move_panel(t: Template, from: Slot, to: Slot) -> (r: (Template, bool))
    requires
        t.wf(),
        to.0 < usize::MAX,
        to.1 < usize::MAX,
    ensures
        r.0.wf(),
        r.1 == can_move(t, from, to),
        relocated(t, r.0, from, to),
{
    let mut next = t;
    let done = relocate_cell(&mut next, from, to);
    if done.is_ok() {
        proof {
            assert forall|k: int| 0 <= k < next.cells.len() implies cell_wf(
                #[trigger] next.cells@[k],
            ) by {
                assert(cell_wf(t.cells@[k]));
            }
            lemma_compacted_wf(next.cells@, width(next.grid));
        }
        let ghost mid = next;
        compact_cells(&mut next);
        proof {
            if from != to {
                let i = choose|i: int|
                    #![trigger first_in(t.cells@, from, i)]
                    first_in(t.cells@, from, i) && mid.cells@ == t.cells@.update(
                        i,
                        moved(t.cells@[i], to),
                    );
                assert(tidied(
                    t,
                    next,
                    t.cells@.update(i, moved(t.cells@[i], to)),
                    grown(t.grid, to.0, to.1),
                ));
                assert(slot_of(t.cells@[i]) == from);
            }
        }
        (next, true)
    } else {
        (next, false)
    }
}

// ---------------------------------------------------------------- the editor's form

/// Is `next` the session after a new panel was asked for?
pub open spec fn after_add(s: Session, next: Session, d: PanelDraft) -> bool {
    match s.template {
        None => next == (Session { editor: None, ..s }),
        Some(t) => {
            let at = (d.row, d.col);
            if !t.occupied(at) && draft_fault(d) is None {
                &&& next.template is Some
                &&& next.template->0.cells.len() == t.cells.len() + 1
                &&& drafted(next.template->0.cells@.last(), d)
                &&& next.template->0.cells@ == t.cells@.push(next.template->0.cells@.last())
                &&& next.template->0 == (Template {
                    grid: grown(t.grid, d.row, d.col),
                    cells: next.template->0.cells,
                    ..t
                })
                &&& recorded(s.history, next.history, s.template)
                &&& opt_text(next.last_action) == Some(
                    slot_sentence("Added cell at ("@, d.row, ", "@, d.col, ")"@),
                )
                &&& next == (Session {
                    template: next.template,
                    history: next.history,
                    editor: None,
                    dirty: true,
                    last_action: next.last_action,
                    ..s
                })
            } else {
                &&& next.editor == Some(EditorMode::AddPanel(d))
                &&& opt_text(next.last_action) == Some(
                    "Add failed: "@ + if t.occupied(at) {
                        taken_sentence(d.row, d.col)
                    } else {
                        draft_fault(d)->0
                    },
                )
                &&& next == (Session {
                    editor: next.editor,
                    last_action: next.last_action,
                    ..s
                })
            }
        },
    }
}

/// What is said of a panel that was edited.
pub open spec fn edited_sentence(row: usize, col: usize, d: PanelDraft) -> Seq<char> {
    if d.row == row && d.col == col {
        slot_sentence("Updated cell at ("@, row, ", "@, col, ")"@)
    } else {
        slot_sentence("Moved cell ("@, row, ", "@, col, ") → ("@) + slot_sentence(
            Seq::empty(),
            d.row,
            ", "@,
            d.col,
            ")"@,
        )
    }
}

/// Is `next` the session after a panel was to be edited?
pub open spec fn after_edit(s: Session, next: Session, row: usize, col: usize, d: PanelDraft) -> bool {
    match s.template {
        None => next == (Session { editor: None, ..s }),
        Some(t) => {
            let at = (d.row, d.col);
            let blocked = at != (row, col) && t.occupied(at);
            let kept = without_slot(t.cells@, (row, col));
            &&& recorded(s.history, next.history, s.template)
            &&& next.template is Some
            &&& if !blocked && draft_fault(d) is None {
                &&& next.template->0.cells.len() == kept.len() + 1
                &&& drafted(next.template->0.cells@.last(), d)
                &&& next.template->0.cells@ == kept.push(next.template->0.cells@.last())
                &&& next.template->0 == (Template {
                    grid: grown(t.grid, d.row, d.col),
                    cells: next.template->0.cells,
                    ..t
                })
                &&& opt_text(next.last_action) == Some(edited_sentence(row, col, d))
                &&& next == (Session {
                    template: next.template,
                    history: next.history,
                    editor: None,
                    dirty: true,
                    last_action: next.last_action,
                    ..s
                })
            } else {
                &&& next.template->0.cells@ == if blocked {
                    t.cells@
                } else {
                    kept
                }
                &&& next.template->0 == (Template { cells: next.template->0.cells, ..t })
                &&& opt_text(next.last_action) == Some(
                    "Apply failed: "@ + if blocked {
                        destination_sentence(d.row, d.col)
                    } else {
                        draft_fault(d)->0
                    },
                )
                &&& next.editor == Some(EditorMode::EditPanel { row, col, draft: d })
                &&& next == (Session {
                    template: next.template,
                    history: next.history,
                    editor: next.editor,
                    last_action: next.last_action,
                    ..s
                })
            }
        },
    }
}

/// Is `next` the session after a new trail was asked for?
pub open spec fn after_trail(s: Session, next: Session, d: TrailDraft) -> bool {
    match s.template {
        None => next == (Session { editor: None, ..s }),
        Some(t) => {
            &&& recorded(s.history, next.history, s.template)
            &&& if trail_fault(d) is None {
                &&& next.template is Some
                &&& next.template->0.view_3d is Some
                &&& trails_of(next.template->0).len() == trails_of(t).len() + 1
                &&& drafted_trail(trails_of(next.template->0).last(), d)
                &&& trails_of(next.template->0) == trails_of(t).push(
                    trails_of(next.template->0).last(),
                )
                &&& match t.view_3d {
                    Some(v) => next.template->0.view_3d->0.title == v.title
                        && next.template->0.view_3d->0.trail_slider_initial
                        == v.trail_slider_initial,
                    None => next.template->0.view_3d->0.title@ == Seq::<char>::empty()
                        && next.template->0.view_3d->0.trail_slider_initial.bits
                        == 0x3FD0_0000_0000_0000,
                }
                &&& next.template->0 == (Template { view_3d: next.template->0.view_3d, ..t })
                &&& opt_text(next.last_action) == Some("Added trail '"@ + d.name@ + "'"@)
                &&& next == (Session {
                    template: next.template,
                    history: next.history,
                    editor: None,
                    dirty: true,
                    last_action: next.last_action,
                    view3d_inited: false,
                    ..s
                })
            } else {
                &&& opt_text(next.last_action) == Some("Add failed: "@ + trail_fault(d)->0)
                &&& next.editor == Some(EditorMode::AddTrail(d))
                &&& next == (Session {
                    history: next.history,
                    editor: next.editor,
                    last_action: next.last_action,
                    ..s
                })
            }
        },
    }
}

/// Is `next` the session after the operator left the form?
pub open spec fn after_form(s: Session, next: Session, outcome: FormOutcome) -> bool {
    match outcome {
        FormOutcome::Open => next == s,
        FormOutcome::Cancel => next == (Session { editor: None, ..s }),
        FormOutcome::Commit => match s.editor {
            None => next == s,
            Some(EditorMode::AddPanel(d)) => after_add(s, next, d),
            Some(EditorMode::EditPanel { row, col, draft }) => after_edit(s, next, row, col, draft),
            Some(EditorMode::AddTrail(d)) => after_trail(s, next, d),
        },
    }
}

impl Session {
    fn commit_add(&mut self, draft: PanelDraft)
        requires
            old(self).wf(),
            old(self).editor is None,
        ensures
            final(self).wf(),
            after_add(*old(self), *final(self), draft),
    {
        match self.template.take() {
            None => {},
            Some(t) => {
                let snapshot = t.duplicate();
                let mut tpl = t;
                match add_panel_draft(&mut tpl, &draft) {
                    Ok(_) => {
                        proof {
                            assert forall|k: int| 0 <= k < tpl.cells.len() implies cell_wf(
                                #[trigger] tpl.cells@[k],
                            ) by {
                                if k < t.cells.len() {
                                    assert(cell_wf(t.cells@[k]));
                                }
                            }
                        }
                        self.keep_snapshot(snapshot);
                        self.template = Some(tpl);
                        self.dirty = true;
                        self.last_action = Some(
                            say_slot("Added cell at (", draft.row, ", ", draft.col, ")"),
                        );
                    },
                    Err(e) => {
                        self.template = Some(tpl);
                        self.last_action = Some(cat2("Add failed: ", e.as_str()));
                        self.editor = Some(EditorMode::AddPanel(draft));
                    },
                }
            },
        }
    }

    fn commit_edit(&mut self, row: usize, col: usize, draft: PanelDraft)
        requires
            old(self).wf(),
            old(self).editor is None,
        ensures
            final(self).wf(),
            after_edit(*old(self), *final(self), row, col, draft),
    {
        self.record_history();
        match self.template.take() {
            None => {},
            Some(t) => {
                let mut tpl = t;
                proof {
                    lemma_filter_wf(t.cells@, |c: Cell| slot_of(c) != (row, col));
                }
                let done = replace_cell_at(&mut tpl, row, col, &draft);
                proof {
                    let kept = without_slot(t.cells@, (row, col));
                    assert forall|k: int| 0 <= k < tpl.cells.len() implies cell_wf(
                        #[trigger] tpl.cells@[k],
                    ) by {
                        if tpl.cells@ == t.cells@ {
                            assert(cell_wf(t.cells@[k]));
                        } else if k < kept.len() {
                            assert(cell_wf(kept[k]));
                        }
                    }
                }
                self.template = Some(tpl);
                match done {
                    Ok(_) => {
                        self.dirty = true;
                        self.last_action = Some(
                            if draft.row == row && draft.col == col {
                                say_slot("Updated cell at (", row, ", ", col, ")")
                            } else {
                                say_two(
                                    "Moved cell (",
                                    (row, col),
                                    ") → (",
                                    (draft.row, draft.col),
                                )
                            },
                        );
                    },
                    Err(e) => {
                        self.last_action = Some(cat2("Apply failed: ", e.as_str()));
                        self.editor = Some(EditorMode::EditPanel { row, col, draft });
                    },
                }
            },
        }
    }

    fn commit_trail(&mut self, draft: TrailDraft)
        requires
            old(self).wf(),
            old(self).editor is None,
        ensures
            final(self).wf(),
            after_trail(*old(self), *final(self), draft),
    {
        self.record_history();
        match self.template.take() {
            None => {},
            Some(t) => {
                let mut tpl = t;
                let done = apply_trail_draft(&mut tpl, &draft);
                proof {
                    assert forall|k: int| 0 <= k < tpl.cells.len() implies cell_wf(
                        #[trigger] tpl.cells@[k],
                    ) by {
                        assert(cell_wf(t.cells@[k]));
                    }
                }
                self.template = Some(tpl);
                match done {
                    Ok(_) => {
                        self.dirty = true;
                        self.last_action = Some(
                            cat3("Added trail '", draft.name.as_str(), "'"),
                        );
                        self.view3d_inited = false;
                    },
                    Err(e) => {
                        self.last_action = Some(cat2("Add failed: ", e.as_str()));
                        self.editor = Some(EditorMode::AddTrail(draft));
                    },
                }
            },
        }
    }

    /// Go on after the operator left the editor's form. What was committed is applied
    /// to the template; where that is refused the editor stays open and says why.
    pub fn finish_form(&mut self, outcome: FormOutcome)
        requires
            old(self).wf(),
        ensures
            final(self).wf(),
            after_form(*old(self), *final(self), outcome),
    {
        match outcome {
            FormOutcome::Open => {},
            FormOutcome::Cancel => {
                self.editor = None;
            },
            FormOutcome::Commit => {
                match self.editor.take() {
                    None => {},
                    Some(EditorMode::AddPanel(d)) => {
                        self.commit_add(d);
                    },
                    Some(EditorMode::EditPanel { row, col, draft }) => {
                        self.commit_edit(row, col, draft);
                    },
                    Some(EditorMode::AddTrail(d)) => {
                        self.commit_trail(d);
                    },
                }
            },
        }
    }
}

/// What an action did can be undone: going back gives a template like the one before
/// it.
pub proof fn actions_can_be_undone(s: Session, next: Session, back: Session, action: CellMenuAction)
    requires
        s.wf(),
        s.template is Some,
        after_action(s, next, action),
        after_undo(next, back),
        action is HideToggle || action is SetLabelMode || action is Delete || action is SwapTo
            || action is MoveTo,
    ensures
        back.template is Some,
        same_template(back.template->0, s.template->0),
{
}

/// What a form added or changed can be undone.
pub proof fn forms_can_be_undone(s: Session, next: Session, back: Session)
    requires
        s.wf(),
        s.template is Some,
        s.editor is Some,
        after_form(s, next, FormOutcome::Commit),
        next.editor is None,
        after_undo(next, back),
    ensures
        back.template is Some,
        same_template(back.template->0, s.template->0),
{
}

/// A step forth takes back a step back: the template and the history are what they
/// were.
pub proof fn redo_takes_an_undo_back(s: Session, back: Session, again: Session)
    requires
        s.template is Some,
        s.history.past.len() > 0,
        after_undo(s, back),
        after_redo(back, again),
    ensures
        again.template == s.template,
        again.history.stacks() == s.history.stacks(),
{
    undo_and_redo_are_inverse(s.history.stacks(), s.template->0);
}

// ---------------------------------------------------------------- saving

/// The visibility of the first `n` panels, by slot.
pub open spec fn visibility_map(cells: Seq<Cell>, n: int) -> Map<Seq<char>, bool>
    decreases n,
{
    if n <= 0 {
        Map::empty()
    } else {
        visibility_map(cells, n - 1).insert(slot_key(slot_of(cells[n - 1])), cells[n - 1].visible)
    }
}

/// The label modes of the first `n` panels, by slot.
pub open spec fn label_map(cells: Seq<Cell>, n: int, ov: LabelOverride) -> Map<Seq<char>, LabelMode>
    decreases n,
{
    if n <= 0 {
        Map::empty()
    } else {
        label_map(cells, n - 1, ov).insert(
            slot_key(slot_of(cells[n - 1])),
            ov.effective(cells[n - 1].label_mode),
        )
    }
}

/// What the operator switched, to be saved with the template: visibility and label
/// mode of every panel, and, where there is a 3D view, its trails and sliders.
pub fn capture_ui_state(
    tpl: &Template,
    label_override: LabelOverride,
    trails: &KeyMap<bool>,
    trail_frac: Num,
    view_frac: Num,
) -> (ui: UiState)
    requires
        trails.wf(),
    ensures
        captured(ui, *tpl, label_override, *trails, trail_frac, view_frac),
{
    let mut ui = UiState::default();
    let mut i: usize = 0;
    while i < tpl.cells.len()
        invariant
            i <= tpl.cells.len(),
            ui.wf(),
            ui.cell_visibility@ == visibility_map(tpl.cells@, i as int),
            ui.cell_label_mode@ == label_map(tpl.cells@, i as int, label_override),
            ui.trail_visibility@ == Map::<Seq<char>, bool>::empty(),
            ui.trail_frac is None,
            ui.view_frac is None,
        decreases tpl.cells.len() - i,
    {
        let key = slot_name(tpl.cells[i].row, tpl.cells[i].col);
        ui.cell_visibility.insert(key.clone(), tpl.cells[i].visible);
        ui.cell_label_mode.insert(key, label_override.resolve(tpl.cells[i].label_mode));
        i = i + 1;
    }
    if tpl.view_3d.is_some() {
        ui.trail_visibility = copy_map(trails);
        ui.trail_frac = Some(trail_frac);
        ui.view_frac = Some(view_frac);
    }
    ui
}

/// Different slots are saved under different keys.
pub proof fn slot_keys_differ(a: Slot, b: Slot)
    requires
        slot_key(a) == slot_key(b),
    ensures
        a == b,
{
    reveal_strlit(",");
    let (x, y) = (dec(a.0 as nat), dec(b.0 as nat));
    let (p, q) = (dec(a.1 as nat), dec(b.1 as nat));
    printing_can_be_read_back(a.0 as nat);
    printing_can_be_read_back(b.0 as nat);
    printing_can_be_read_back(a.1 as nat);
    printing_can_be_read_back(b.1 as nat);
    let k = slot_key(a);
    assert forall|i: int| 0 <= i < x.len() implies k[i] != ',' by {
        assert(crate::text::is_digit(x[i]));
    }
    assert forall|i: int| 0 <= i < y.len() implies slot_key(b)[i] != ',' by {
        assert(crate::text::is_digit(y[i]));
    }
    assert(k[x.len() as int] == ',');
    assert(slot_key(b)[y.len() as int] == ',');
    first_of_unique(k, ',', ',', x.len() as int);
    first_of_unique(slot_key(b), ',', ',', y.len() as int);
    assert(x.len() == y.len());
    assert(x =~= k.take(x.len() as int));
    assert(y =~= slot_key(b).take(y.len() as int));
    assert(p =~= k.skip(x.len() as int + 1));
    assert(q =~= slot_key(b).skip(y.len() as int + 1));
}

/// The entry of a panel that shares its slot with no other.
proof fn lemma_entry(cells: Seq<Cell>, n: int, ov: LabelOverride, i: int)
    requires
        0 <= i < n <= cells.len(),
        forall|a: int, b: int|
            0 <= a < b < cells.len() ==> slot_of(#[trigger] cells[a]) != slot_of(#[trigger] cells[b]),
    ensures
        visibility_map(cells, n).contains_key(slot_key(slot_of(cells[i]))),
        visibility_map(cells, n)[slot_key(slot_of(cells[i]))] == cells[i].visible,
        label_map(cells, n, ov).contains_key(slot_key(slot_of(cells[i]))),
        label_map(cells, n, ov)[slot_key(slot_of(cells[i]))] == ov.effective(cells[i].label_mode),
    decreases n,
{
    if i < n - 1 {
        lemma_entry(cells, n - 1, ov, i);
        if slot_key(slot_of(cells[i])) == slot_key(slot_of(cells[n - 1])) {
            slot_keys_differ(slot_of(cells[i]), slot_of(cells[n - 1]));
        }
    }
}

/// What is saved comes back: a panel that shares its slot with no other has, after
/// loading, the visibility it had, and the label mode that counted for it.
pub proof fn saved_switches_come_back(cells: Seq<Cell>, ui: UiState, ov: LabelOverride, i: int)
    requires
        0 <= i < cells.len(),
        forall|a: int, b: int|
            0 <= a < b < cells.len() ==> slot_of(#[trigger] cells[a]) != slot_of(#[trigger] cells[b]),
        ui.cell_visibility@ == visibility_map(cells, cells.len() as int),
        ui.cell_label_mode@ == label_map(cells, cells.len() as int, ov),
    ensures
        with_switches(cells[i], ui) == (Cell {
            label_mode: ov.effective(cells[i].label_mode),
            ..cells[i]
        }),
        ov == LabelOverride::Respect ==> with_switches(cells[i], ui) == cells[i],
{
    lemma_entry(cells, cells.len() as int, ov, i);
}

/// What is saved comes back as a whole: loading what was written for a template whose
/// panels have slots of their own gives its panels again, each with the label mode
/// that counted for it.
pub proof fn saving_and_loading_keep_the_panels(
    t: Template,
    written: Template,
    loaded: Template,
    ov: LabelOverride,
    trails: KeyMap<bool>,
    trail_frac: Num,
    view_frac: Num,
)
    requires
        forall|a: int, b: int|
            0 <= a < b < t.cells.len() ==> slot_of(#[trigger] t.cells@[a]) != slot_of(
                #[trigger] t.cells@[b],
            ),
        same_but_switches(written, t),
        written.ui_state is Some,
        captured(written.ui_state->0, t, ov, trails, trail_frac, view_frac),
        switched(written, loaded),
    ensures
        loaded.cells.len() == t.cells.len(),
        forall|i: int|
            0 <= i < t.cells.len() ==> same_cell(
                #[trigger] loaded.cells@[i],
                (Cell { label_mode: ov.effective(t.cells@[i].label_mode), ..t.cells@[i] }),
            ),
{
    assert forall|i: int| 0 <= i < t.cells.len() implies same_cell(
        #[trigger] loaded.cells@[i],
        (Cell { label_mode: ov.effective(t.cells@[i].label_mode), ..t.cells@[i] }),
    ) by {
        lemma_entry(t.cells@, t.cells.len() as int, ov, i);
        assert(same_cell(written.cells@[i], t.cells@[i]));
    }
}

} // verus!
