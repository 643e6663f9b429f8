use profiler_render::template::{Grid, Template};
use profiler_render::{apply_panel_draft, remove_cell_at, replace_cell_at, EditHistory, PanelDraft};

fn blank(rows: usize, cols: usize) -> Template {
    let mut t = Template::blank("fixture".to_string());
    t.grid = Grid { rows, cols };
    t
}

fn empty_template() -> Template {
    blank(3, 3)
}

#[test]
fn add_then_undo_drops_the_added_cell() {
    let mut tpl = empty_template();
    let mut h = EditHistory::default();

    h.record(tpl.clone());
    apply_panel_draft(
        &mut tpl,
        &PanelDraft { row: 0, col: 0, source_key: "x".into(), ..Default::default() },
    )
    .unwrap();
    assert_eq!(tpl.cells.len(), 1);

    let prev = h.undo(tpl.clone()).expect("one entry available");
    tpl = prev;
    assert_eq!(tpl.cells.len(), 0, "undo restores pre-add state");
    assert!(h.can_redo());
}

#[test]
fn three_mutations_round_trip_through_history() {
    let mut tpl = empty_template();
    let mut h = EditHistory::default();

    h.record(tpl.clone());
    apply_panel_draft(
        &mut tpl,
        &PanelDraft { row: 0, col: 0, source_key: "x".into(), ..Default::default() },
    )
    .unwrap();
    let after_add: Vec<_> = tpl
        .cells
        .iter()
        .map(|c| (c.row, c.col, c.sources[0].key.clone()))
        .collect();

    h.record(tpl.clone());
    replace_cell_at(
        &mut tpl,
        0,
        0,
        &PanelDraft { row: 0, col: 0, source_key: "y".into(), ..Default::default() },
    )
    .unwrap();
    let after_edit: Vec<_> = tpl
        .cells
        .iter()
        .map(|c| (c.row, c.col, c.sources[0].key.clone()))
        .collect();
    assert_ne!(after_add, after_edit);

    h.record(tpl.clone());
    remove_cell_at(&mut tpl, 0, 0).unwrap();
    assert!(tpl.cells.is_empty());

    tpl = h.undo(tpl).unwrap();
    let undo1: Vec<_> = tpl
        .cells
        .iter()
        .map(|c| (c.row, c.col, c.sources[0].key.clone()))
        .collect();
    assert_eq!(undo1, after_edit, "undo 1 restores the post-edit state");

    tpl = h.undo(tpl).unwrap();
    let undo2: Vec<_> = tpl
        .cells
        .iter()
        .map(|c| (c.row, c.col, c.sources[0].key.clone()))
        .collect();
    assert_eq!(undo2, after_add, "undo 2 restores the post-add state");

    tpl = h.undo(tpl).unwrap();
    assert!(tpl.cells.is_empty(), "undo 3 restores the original empty state");
    assert!(!h.can_undo());
    assert!(h.can_redo());

    tpl = h.redo(tpl).unwrap();
    assert_eq!(tpl.cells.len(), 1);
    assert_eq!(tpl.cells[0].sources[0].key, "x");

    tpl = h.redo(tpl).unwrap();
    assert_eq!(tpl.cells[0].sources[0].key, "y");

    tpl = h.redo(tpl).unwrap();
    assert!(tpl.cells.is_empty(), "redo 3 reaches the final post-delete state");
    assert!(!h.can_redo());
}

#[test]
fn capacity_overflow_evicts_oldest() {
    let mut h = EditHistory::new(64);
    for i in 0..70 {
        let mut tpl = empty_template();
        tpl.name = format!("snapshot-{i}");
        h.record(tpl);
    }
    assert_eq!(h.past_len(), 64, "history clamped to capacity");

    let mut tpl = empty_template();
    tpl.name = "current".into();
    let mut last = None;
    for _ in 0..64 {
        tpl = h.undo(tpl).expect("entry available");
        last = Some(tpl.name.clone());
    }
    assert!(!h.can_undo(), "exactly 64 undos consume the past stack");
    assert_eq!(last.as_deref(), Some("snapshot-6"));
}

#[test]
fn record_after_undo_clears_redo_stack() {
    let mut tpl = empty_template();
    let mut h = EditHistory::default();

    h.record(tpl.clone());
    apply_panel_draft(
        &mut tpl,
        &PanelDraft { row: 0, col: 0, source_key: "x".into(), ..Default::default() },
    )
    .unwrap();
    tpl = h.undo(tpl).unwrap();
    assert!(h.can_redo());

    h.record(tpl.clone());
    apply_panel_draft(
        &mut tpl,
        &PanelDraft { row: 1, col: 1, source_key: "z".into(), ..Default::default() },
    )
    .unwrap();
    assert!(!h.can_redo(), "branching clears the redo stack");
}

#[test]
fn undo_on_empty_history_returns_none() {
    let mut h = EditHistory::default();
    let tpl = empty_template();
    assert!(h.undo(tpl).is_none());
    assert!(!h.can_undo());
    assert!(!h.can_redo());
}
