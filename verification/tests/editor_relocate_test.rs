use profiler_render::template::{Grid, Template};
use profiler_render::{apply_panel_draft, replace_cell_at, PanelDraft};

fn blank(rows: usize, cols: usize) -> Template {
    let mut t = Template::blank("fixture".to_string());
    t.grid = Grid { rows, cols };
    t
}

fn empty_template() -> Template {
    blank(4, 4)
}

#[test]
fn edit_relocates_cell_when_form_row_col_changes() {
    let mut tpl = empty_template();
    apply_panel_draft(
        &mut tpl,
        &PanelDraft {
            row: 2,
            col: 1,
            source_key: "alt".into(),
            title: "Altitude".into(),
            ..Default::default()
        },
    )
    .unwrap();
    assert_eq!(tpl.cells.len(), 1);

    let draft = PanelDraft {
        row: 3,
        col: 2,
        source_key: "alt".into(),
        title: "Altitude".into(),
        ..Default::default()
    };
    replace_cell_at(&mut tpl, 2, 1, &draft).expect("relocate succeeds");

    assert_eq!(tpl.cells.len(), 1, "still one cell — moved, not duplicated");
    assert_eq!((tpl.cells[0].row, tpl.cells[0].col), (3, 2));
    assert!(
        !tpl.cells.iter().any(|c| (c.row, c.col) == (2, 1)),
        "original (2,1) slot is empty after relocation"
    );
    assert_eq!(tpl.cells[0].sources[0].key, "alt");
}

#[test]
fn relocation_onto_occupied_slot_errors_and_preserves_state() {
    let mut tpl = empty_template();
    apply_panel_draft(
        &mut tpl,
        &PanelDraft { row: 0, col: 0, source_key: "a".into(), ..Default::default() },
    )
    .unwrap();
    apply_panel_draft(
        &mut tpl,
        &PanelDraft { row: 1, col: 1, source_key: "b".into(), ..Default::default() },
    )
    .unwrap();
    assert_eq!(tpl.cells.len(), 2);

    let draft = PanelDraft {
        row: 1,
        col: 1,
        source_key: "a".into(),
        ..Default::default()
    };
    let err = replace_cell_at(&mut tpl, 0, 0, &draft).unwrap_err();
    assert!(err.contains("occupied"), "error mentions occupancy: {err}");

    assert_eq!(tpl.cells.len(), 2);
    assert!(tpl.cells.iter().any(|c| (c.row, c.col) == (0, 0) && c.sources[0].key == "a"));
    assert!(tpl.cells.iter().any(|c| (c.row, c.col) == (1, 1) && c.sources[0].key == "b"));
}

#[test]
fn pure_replace_when_form_row_col_unchanged_keeps_behaviour() {
    let mut tpl = empty_template();
    apply_panel_draft(
        &mut tpl,
        &PanelDraft {
            row: 1,
            col: 1,
            source_key: "old".into(),
            title: "Old".into(),
            ..Default::default()
        },
    )
    .unwrap();

    let draft = PanelDraft {
        row: 1,
        col: 1,
        source_key: "new".into(),
        title: "New".into(),
        ..Default::default()
    };
    replace_cell_at(&mut tpl, 1, 1, &draft).unwrap();
    assert_eq!(tpl.cells.len(), 1);
    assert_eq!((tpl.cells[0].row, tpl.cells[0].col), (1, 1));
    assert_eq!(tpl.cells[0].sources[0].key, "new");
    assert_eq!(tpl.cells[0].title, "New");
}
