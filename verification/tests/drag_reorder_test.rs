use profiler_render::template::{Grid, Template};
use profiler_render::{apply_panel_draft, compact_cells, relocate_cell, swap_cells, PanelDraft};

fn blank(rows: usize, cols: usize) -> Template {
    let mut t = Template::blank("fixture".to_string());
    t.grid = Grid { rows, cols };
    t
}

fn empty_template(rows: usize, cols: usize) -> Template {
    blank(rows, cols)
}

fn seed_cell(tpl: &mut Template, row: usize, col: usize, key: &str) {
    apply_panel_draft(
        tpl,
        &PanelDraft { row, col, source_key: key.into(), ..Default::default() },
    )
    .unwrap();
}

#[test]
fn drag_swap_exchanges_two_cells() {
    let mut tpl = empty_template(2, 2);
    seed_cell(&mut tpl, 0, 0, "A");
    seed_cell(&mut tpl, 0, 1, "B");
    seed_cell(&mut tpl, 1, 0, "C");
    assert_eq!(tpl.cells.len(), 3);

    swap_cells(&mut tpl, (0, 0), (1, 0)).unwrap();
    compact_cells(&mut tpl);

    assert_eq!(tpl.cells.len(), 3, "swap does not change cell count");
    let at = |r: usize, c: usize| -> Option<&str> {
        tpl.cells
            .iter()
            .find(|x| x.row == r && x.col == c)
            .and_then(|x| x.sources.first())
            .map(|s| s.key.as_str())
    };
    assert_eq!(at(0, 0), Some("C"));
    assert_eq!(at(0, 1), Some("B"));
    assert_eq!(at(1, 0), Some("A"));
}

#[test]
fn drag_move_to_empty_relocates_cell() {
    let mut tpl = empty_template(2, 2);
    seed_cell(&mut tpl, 0, 0, "A");
    seed_cell(&mut tpl, 0, 1, "B");

    relocate_cell(&mut tpl, (0, 0), (1, 1)).unwrap();

    let a = tpl
        .cells
        .iter()
        .find(|c| c.sources[0].key == "A")
        .unwrap();
    assert_eq!((a.row, a.col), (1, 1));
    let b = tpl
        .cells
        .iter()
        .find(|c| c.sources[0].key == "B")
        .unwrap();
    assert_eq!((b.row, b.col), (0, 1), "B was not moved");
}

#[test]
fn drag_relocate_to_occupied_rejects() {
    let mut tpl = empty_template(2, 2);
    seed_cell(&mut tpl, 0, 0, "A");
    seed_cell(&mut tpl, 0, 1, "B");
    let err = relocate_cell(&mut tpl, (0, 0), (0, 1)).unwrap_err();
    assert!(err.contains("occupied"), "got: {err}");
    let a = tpl.cells.iter().find(|c| c.sources[0].key == "A").unwrap();
    let b = tpl.cells.iter().find(|c| c.sources[0].key == "B").unwrap();
    assert_eq!((a.row, a.col), (0, 0));
    assert_eq!((b.row, b.col), (0, 1));
}

#[test]
fn drag_out_of_bounds_is_noop() {
    let mut tpl = empty_template(2, 2);
    seed_cell(&mut tpl, 0, 0, "A");
    seed_cell(&mut tpl, 0, 1, "B");
    let before: Vec<(usize, usize, String)> = tpl
        .cells
        .iter()
        .map(|c| (c.row, c.col, c.sources[0].key.clone()))
        .collect();
    let after: Vec<(usize, usize, String)> = tpl
        .cells
        .iter()
        .map(|c| (c.row, c.col, c.sources[0].key.clone()))
        .collect();
    assert_eq!(before, after);
}

#[test]
fn drag_swap_onto_self_is_noop() {
    let mut tpl = empty_template(2, 2);
    seed_cell(&mut tpl, 0, 0, "A");
    seed_cell(&mut tpl, 1, 1, "B");
    swap_cells(&mut tpl, (0, 0), (0, 0)).unwrap();
    let a = tpl.cells.iter().find(|c| c.sources[0].key == "A").unwrap();
    let b = tpl.cells.iter().find(|c| c.sources[0].key == "B").unwrap();
    assert_eq!((a.row, a.col), (0, 0));
    assert_eq!((b.row, b.col), (1, 1));
}

#[test]
fn swap_then_compact_preserves_grid_dims() {
    let mut tpl = empty_template(2, 2);
    seed_cell(&mut tpl, 0, 0, "A");
    seed_cell(&mut tpl, 0, 1, "B");
    seed_cell(&mut tpl, 1, 0, "C");
    seed_cell(&mut tpl, 1, 1, "D");
    swap_cells(&mut tpl, (0, 0), (1, 1)).unwrap();
    compact_cells(&mut tpl);
    assert_eq!(tpl.grid.cols, 2);
    assert_eq!(tpl.grid.rows, 2);
    assert_eq!(tpl.cells.len(), 4);
}
