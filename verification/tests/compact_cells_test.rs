use profiler_render::layout::arrange;
use profiler_render::template::{Grid, Template};
use profiler_render::{apply_panel_draft, compact_cells, remove_cell_at, PanelDraft, SlotMap};

fn blank(rows: usize, cols: usize) -> Template {
    let mut t = Template::blank("fixture".to_string());
    t.grid = Grid { rows, cols };
    t
}

fn empty_template(rows: usize, cols: usize) -> Template {
    blank(rows, cols)
}

fn seed_cell(tpl: &mut Template, row: usize, col: usize, key: &str) {
    apply_panel_draft(
        tpl,
        &PanelDraft {
            row,
            col,
            source_key: key.into(),
            ..Default::default()
        },
    )
    .unwrap_or_else(|e| panic!("seed ({row}, {col}) failed: {e}"));
}

#[test]
fn delete_middle_reflows_remaining_three_into_first_row() {
    let mut tpl = empty_template(3, 3);
    seed_cell(&mut tpl, 0, 0, "a");
    seed_cell(&mut tpl, 0, 2, "b");
    seed_cell(&mut tpl, 1, 1, "c");
    seed_cell(&mut tpl, 2, 0, "d");

    assert_eq!(tpl.cells.len(), 4);

    remove_cell_at(&mut tpl, 0, 2).unwrap();
    compact_cells(&mut tpl);

    assert_eq!(tpl.cells.len(), 3, "delete dropped one cell");
    let mut coords: Vec<(usize, usize)> = tpl.cells.iter().map(|c| (c.row, c.col)).collect();
    coords.sort();
    assert_eq!(coords, vec![(0, 0), (0, 1), (0, 2)]);
    assert_eq!(tpl.grid.rows, 1, "grid shrinks to fit the survivors");
    assert_eq!(tpl.grid.cols, 3, "cols preserved across reflow");

    let keys: Vec<&str> = tpl
        .cells
        .iter()
        .map(|c| c.sources[0].key.as_str())
        .collect();
    assert_eq!(keys, vec!["a", "c", "d"]);
}

#[test]
fn hide_one_of_five_reflows_visible_cells_to_fill_gap() {
    let mut tpl = empty_template(2, 3);
    seed_cell(&mut tpl, 0, 0, "a");
    seed_cell(&mut tpl, 0, 1, "b");
    seed_cell(&mut tpl, 0, 2, "c");
    seed_cell(&mut tpl, 1, 0, "d");
    seed_cell(&mut tpl, 1, 1, "e");

    let mut visibility: SlotMap<bool> = SlotMap::new();
    visibility.insert((0, 1), false);

    let cols = tpl.grid.cols;
    let arranged = arrange(&tpl, &visibility, true, 1600);
    assert_eq!(arranged.cols, cols);
    let visible: Vec<usize> = arranged.at.iter().filter_map(|c| *c).collect();
    assert_eq!(visible.len(), 4, "hide drops one visible cell");

    let packed: Vec<(usize, usize, &str)> = visible
        .iter()
        .enumerate()
        .map(|(i, c)| (i / cols, i % cols, tpl.cells[*c].sources[0].key.as_str()))
        .collect();
    assert_eq!(
        packed,
        vec![(0, 0, "a"), (0, 1, "c"), (0, 2, "d"), (1, 0, "e")],
        "visible cells reflow top-to-bottom, left-to-right; the hidden 'b' \
         slot disappears"
    );

    assert_eq!(tpl.cells.len(), 5, "template still owns all 5 cells");
    let b = tpl.cells.iter().find(|c| c.sources[0].key == "b").unwrap();
    assert_eq!((b.row, b.col), (0, 1), "hidden cell keeps its original slot");
}

#[test]
fn compact_cells_is_idempotent() {
    let mut tpl = empty_template(4, 2);
    seed_cell(&mut tpl, 0, 0, "a");
    seed_cell(&mut tpl, 2, 1, "b");
    seed_cell(&mut tpl, 3, 0, "c");

    compact_cells(&mut tpl);
    let once: Vec<(usize, usize, String)> = tpl
        .cells
        .iter()
        .map(|c| (c.row, c.col, c.sources[0].key.clone()))
        .collect();
    let rows_once = tpl.grid.rows;

    compact_cells(&mut tpl);
    let twice: Vec<(usize, usize, String)> = tpl
        .cells
        .iter()
        .map(|c| (c.row, c.col, c.sources[0].key.clone()))
        .collect();
    assert_eq!(once, twice);
    assert_eq!(rows_once, tpl.grid.rows);
}

#[test]
fn compact_cells_handles_empty_template() {
    let mut tpl = empty_template(5, 3);
    compact_cells(&mut tpl);
    assert!(tpl.cells.is_empty());
    assert_eq!(tpl.grid.rows, 1, "rows clamp to at-least-1 when empty");
    assert_eq!(tpl.grid.cols, 3);
}

#[test]
fn compact_cells_preserves_cols() {
    let mut tpl = empty_template(3, 4);
    seed_cell(&mut tpl, 0, 0, "a");
    seed_cell(&mut tpl, 1, 2, "b");
    remove_cell_at(&mut tpl, 0, 0).unwrap();
    compact_cells(&mut tpl);
    assert_eq!(tpl.grid.cols, 4);
    assert_eq!(tpl.cells.len(), 1);
    assert_eq!((tpl.cells[0].row, tpl.cells[0].col), (0, 0));
}
