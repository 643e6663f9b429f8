use profiler_render::layout::{
    arrange, compute_layout, drop_action, is_paintable, next_locked, snap_target, Area, PlotInput,
    Window, BANNER_H, MIN_SLOT_H, SUBPX,
};
use profiler_render::template::{Cell, CellSource, Grid, Primitive, Section, Template};
use profiler_render::{
    layout_cell_rects, responsive_cell_rects, responsive_grid_dims, CellMenuAction, SlotMap,
    RESPONSIVE_3D_COLLAPSE_W, RESPONSIVE_MIN_CELL_W, RESPONSIVE_SINGLE_COL_W,
};

fn hvn_default() -> Template {
    let mut t = Template::blank("hvn-default".to_string());
    t.grid = Grid { rows: 7, cols: 3 };
    for i in 0..21 {
        t.cells.push(Cell {
            row: i / 3,
            col: i % 3,
            title: format!("p{i}"),
            visible: i != 17,
            ..Default::default()
        });
    }
    t.sections.push(Section { label: "Truth".into(), anchor_row: 0, color: "C0".into() });
    t.sections.push(Section { label: "Estimate".into(), anchor_row: 4, color: "C1".into() });
    t
}

fn window(w: i64, h: i64) -> Window {
    Window { x: 0, y: 0, w: w * SUBPX, h: h * SUBPX }
}

fn assert_no_overlap(rects: &[Area]) {
    for i in 0..rects.len() {
        for j in (i + 1)..rects.len() {
            let (a, b) = (rects[i], rects[j]);
            let w = (a.x + a.w).min(b.x + b.w) - a.x.max(b.x);
            let h = (a.y + a.h).min(b.y + b.h) - a.y.max(b.y);
            assert!(!(w > 0 && h > 0), "rects {i} ({a:?}) and {j} ({b:?}) overlap");
        }
    }
}

#[test]
fn hvn_default_cells_do_not_overlap_at_1600x900() {
    let tpl = hvn_default();
    let rects = layout_cell_rects(&tpl, window(1600, 900));
    assert_eq!(rects.len(), tpl.grid.rows * tpl.grid.cols, "rect count matches grid");
    assert_no_overlap(&rects);
}

#[test]
fn hvn_default_cells_do_not_overlap_across_resize_range() {
    let sizes = [(800, 600), (1024, 768), (1280, 900), (1600, 900), (1920, 1080), (2560, 1440)];
    let tpl = hvn_default();
    for (w, h) in sizes {
        let rects = layout_cell_rects(&tpl, window(w, h));
        assert_no_overlap(&rects);
    }
}

#[test]
fn cells_are_inside_the_window_rect() {
    let tpl = hvn_default();
    let win = window(1280, 900);
    let rects = layout_cell_rects(&tpl, win);
    for (i, r) in rects.iter().enumerate() {
        assert!(r.x >= win.x.into() && r.y >= win.y.into(), "cell {i} {r:?} escapes the window");
        assert!(r.x + r.w <= (win.x + win.w).into(), "cell {i} {r:?} escapes the window");
    }
}

#[test]
fn cell_count_matches_grid_dimensions() {
    let tpl = hvn_default();
    let rects = layout_cell_rects(&tpl, window(1600, 900));
    assert_eq!(rects.len(), 21);
}

#[test]
fn row_major_order_x_then_y() {
    let tpl = hvn_default();
    let rects = layout_cell_rects(&tpl, window(1500, 700));
    let cols = tpl.grid.cols;
    assert!(rects[0].x < rects[1].x);
    assert!(rects[1].x < rects[2].x);
    assert!(rects[cols].x < rects[1].x);
    assert!(rects[cols].y > rects[0].y);
}

#[test]
fn responsive_constants_are_sane() {
    const _: () = assert!(RESPONSIVE_3D_COLLAPSE_W > RESPONSIVE_SINGLE_COL_W);
    const _: () = assert!(RESPONSIVE_MIN_CELL_W > 0);
}

#[test]
fn wide_window_keeps_declared_columns() {
    let (rows, cols) = responsive_grid_dims(1600, 21, 3);
    assert_eq!((rows, cols), (7, 3));

    let tpl = hvn_default();
    let (r, c, rects) = responsive_cell_rects(&tpl, window(1600, 900));
    assert_eq!((r, c), (7, 3));
    assert_eq!(rects.len(), 21);
    assert_no_overlap(&rects);
}

#[test]
fn mid_width_halves_columns() {
    let (_, cols) = responsive_grid_dims(800, 21, 3);
    assert_eq!(cols, 3, "800 / 3 = 266 px >= 240");

    let (_, cols) = responsive_grid_dims(700, 21, 3);
    assert!(cols <= 2, "narrow window must reduce cols from 3, got {cols}");

    let (rows, cols) = responsive_grid_dims(800, 18, 6);
    assert_eq!(cols, 3);
    assert_eq!(rows, 6);

    let tpl = hvn_default();
    for w in [800, 720, 640, 560] {
        let (_, _, rects) = responsive_cell_rects(&tpl, window(w, 900));
        assert_no_overlap(&rects);
    }
}

#[test]
fn very_narrow_collapses_to_single_column() {
    const _: () = assert!(400 < RESPONSIVE_SINGLE_COL_W);
    let (rows, cols) = responsive_grid_dims(400, 21, 3);
    assert_eq!(cols, 1);
    assert_eq!(rows, 21);

    let tpl = hvn_default();
    let (r, c, rects) = responsive_cell_rects(&tpl, window(400, 900));
    assert_eq!(c, 1, "narrow → single column");
    let visible_count = tpl.cells.iter().filter(|cell| cell.visible).count();
    assert_eq!(r, visible_count.max(1));
    assert_eq!(rects.len(), r * c);
    assert_no_overlap(&rects);
}

#[test]
fn cells_do_not_overlap_across_resize_sweep() {
    let tpl = hvn_default();
    for w in (300..=2000).step_by(50) {
        let win = window(w, 900);
        let (_, _, rects) = responsive_cell_rects(&tpl, win);
        assert_no_overlap(&rects);
        for (i, r) in rects.iter().enumerate() {
            assert!(r.x >= win.x.into(), "cell {i} left {} escapes window at w={w}", r.x);
            assert!(r.x + r.w <= (win.x + win.w).into(), "cell {i} {r:?} escapes the window at w={w}");
        }
    }
}

#[test]
fn empty_grid_does_not_panic() {
    let (rows, cols) = responsive_grid_dims(1200, 0, 3);
    assert_eq!((rows, cols), (1, 3));
    let (rows, cols) = responsive_grid_dims(300, 0, 3);
    assert_eq!((rows, cols), (1, 1));
}

#[test]
fn column_count_changes_at_the_exact_widths() {
    assert_eq!(responsive_grid_dims(480, 2, 2), (1, 2));
    assert_eq!(responsive_grid_dims(479, 2, 2), (2, 1));
    assert_eq!(responsive_grid_dims(720, 6, 3), (2, 3));
    assert_eq!(responsive_grid_dims(719, 6, 3), (6, 1));
    assert_eq!(responsive_grid_dims(900, 5, 0), (5, 1));
}

#[test]
fn banners_stand_above_their_rows() {
    let tpl = hvn_default();
    let l = compute_layout(window(1280, 900), 7, 3, &tpl.sections);
    assert_eq!(l.banners.len(), 2);
    for (index, band) in &l.banners {
        let row = tpl.sections[*index].anchor_row;
        for c in 0..3 {
            let slot = l.cell_rect(row, c);
            assert!(band.y + band.h <= slot.y);
        }
        if row > 0 {
            let above = l.cell_rect(row - 1, 0);
            assert!(above.y + above.h <= band.y);
        }
    }
}

#[test]
fn hidden_panels_leave_no_gap_in_compact_mode() {
    let tpl = hvn_default();
    let mut visibility: SlotMap<bool> = SlotMap::new();
    visibility.insert((0, 1), false);
    let a = arrange(&tpl, &visibility, true, 1600);
    assert_eq!((a.rows, a.cols), (7, 3));
    let shown: Vec<usize> = a.at.iter().flatten().copied().collect();
    assert_eq!(shown.len(), 19);
    assert_eq!(&shown[..3], &[0, 2, 3]);
    assert!(a.at[..19].iter().all(|p| p.is_some()));
}

#[test]
fn dragged_panel_snaps_and_drops() {
    let tpl = hvn_default();
    let a = arrange(&tpl, &SlotMap::new(), false, 1600);
    let l = compute_layout(window(1600, 900), a.rows, a.cols, &tpl.sections);
    let slot = l.cell_rect(2, 1);
    let center = ((slot.x + slot.w / 2) as i64, (slot.y + slot.h / 2) as i64);
    assert_eq!(snap_target(&l, (0, 0), center, center), Some((2, 1)));
    let outside = ((slot.x - 4 * l.total.w) as i64, slot.y as i64);
    assert_eq!(snap_target(&l, (0, 0), center, outside), None);
    assert_eq!(
        drop_action(&tpl, &a, (0, 0), (2, 1)),
        CellMenuAction::SwapTo { from: (0, 0), to: (2, 1) },
    );
    let mut short = hvn_default();
    short.cells.truncate(5);
    let b = arrange(&short, &SlotMap::new(), false, 1600);
    assert_eq!(
        drop_action(&short, &b, (0, 0), (6, 2)),
        CellMenuAction::MoveTo { from: (0, 0), to: (6, 2) },
    );
}

#[test]
fn only_shown_panels_are_painted() {
    let mut c = Cell { visible: true, primitive: Primitive::Scalar, ..Default::default() };
    assert!(!is_paintable(&c));
    c.sources.push(CellSource::default());
    assert!(is_paintable(&c));
    c.visible = false;
    assert!(!is_paintable(&c));
    c.sources.clear();
    c.visible = true;
    c.primitive = Primitive::InfoText;
    assert!(is_paintable(&c));
    c.primitive = Primitive::Status;
    assert!(is_paintable(&c));
}

#[test]
fn touching_a_plot_locks_its_view() {
    let still = PlotInput { double_clicked: false, dragged: false, clicked: false, scrolled: false };
    let dragged = PlotInput { dragged: true, ..still };
    let double = PlotInput { double_clicked: true, clicked: true, ..still };
    assert!(!next_locked(false, true, still));
    assert!(next_locked(true, true, still));
    assert!(next_locked(false, true, dragged));
    assert!(!next_locked(false, false, dragged));
    assert!(!next_locked(true, true, double));
    assert!(next_locked(true, false, double));
}

#[test]
fn layouts_have_no_largest_size() {
    let sections: Vec<Section> = (0..2_000)
        .map(|_| Section { label: "s".into(), anchor_row: 0, color: String::new() })
        .collect();
    let l = compute_layout(Window { x: i64::MIN, y: i64::MAX, w: -1, h: 0 }, 1, usize::MAX, &sections);
    assert_eq!(l.banners.len(), 2_000);
    assert_eq!(l.total.h, MIN_SLOT_H + 2_000 * BANNER_H);
    let (first, last) = (l.cell_rect(0, 0), l.cell_rect(0, usize::MAX - 1));
    assert!(first.w > 0 && first.w == last.w);
    assert!(last.x + last.w < l.total.x + l.total.w);
    let wide = compute_layout(window(1600, 900), 1, 3, &Vec::new());
    assert_eq!(snap_target(&wide, (0, 0), (i64::MIN, i64::MAX), (0, 0)), Some((0, 1)));
}
