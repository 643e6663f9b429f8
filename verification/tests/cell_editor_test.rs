use profiler_render::template::{Grid, LabelMode, Primitive, Template};
use profiler_render::{
    add_panel_draft, apply_panel_draft, apply_trail_draft, collect_source_keys,
    first_available_slot, remove_cell_at, replace_cell_at, Num, PanelDraft, TraceStore, TrailDraft,
};

fn blank(rows: usize, cols: usize) -> Template {
    let mut t = Template::blank("fixture".to_string());
    t.grid = Grid { rows, cols };
    t
}

fn num(v: f64) -> Num {
    Num::from_bits(v.to_bits())
}

fn us(s: f64) -> i64 {
    (s * 1_000_000.0).round() as i64
}

fn empty_template() -> Template {
    blank(4, 3)
}

#[test]
fn add_panel_appends_cell_with_right_shape() {
    let mut tpl = empty_template();
    let draft = PanelDraft {
        row: 2,
        col: 1,
        primitive: Primitive::Scalar,
        title: "Altitude".into(),
        source_key: "gps_alt".into(),
        fallback: "ap_vfr_alt".into(),
        color: "#1f77b4".into(),
        label_mode: LabelMode::Data,
        ..Default::default()
    };

    apply_panel_draft(&mut tpl, &draft).expect("apply");
    assert_eq!(tpl.cells.len(), 1, "one cell appended");

    let cell = &tpl.cells[0];
    assert_eq!((cell.row, cell.col), (2, 1));
    assert_eq!(cell.title, "Altitude");
    assert_eq!(cell.primitive, Primitive::Scalar);
    assert_eq!(cell.label_mode, LabelMode::Data);
    assert!(cell.visible);
    assert_eq!(cell.sources.len(), 1);
    assert_eq!(cell.sources[0].key, "gps_alt");
    assert_eq!(cell.sources[0].fallback.as_deref(), Some("ap_vfr_alt"));
    assert_eq!(cell.sources[0].color, "#1f77b4");
}

#[test]
fn add_panel_overlay_packs_multiple_keys() {
    let mut tpl = empty_template();
    let draft = PanelDraft {
        row: 0,
        col: 0,
        primitive: Primitive::Overlay,
        source_key: "truth_pos[2]".into(),
        overlay_extra_keys: vec!["ekf_pos[2]".into(), "gps_alt".into()],
        ..Default::default()
    };
    apply_panel_draft(&mut tpl, &draft).unwrap();
    let cell = &tpl.cells[0];
    assert_eq!(cell.primitive, Primitive::Overlay);
    assert_eq!(cell.sources.len(), 3);
    let keys: Vec<&str> = cell.sources.iter().map(|s| s.key.as_str()).collect();
    assert_eq!(keys, vec!["truth_pos[2]", "ekf_pos[2]", "gps_alt"]);
}

#[test]
fn edit_panel_replaces_existing_cell_in_place() {
    let mut tpl = empty_template();
    apply_panel_draft(
        &mut tpl,
        &PanelDraft {
            row: 0,
            col: 0,
            source_key: "old".into(),
            title: "Old".into(),
            ..Default::default()
        },
    )
    .unwrap();
    assert_eq!(tpl.cells.len(), 1);

    replace_cell_at(
        &mut tpl,
        0,
        0,
        &PanelDraft {
            source_key: "new".into(),
            title: "New".into(),
            ..Default::default()
        },
    )
    .unwrap();
    assert_eq!(tpl.cells.len(), 1);
    assert_eq!(tpl.cells[0].sources[0].key, "new");
    assert_eq!(tpl.cells[0].title, "New");
}

#[test]
fn delete_panel_removes_cell_from_template() {
    let mut tpl = empty_template();
    apply_panel_draft(
        &mut tpl,
        &PanelDraft { row: 1, col: 2, source_key: "x".into(), ..Default::default() },
    )
    .unwrap();
    assert_eq!(tpl.cells.len(), 1);
    remove_cell_at(&mut tpl, 1, 2).unwrap();
    assert!(tpl.cells.is_empty());
}

#[test]
fn add_trail_appends_to_view_3d() {
    let mut tpl = empty_template();
    let draft = TrailDraft {
        name: "mine".into(),
        label: "Mine".into(),
        color: "#9467bd".into(),
        x_key: "pos_truth_ned[1]".into(),
        y_key: "pos_truth_ned[0]".into(),
        z_neg_key: "pos_truth_ned[2]".into(),
        ..Default::default()
    };
    apply_trail_draft(&mut tpl, &draft).unwrap();
    let trails = &tpl.view_3d.as_ref().unwrap().trails;
    assert_eq!(trails.len(), 1);
    assert_eq!(trails[0].name, "mine");
    let src = trails[0].sources.as_ref().unwrap();
    assert_eq!(src.x, "pos_truth_ned[1]");
}

#[test]
fn source_key_dropdown_collects_observed_keys() {
    let mut a = TraceStore::new(60_000_000);
    a.push(us(0.0), "ap_attitude[0]", num(0.0));
    a.push(us(0.0), "ap_attitude[1]", num(0.0));
    let mut b = TraceStore::new(60_000_000);
    b.push(us(0.0), "gps_alt", num(0.0));
    b.push(us(0.0), "ap_vfr_alt", num(0.0));

    let keys = collect_source_keys(&vec![&a, &b]);
    assert!(keys.contains(&"ap_attitude[0]".to_string()));
    assert!(keys.contains(&"ap_attitude[1]".to_string()));
    assert!(keys.contains(&"ap_attitude".to_string()), "base name included for vector primitives");
    assert!(keys.contains(&"gps_alt".to_string()));
    assert!(keys.contains(&"ap_vfr_alt".to_string()));
    let mut sorted = keys.clone();
    sorted.sort();
    assert_eq!(keys, sorted);
}


#[test]
fn test_add_panel_defaults_to_first_available_slot() {
    let mut tpl = blank(3, 2);
    for (r, c, k) in &[(0usize, 0usize, "a"), (0, 1, "b"), (1, 0, "c")] {
        apply_panel_draft(
            &mut tpl,
            &PanelDraft {
                row: *r,
                col: *c,
                source_key: (*k).into(),
                ..Default::default()
            },
        )
        .unwrap();
    }
    assert_eq!(first_available_slot(&tpl), (1, 1));

    let empty = empty_template();
    assert_eq!(first_available_slot(&empty), (0, 0));
}

#[test]
fn test_add_panel_rejects_occupied_slot() {
    let mut tpl = empty_template();
    apply_panel_draft(
        &mut tpl,
        &PanelDraft {
            row: 0,
            col: 0,
            source_key: "a".into(),
            ..Default::default()
        },
    )
    .unwrap();
    assert_eq!(tpl.cells.len(), 1);

    let err = add_panel_draft(
        &mut tpl,
        &PanelDraft {
            row: 0,
            col: 0,
            source_key: "b".into(),
            ..Default::default()
        },
    )
    .unwrap_err();
    assert!(
        err.contains("already exists"),
        "error mentions duplicate: {err}"
    );
    assert_eq!(tpl.cells.len(), 1, "template untouched on rejected add");
    assert_eq!(tpl.cells[0].sources[0].key, "a");
}

#[test]
fn test_add_panel_to_full_grid_appends_row() {
    let mut tpl = blank(2, 2);
    for (r, c) in &[(0usize, 0usize), (0, 1), (1, 0), (1, 1)] {
        apply_panel_draft(
            &mut tpl,
            &PanelDraft {
                row: *r,
                col: *c,
                source_key: format!("k{}{}", r, c),
                ..Default::default()
            },
        )
        .unwrap();
    }
    assert_eq!(tpl.cells.len(), 4);
    assert_eq!(tpl.grid.rows, 2);
    assert_eq!(tpl.grid.cols, 2);

    let (r, c) = first_available_slot(&tpl);
    assert_eq!((r, c), (2, 0), "full grid → points past the last row");

    add_panel_draft(
        &mut tpl,
        &PanelDraft {
            row: r,
            col: c,
            source_key: "appended".into(),
            ..Default::default()
        },
    )
    .unwrap();
    assert_eq!(tpl.cells.len(), 5);
    assert_eq!(tpl.grid.rows, 3, "grid auto-grew on submit");
    assert!(tpl
        .cells
        .iter()
        .any(|cell| (cell.row, cell.col) == (2, 0) && cell.sources[0].key == "appended"));
}
