use profiler_render::template::{Grid, Primitive, Template};
use profiler_render::{
    apply_panel_draft, apply_trail_draft, collect_source_keys, remove_cell_at, replace_cell_at, Num,
    PanelDraft, TraceStore, TrailDraft,
};

fn blank(rows: usize, cols: usize) -> Template {
    let mut t = Template::blank("fixture".to_string());
    t.grid = Grid { rows, cols };
    t
}

fn num(v: f64) -> Num {
    Num::from_bits(v.to_bits())
}

fn us(s: f64) -> i64 {
    (s * 1_000_000.0).round() as i64
}

fn empty_template() -> Template {
    blank(3, 3)
}

#[test]
fn apply_panel_draft_appends_cell() {
    let mut tpl = empty_template();
    let draft = PanelDraft {
        row: 1,
        col: 2,
        primitive: Primitive::Scalar,
        title: "Roll".into(),
        source_key: "ap_attitude[0]".into(),
        color: "#1f77b4".into(),
        ..Default::default()
    };
    apply_panel_draft(&mut tpl, &draft).expect("apply");
    assert_eq!(tpl.cells.len(), 1);
    let c = &tpl.cells[0];
    assert_eq!((c.row, c.col), (1, 2));
    assert_eq!(c.primitive, Primitive::Scalar);
    assert_eq!(c.title, "Roll");
    assert_eq!(c.sources.len(), 1);
    assert_eq!(c.sources[0].key, "ap_attitude[0]");
    assert!(c.visible);
}

#[test]
fn apply_panel_draft_rejects_empty_key() {
    let mut tpl = empty_template();
    let draft = PanelDraft::default();
    let err = apply_panel_draft(&mut tpl, &draft).unwrap_err();
    assert!(err.contains("source key"));
    assert!(tpl.cells.is_empty());
}

#[test]
fn apply_panel_draft_rejects_out_of_grid() {
    let mut tpl = empty_template();
    let draft = PanelDraft {
        row: 99,
        col: 0,
        source_key: "foo".into(),
        ..Default::default()
    };
    assert!(apply_panel_draft(&mut tpl, &draft).is_err());
}

#[test]
fn apply_panel_draft_overlay_appends_extra_sources() {
    let mut tpl = empty_template();
    let draft = PanelDraft {
        row: 0,
        col: 0,
        primitive: Primitive::Overlay,
        source_key: "a".into(),
        overlay_extra_keys: vec!["b".into(), "c".into()],
        ..Default::default()
    };
    apply_panel_draft(&mut tpl, &draft).unwrap();
    let cell = &tpl.cells[0];
    assert_eq!(cell.sources.len(), 3);
    assert_eq!(cell.sources[0].key, "a");
    assert_eq!(cell.sources[1].key, "b");
    assert_eq!(cell.sources[2].key, "c");
}

#[test]
fn apply_panel_draft_diff_requires_minus() {
    let mut tpl = empty_template();
    let draft = PanelDraft {
        row: 0,
        col: 0,
        primitive: Primitive::Diff,
        source_key: "a".into(),
        ..Default::default()
    };
    assert!(apply_panel_draft(&mut tpl, &draft).is_err());
    let draft = PanelDraft {
        row: 0,
        col: 0,
        primitive: Primitive::Diff,
        source_key: "a".into(),
        minus: "b".into(),
        ..Default::default()
    };
    apply_panel_draft(&mut tpl, &draft).unwrap();
    assert_eq!(tpl.cells[0].sources[0].minus.as_deref(), Some("b"));
}

#[test]
fn remove_cell_at_drops_entry() {
    let mut tpl = empty_template();
    apply_panel_draft(
        &mut tpl,
        &PanelDraft { row: 0, col: 0, source_key: "x".into(), ..Default::default() },
    )
    .unwrap();
    assert_eq!(tpl.cells.len(), 1);
    remove_cell_at(&mut tpl, 0, 0).unwrap();
    assert!(tpl.cells.is_empty());
    assert!(remove_cell_at(&mut tpl, 0, 0).is_err());
}

#[test]
fn replace_cell_at_swaps_entry() {
    let mut tpl = empty_template();
    apply_panel_draft(
        &mut tpl,
        &PanelDraft { row: 1, col: 1, source_key: "old".into(), ..Default::default() },
    )
    .unwrap();
    replace_cell_at(
        &mut tpl,
        1,
        1,
        &PanelDraft { row: 1, col: 1, source_key: "new".into(), ..Default::default() },
    )
    .unwrap();
    assert_eq!(tpl.cells.len(), 1);
    assert_eq!(tpl.cells[0].sources[0].key, "new");
    assert_eq!((tpl.cells[0].row, tpl.cells[0].col), (1, 1));
}

#[test]
fn replace_cell_at_relocates_when_draft_has_new_row_col() {
    let mut tpl = empty_template();
    apply_panel_draft(
        &mut tpl,
        &PanelDraft { row: 2, col: 1, source_key: "moved".into(), ..Default::default() },
    )
    .unwrap();
    replace_cell_at(
        &mut tpl,
        2,
        1,
        &PanelDraft { row: 1, col: 2, source_key: "moved".into(), ..Default::default() },
    )
    .unwrap();
    assert_eq!(tpl.cells.len(), 1);
    assert_eq!((tpl.cells[0].row, tpl.cells[0].col), (1, 2));
    assert!(
        !tpl.cells.iter().any(|c| (c.row, c.col) == (2, 1)),
        "original slot is empty after a relocation"
    );
}

#[test]
fn replace_cell_at_rejects_relocation_to_occupied_slot() {
    let mut tpl = empty_template();
    apply_panel_draft(
        &mut tpl,
        &PanelDraft { row: 0, col: 0, source_key: "a".into(), ..Default::default() },
    )
    .unwrap();
    apply_panel_draft(
        &mut tpl,
        &PanelDraft { row: 1, col: 1, source_key: "b".into(), ..Default::default() },
    )
    .unwrap();
    let err = replace_cell_at(
        &mut tpl,
        0,
        0,
        &PanelDraft { row: 1, col: 1, source_key: "a".into(), ..Default::default() },
    )
    .unwrap_err();
    assert!(
        err.contains("occupied"),
        "error message mentions occupancy: {err}"
    );
    assert_eq!(tpl.cells.len(), 2);
}

#[test]
fn apply_trail_draft_appends_to_view_3d() {
    let mut tpl = empty_template();
    let draft = TrailDraft {
        name: "mine".into(),
        label: "Mine".into(),
        color: "#9467bd".into(),
        use_deadreckon: false,
        x_key: "pos_truth_ned[1]".into(),
        y_key: "pos_truth_ned[0]".into(),
        z_neg_key: "pos_truth_ned[2]".into(),
        ..Default::default()
    };
    apply_trail_draft(&mut tpl, &draft).unwrap();
    let v = tpl.view_3d.as_ref().expect("view_3d created");
    assert_eq!(v.trails.len(), 1);
    let t = &v.trails[0];
    assert_eq!(t.name, "mine");
    let s = t.sources.as_ref().unwrap();
    assert_eq!(s.x, "pos_truth_ned[1]");
    assert!(t.deadreckon.is_none());
}

#[test]
fn apply_trail_draft_deadreckon_branch() {
    let mut tpl = empty_template();
    let draft = TrailDraft {
        name: "dr".into(),
        use_deadreckon: true,
        accel_key: "accel".into(),
        quat_key: "quat_wxyz".into(),
        seed_key: "pos_truth_ned".into(),
        ..Default::default()
    };
    apply_trail_draft(&mut tpl, &draft).unwrap();
    let dr = &tpl.view_3d.as_ref().unwrap().trails[0];
    let dk = dr.deadreckon.as_ref().unwrap();
    assert_eq!(dk.accel, "accel");
    assert!(dr.sources.is_none());
}

#[test]
fn apply_trail_draft_rejects_missing_keys() {
    let mut tpl = empty_template();
    let draft = TrailDraft { name: "x".into(), ..Default::default() };
    assert!(apply_trail_draft(&mut tpl, &draft).is_err());
}

#[test]
fn collect_source_keys_includes_bases() {
    let mut s = TraceStore::new(60_000_000);
    s.push(us(0.0), "ap_attitude[0]", num(0.0));
    s.push(us(0.0), "ap_attitude[1]", num(0.0));
    s.push(us(0.0), "gps_alt", num(0.0));
    let keys = collect_source_keys(&vec![&s]);
    assert!(keys.contains(&"ap_attitude[0]".to_string()));
    assert!(keys.contains(&"ap_attitude[1]".to_string()));
    assert!(keys.contains(&"ap_attitude".to_string()), "vector base included");
    assert!(keys.contains(&"gps_alt".to_string()));
}