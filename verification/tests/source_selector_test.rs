use profiler_render::template::{Grid, Primitive, Template};
use profiler_render::{apply_panel_draft, PanelDraft};

fn blank(rows: usize, cols: usize) -> Template {
    let mut t = Template::blank("fixture".to_string());
    t.grid = Grid { rows, cols };
    t
}

fn empty_template() -> Template {
    blank(3, 3)
}

#[test]
fn apply_panel_draft_stamps_source_uri_when_pinned() {
    let mut tpl = empty_template();
    let draft = PanelDraft {
        row: 0,
        col: 0,
        primitive: Primitive::Scalar,
        source_key: "ap_attitude[0]".into(),
        source_uri: "zmq://127.0.0.1:9005".into(),
        ..Default::default()
    };
    apply_panel_draft(&mut tpl, &draft).expect("apply");
    assert_eq!(tpl.cells.len(), 1);
    let cell = &tpl.cells[0];
    assert_eq!(cell.sources.len(), 1);
    assert_eq!(cell.sources[0].key, "ap_attitude[0]");
    assert_eq!(
        cell.sources[0].source_uri.as_deref(),
        Some("zmq://127.0.0.1:9005"),
        "non-empty draft source_uri stamps onto CellSource",
    );
}

#[test]
fn apply_panel_draft_leaves_source_uri_none_for_any() {
    let mut tpl = empty_template();
    let draft = PanelDraft {
        row: 1,
        col: 0,
        primitive: Primitive::Scalar,
        source_key: "ap_vfr_alt".into(),
        source_uri: String::new(),
        ..Default::default()
    };
    apply_panel_draft(&mut tpl, &draft).expect("apply");
    assert!(
        tpl.cells[0].sources[0].source_uri.is_none(),
        "empty draft.source_uri => CellSource.source_uri = None",
    );
}

#[test]
fn apply_panel_draft_strips_whitespace_from_source_uri() {
    let mut tpl = empty_template();
    let draft = PanelDraft {
        row: 0,
        col: 0,
        source_key: "x".into(),
        source_uri: "  zmq://127.0.0.1:9006  ".into(),
        ..Default::default()
    };
    apply_panel_draft(&mut tpl, &draft).expect("apply");
    assert_eq!(
        tpl.cells[0].sources[0].source_uri.as_deref(),
        Some("zmq://127.0.0.1:9006"),
    );
}

#[test]
fn overlay_extras_inherit_source_uri_pin() {
    let mut tpl = empty_template();
    let draft = PanelDraft {
        row: 0,
        col: 0,
        primitive: Primitive::Overlay,
        source_key: "pos_truth_ned[0]".into(),
        source_uri: "zmq://127.0.0.1:9005".into(),
        overlay_extra_keys: vec!["pos_ekf_ned[0]".into(), "pos_gps_ned[0]".into()],
        ..Default::default()
    };
    apply_panel_draft(&mut tpl, &draft).expect("apply");
    let cell = &tpl.cells[0];
    assert_eq!(cell.sources.len(), 3, "primary + 2 extras");
    for src in &cell.sources {
        assert_eq!(
            src.source_uri.as_deref(),
            Some("zmq://127.0.0.1:9005"),
            "every overlay entry inherits the cell's source_uri",
        );
    }
}

