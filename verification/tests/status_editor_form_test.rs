use profiler_render::template::{Grid, Primitive, StatusKind, Template};
use profiler_render::{apply_panel_draft, default_status_kind, PanelDraft, ValueShape};

fn blank(rows: usize, cols: usize) -> Template {
    let mut t = Template::blank("fixture".to_string());
    t.grid = Grid { rows, cols };
    t
}

fn empty_template() -> Template {
    blank(3, 3)
}

#[test]
fn add_panel_status_cell_threads_kind_and_color_map() {
    let mut tpl = empty_template();
    let mut draft = PanelDraft {
        row: 0,
        col: 0,
        primitive: Primitive::Status,
        title: "Mode".into(),
        source_key: "flight_mode".into(),
        status_kind: StatusKind::Text,
        status_default_color: "#aaaaaa".into(),
        ..Default::default()
    };
    draft
        .status_color_map
        .push(("GUIDED".into(), "#1f77b4".into()));
    draft
        .status_color_map
        .push(("LOITER".into(), "#2ca02c".into()));
    draft
        .status_color_map
        .push(("RTL".into(), "#d62728".into()));

    apply_panel_draft(&mut tpl, &draft).expect("apply");
    assert_eq!(tpl.cells.len(), 1);

    let cell = &tpl.cells[0];
    assert_eq!(cell.primitive, Primitive::Status);
    assert_eq!(cell.source, "flight_mode");
    assert_eq!(cell.kind, Some(StatusKind::Text));
    assert_eq!(cell.default_color.as_deref(), Some("#aaaaaa"));
    assert_eq!(cell.color_map.entries.len(), 3, "three color_map rows survive");
    assert_eq!(cell.color_map.get("GUIDED"), Some(&"#1f77b4".to_string()));
    assert_eq!(cell.color_map.get("LOITER"), Some(&"#2ca02c".to_string()));
    assert_eq!(cell.color_map.get("RTL"), Some(&"#d62728".to_string()));
}

#[test]
fn add_panel_status_cell_drops_blank_color_map_rows() {
    let mut tpl = empty_template();
    let draft = PanelDraft {
        row: 0,
        col: 0,
        primitive: Primitive::Status,
        source_key: "flight_mode".into(),
        status_kind: StatusKind::Text,
        status_color_map: vec![
            ("GUIDED".into(), "#1f77b4".into()),
            (String::new(), "#000".into()),
            ("RTL".into(), String::new()),
            ("LOITER".into(), "#2ca02c".into()),
        ],
        ..Default::default()
    };

    apply_panel_draft(&mut tpl, &draft).expect("apply");
    let cell = &tpl.cells[0];
    assert_eq!(
        cell.color_map.entries.len(),
        2,
        "blank value/color rows are dropped: {:?}",
        cell.color_map,
    );
    assert!(cell.color_map.contains_key("GUIDED"));
    assert!(cell.color_map.contains_key("LOITER"));
}

#[test]
fn add_panel_non_status_cell_has_no_status_fields() {
    let mut tpl = empty_template();
    let draft = PanelDraft {
        row: 0,
        col: 0,
        primitive: Primitive::Scalar,
        source_key: "ap_attitude[0]".into(),
        status_kind: StatusKind::ArmedBool,
        status_default_color: "#abcdef".into(),
        status_color_map: vec![("k".into(), "v".into())],
        ..Default::default()
    };
    apply_panel_draft(&mut tpl, &draft).expect("apply");
    let cell = &tpl.cells[0];
    assert_eq!(cell.primitive, Primitive::Scalar);
    assert!(
        cell.kind.is_none(),
        "non-Status cells must not carry a StatusKind: {:?}",
        cell.kind,
    );
    assert!(cell.color_map.entries.is_empty());
    assert!(cell.default_color.is_none());
    assert!(cell.source.is_empty());
}

#[test]
fn default_status_kind_picks_name_based_default() {
    assert_eq!(
        default_status_kind("armed", &ValueShape::Bool),
        Some(StatusKind::ArmedBool),
    );
    assert_eq!(
        default_status_kind("fix_type", &ValueShape::Scalar),
        Some(StatusKind::FixType),
    );
    assert_eq!(
        default_status_kind("statustexts", &ValueShape::TextLog),
        Some(StatusKind::TextLog),
    );
    assert_eq!(
        default_status_kind("any_string_key", &ValueShape::String),
        Some(StatusKind::Text),
    );
    assert_eq!(
        default_status_kind("any_bool_key", &ValueShape::Bool),
        Some(StatusKind::ArmedBool),
    );
    assert_eq!(
        default_status_kind("some_scalar", &ValueShape::Scalar),
        None,
    );
}
