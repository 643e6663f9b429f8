use profiler_render::label::{FormatPlan, MetaPart};
use profiler_render::startup::LabelArg;
use profiler_render::template::{Cell, CellSource, LabelData, LabelMetadata, LabelMode};
use profiler_render::{build_label_text, compute_overlay_pos, LabelOverride, LabelText, Num, TraceStore};

fn num(v: f64) -> Num {
    Num::from_bits(v.to_bits())
}

fn val(n: Num) -> f64 {
    f64::from_bits(n.to_bits())
}

fn roll_cell() -> Cell {
    Cell {
        title: "Roll".into(),
        sources: vec![CellSource { key: "roll".into(), ..Default::default() }],
        label_mode: LabelMode::Data,
        label_data: Some(LabelData { format: "{:+.2f}°".into(), show_min_max: false }),
        ..Default::default()
    }
}

fn store_with_one_point() -> TraceStore {
    let mut s = TraceStore::new(60_000_000);
    s.push(0, "roll", num(0.42));
    s
}

fn text_of(label: &LabelText) -> String {
    match label {
        LabelText::Data { value, format: FormatPlan::Number(f), .. } => {
            let (v, prec) = (val(*value), f.precision);
            let number = if f.plus { format!("{v:+.prec$}") } else { format!("{v:.prec$}") };
            f.dress(&number)
        }
        other => panic!("{other:?}"),
    }
}

#[test]
fn override_respects_cell_mode_by_default() {
    let ov = LabelOverride::default();
    assert_eq!(ov.resolve(LabelMode::Off), LabelMode::Off);
    assert_eq!(ov.resolve(LabelMode::Data), LabelMode::Data);
    assert_eq!(ov.resolve(LabelMode::Metadata), LabelMode::Metadata);
}

#[test]
fn override_force_replaces_cell_mode() {
    let force_data = LabelOverride::Force(LabelMode::Data);
    assert_eq!(force_data.resolve(LabelMode::Off), LabelMode::Data);
    assert_eq!(force_data.resolve(LabelMode::Metadata), LabelMode::Data);

    let force_off = LabelOverride::Force(LabelMode::Off);
    assert_eq!(force_off.resolve(LabelMode::Data), LabelMode::Off);
    assert_eq!(force_off.resolve(LabelMode::Metadata), LabelMode::Off);

    let force_meta = LabelOverride::Force(LabelMode::Metadata);
    assert_eq!(force_meta.resolve(LabelMode::Data), LabelMode::Metadata);
}

#[test]
fn build_label_text_returns_none_when_resolved_off() {
    let cell = roll_cell();
    let store = store_with_one_point();

    let force_off = LabelOverride::Force(LabelMode::Off);
    assert!(
        build_label_text(&cell, &store, force_off).is_none(),
        "Force(Off) must suppress every cell's overlay",
    );

    let resp = build_label_text(&cell, &store, LabelOverride::Respect);
    assert!(resp.is_some(), "Respect honours cell's `data` mode");
    let text = text_of(&resp.unwrap());
    assert!(text.contains("0.42") || text.contains("+0.42"), "got: {text:?}");
    assert_eq!(text, "+0.42°");
}

#[test]
fn data_overlay_falls_back_and_gives_the_range() {
    let mut cell = roll_cell();
    cell.sources[0].fallback = Some("roll_est".into());
    cell.label_data = Some(LabelData { format: "{}".into(), show_min_max: true });
    let mut store = TraceStore::new(60_000_000);
    assert!(build_label_text(&cell, &store, LabelOverride::Respect).is_none());
    store.push(0, "roll_est", num(3.0));
    store.push(1, "roll_est", num(-1.0));
    match build_label_text(&cell, &store, LabelOverride::Respect) {
        Some(LabelText::Data { value, range, .. }) => {
            assert_eq!(val(value), -1.0);
            assert_eq!(range.map(|(lo, hi)| (val(lo), val(hi))), Some((-1.0, 3.0)));
        }
        other => panic!("{other:?}"),
    }
}

#[test]
fn metadata_overlay_lists_its_parts() {
    let mut cell = roll_cell();
    let store = store_with_one_point();
    let force = LabelOverride::Force(LabelMode::Metadata);
    cell.label_metadata = Some(LabelMetadata {
        source_path: "ATTITUDE.roll".into(),
        units: "deg".into(),
        stream_rate_hz: Some(num(4.0)),
    });
    match build_label_text(&cell, &store, force) {
        Some(LabelText::Metadata { parts }) => {
            assert_eq!(parts.len(), 3);
            assert!(matches!(&parts[0], MetaPart::Text(t) if t.contains("ATTITUDE.roll")));
            assert!(matches!(&parts[1], MetaPart::Text(t) if t.contains("deg")));
            assert!(matches!(&parts[2], MetaPart::Rate(n) if val(*n) == 4.0));
        }
        other => panic!("{other:?}"),
    }
    cell.label_metadata = None;
    match build_label_text(&cell, &store, force) {
        Some(LabelText::Metadata { parts }) => {
            assert!(matches!(&parts[..], [MetaPart::Text(t)] if t == "roll"));
        }
        other => panic!("{other:?}"),
    }
    cell.sources.clear();
    assert!(build_label_text(&cell, &store, force).is_none());
}

#[test]
fn label_overlay_anchors_top_left() {
    let (left, top, right, bottom) = (100_i64, 50_i64, 400_i64, 250_i64);
    let text_width = 80;
    let (x, y) = compute_overlay_pos(left, top, 1);
    let (left, top, right, bottom): (i128, i128, i128, i128) =
        (left.into(), top.into(), right.into(), bottom.into());
    assert!(x < (left + right) / 2);
    assert!(y < (top + bottom) / 2);
    let old_right_anchor_x = right - text_width - 6;
    assert!(x < old_right_anchor_x);
    assert!(x >= left);
    assert!(y >= top);
    assert!((x - left).abs() < 16);
    assert!((y - top).abs() < 16);
    assert_eq!((x, y), (106, 56));
    let far = compute_overlay_pos(i64::MAX, i64::MIN, i64::MAX);
    assert_eq!(far.0, 7 * i64::MAX as i128);
}

#[test]
fn command_line_modes_become_overrides() {
    assert_eq!(LabelArg::default(), LabelArg::Off);
    assert_eq!(LabelArg::Off.to_override(), LabelOverride::Force(LabelMode::Off));
    assert_eq!(LabelArg::Data.to_override(), LabelOverride::Force(LabelMode::Data));
    assert_eq!(LabelArg::Metadata.to_override(), LabelOverride::Force(LabelMode::Metadata));
    assert_eq!(LabelArg::Template.to_override(), LabelOverride::Respect);
}
