use profiler_render::template::{Cell, Primitive, StatusKind};
use profiler_render::{status_cell_color, KeyMap, Num, Rgb, TextLogEntry, TraceStore};

fn num(v: f64) -> Num {
    Num::from_bits(v.to_bits())
}

fn us(s: f64) -> i64 {
    (s * 1_000_000.0).round() as i64
}

fn status_cell(
    source: &str,
    kind: StatusKind,
    color_map: &[(&str, &str)],
    default_color: Option<&str>,
) -> Cell {
    let mut cm: KeyMap<String> = KeyMap::new();
    for (k, v) in color_map {
        cm.insert((*k).to_string(), (*v).to_string());
    }
    Cell {
        primitive: Primitive::Status,
        source: source.to_string(),
        kind: Some(kind),
        color_map: cm,
        default_color: default_color.map(|s| s.to_string()),
        visible: true,
        ..Default::default()
    }
}

#[test]
fn status_e2e_three_kinds_resolve_correct_state_and_color() {
    let mut store = TraceStore::new(60_000_000);
    store.push_string(us(1.0), "flight_mode", "GUIDED");
    store.push_bool(us(1.0), "armed", true);
    store.push_text_log(
        us(1.0),
        "statustexts",
        TextLogEntry { ts: us(1.0), text: "boot complete".into(), severity: 6 },
    );
    store.push_text_log(
        us(1.0),
        "statustexts",
        TextLogEntry { ts: us(1.1), text: "EKF alignment".into(), severity: 5 },
    );
    store.push_text_log(
        us(1.0),
        "statustexts",
        TextLogEntry { ts: us(1.2), text: "PreArm: Battery low".into(), severity: 4 },
    );

    let cells = [
        status_cell(
            "flight_mode",
            StatusKind::Text,
            &[
                ("GUIDED", "#1f77b4"),
                ("LOITER", "#2ca02c"),
                ("RTL", "#d62728"),
            ],
            Some("#aaaaaa"),
        ),
        status_cell("armed", StatusKind::ArmedBool, &[], None),
        status_cell("statustexts", StatusKind::TextLog, &[], None),
    ];

    assert_eq!(
        status_cell_color(&cells[0], &store, ""),
        Rgb::from_rgb(0x1f, 0x77, 0xb4),
        "flight_mode='GUIDED' should resolve to the mapped color",
    );
    assert_eq!(
        status_cell_color(&cells[1], &store, ""),
        Rgb::from_rgb(0x2c, 0xa0, 0x2c),
        "armed=True should resolve to the green ARMED chip",
    );
    let entries = store.text_log_owned("statustexts");
    assert_eq!(entries.len(), 3, "all three statustexts arrived");
    assert_eq!(entries[2].text, "PreArm: Battery low");
    assert_eq!(entries[2].severity, 4);

    store.push_bool(us(2.0), "armed", false);
    assert_eq!(
        status_cell_color(&cells[1], &store, ""),
        Rgb::from_gray(120),
        "armed=False should drop to the gray DISARMED chip",
    );
    store.push_string(us(2.0), "flight_mode", "LOITER");
    assert_eq!(
        status_cell_color(&cells[0], &store, ""),
        Rgb::from_rgb(0x2c, 0xa0, 0x2c),
        "flight_mode='LOITER' should pick up the mapped color",
    );
    store.push_string(us(3.0), "flight_mode", "POSHOLD");
    assert_eq!(
        status_cell_color(&cells[0], &store, ""),
        Rgb::from_rgb(0xaa, 0xaa, 0xaa),
        "unmapped flight_mode falls back to the default color",
    );
}

#[test]
fn status_e2e_armed_bool_string_form_works() {
    let mut store = TraceStore::new(60_000_000);
    store.push_string(us(1.0), "armed", "True");
    let cell = status_cell("armed", StatusKind::ArmedBool, &[], None);
    assert_eq!(
        status_cell_color(&cell, &store, ""),
        Rgb::from_rgb(0x2c, 0xa0, 0x2c),
    );
}

#[test]
fn status_e2e_fix_type_resolves_per_value_color() {
    let mut store = TraceStore::new(60_000_000);
    store.push(us(1.0), "fix_type", num(3.0));
    let cell = status_cell("fix_type", StatusKind::FixType, &[], None);
    assert_eq!(
        status_cell_color(&cell, &store, ""),
        Rgb::from_rgb(0x1f, 0x77, 0xb4),
    );
    store.push(us(2.0), "fix_type", num(5.0));
    assert_eq!(
        status_cell_color(&cell, &store, ""),
        Rgb::from_rgb(0x2c, 0xa0, 0x2c),
    );
}
