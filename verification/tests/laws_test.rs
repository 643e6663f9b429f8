use profiler_render::editor::MAX_GRID_DIM;
use profiler_render::keys::{freshness_look, is_observed, picker_sections};
use profiler_render::order::at_or_before;
use profiler_render::status::{status_body, StatusBody};
use profiler_render::template::{Cell, CellSource, Grid, Primitive, StatusKind, Template};
use profiler_render::text::{
    comes_before, contains, decimal, decimal_int, ends_with, is_blank, join, parse_unsigned, rfind,
    split_on, starts_with, trim, NumberError,
};
use profiler_render::{
    add_panel_draft, classify_key, collect_source_keys, compact_cells, decode_ekf_flags, first_available_slot,
    group_source_keys, known_value_shape, panel_draft_from_cell, relocate_cell, remove_cell_at,
    replace_cell_at, split_keeping_spaces, status_cell_color, swap_cells, EditHistory,
    KeyFreshness, KeyMap, Num, PanelDraft, PickerTypeFilter, Rgb, StoresView, TraceStore,
    KEY_GROUPS, KNOWN_HVN_SITL_KEYS,
};

fn num(v: f64) -> Num {
    Num::from_bits(v.to_bits())
}

fn titled(row: usize, col: usize, title: &str) -> Cell {
    Cell {
        row,
        col,
        title: title.into(),
        sources: vec![CellSource { key: title.into(), ..Default::default() }],
        visible: true,
        ..Default::default()
    }
}

fn template(rows: usize, cols: usize, cells: Vec<Cell>) -> Template {
    let mut t = Template::blank("t".to_string());
    t.grid = Grid { rows, cols };
    t.cells = cells;
    t
}

fn places(t: &Template) -> Vec<(String, usize, usize)> {
    t.cells.iter().map(|c| (c.title.clone(), c.row, c.col)).collect()
}

#[test]
fn trimming_twice_changes_nothing() {
    for s in ["  a b \n", "", " \t ", "\u{3000}x\u{a0}", "plain"] {
        assert_eq!(trim(s), s.trim());
        assert_eq!(trim(trim(s)), trim(s));
        assert_eq!(is_blank(s), s.trim().is_empty());
    }
}

#[test]
fn splitting_loses_nothing() {
    for s in ["a,b,,c", "", ",", "abc", "ä,ö"] {
        let parts = split_on(s, ',');
        assert_eq!(parts, s.split(',').collect::<Vec<_>>());
        assert_eq!(join(&parts, ","), s);
    }
}

#[test]
fn alphabetical_order_is_that_of_the_characters() {
    let words = ["", "a", "aa", "ab", "b", "z", "é", "€", "👋"];
    for (i, a) in words.iter().enumerate() {
        for (j, b) in words.iter().enumerate() {
            assert_eq!(comes_before(a, b), i < j);
        }
    }
}

#[test]
fn printed_numbers_can_be_read_back() {
    for n in [0, 7, 10, 255, 1_000_000, u64::MAX] {
        assert_eq!(decimal(n), n.to_string());
        assert_eq!(parse_unsigned(&decimal(n), u64::MAX), Ok(n));
    }
    assert_eq!(parse_unsigned("+12", 255), Ok(12));
    assert_eq!(parse_unsigned("256", 255), Err(NumberError::TooLarge));
    assert_eq!(parse_unsigned("", 255), Err(NumberError::Empty));
    assert_eq!(parse_unsigned("+", 255), Err(NumberError::InvalidDigit));
    assert_eq!(parse_unsigned("1 ", 255), Err(NumberError::InvalidDigit));
    assert_eq!(decimal_int(i64::MIN), i64::MIN.to_string());
    assert_eq!(decimal_int(-40), "-40");
    assert_eq!(decimal_int(40), "40");
}

#[test]
fn parts_of_texts_are_found() {
    assert!(starts_with("zmq://x", "zmq://"));
    assert!(!starts_with("zm", "zmq://"));
    assert!(ends_with("key[0]", "]"));
    assert!(contains("abcab", "cab"));
    assert!(!contains("abcab", "cac"));
    assert!(contains("", ""));
    assert_eq!(rfind("a[b[", '['), Some(3));
    assert_eq!(rfind("ab", '['), None);
}

#[test]
fn maps_keep_their_keys_in_order() {
    let mut m: KeyMap<i32> = KeyMap::new();
    for (k, v) in [("b", 1), ("a", 2), ("c", 3), ("a", 4)] {
        m.insert(k.to_string(), v);
    }
    assert_eq!(m.keys(), vec!["a", "b", "c"]);
    assert_eq!(m.get("a"), Some(&4));
    assert_eq!(m.remove("b"), Some(1));
    assert_eq!(m.remove("b"), None);
    assert_eq!(m.keys(), vec!["a", "c"]);
    assert!(at_or_before((0, 5), (1, 0)) && at_or_before((1, 0), (1, 0)));
    assert!(!at_or_before((1, 1), (1, 0)));
}

#[test]
fn words_order_as_their_numbers() {
    let values = [f64::NEG_INFINITY, -2.5, -0.0, 0.0, 5e-324, 0.5, 1.0, f64::MAX, f64::INFINITY];
    for a in values {
        for b in values {
            assert_eq!(num(a).is_below(num(b)), a < b, "{a} {b}");
        }
        assert!(!num(a).is_below(num(f64::NAN)));
        assert!(!num(f64::NAN).is_below(num(a)));
        assert_eq!(num(a).negated(), num(-a));
        assert_eq!(num(a).is_finite(), a.is_finite());
        assert_eq!(num(a).above_half(), a.abs() > 0.5);
        assert_eq!(num(a).flag_bits(), if a.is_finite() && a >= 0.0 { a as u32 } else { 0 });
    }
    assert!(num(f64::NAN).is_nan());
    assert_eq!(num(2.0).clamp(num(0.0), num(1.0)), num(1.0));
    assert_eq!(num(-2.0).clamp(num(0.0), num(1.0)), num(0.0));
    assert_eq!(num(0.25).clamp(num(0.0), num(1.0)), num(0.25));
}

#[test]
fn words_round_as_their_numbers() {
    for v in [
        0.0, -0.0, 0.49999999999999994, 0.5, -0.5, 1.5, 2.5, -2.5, 3.0, 1e9 + 0.5, -1e17, 1e19, -1e19,
        f64::NAN, f64::INFINITY, 4503599627370497.5,
    ] {
        assert_eq!(num(v).round_to_i64(), v.round() as i64, "{v}");
    }
}

#[test]
fn compaction_keeps_the_panels_and_settles() {
    let mut hidden = titled(2, 0, "h");
    hidden.visible = false;
    let cells = vec![titled(3, 1, "b"), titled(0, 1, "a"), hidden, titled(3, 2, "c")];
    let mut t = template(4, 3, cells);
    compact_cells(&mut t);
    let once = places(&t);
    compact_cells(&mut t);
    assert_eq!(places(&t), once);
    let mut names: Vec<String> = once.into_iter().map(|p| p.0).collect();
    names.sort();
    assert_eq!(names, vec!["a", "b", "c", "h"]);
}

#[test]
fn exchanging_twice_restores() {
    let mut t = template(2, 2, vec![titled(0, 0, "a"), titled(1, 1, "b")]);
    let before = places(&t);
    swap_cells(&mut t, (0, 0), (1, 1)).unwrap();
    assert_ne!(places(&t), before);
    swap_cells(&mut t, (0, 0), (1, 1)).unwrap();
    assert_eq!(places(&t), before);
    assert!(swap_cells(&mut t, (0, 0), (0, 1)).is_err());
}

#[test]
fn first_free_slot_can_be_taken() {
    let mut t = template(1, 2, vec![titled(0, 0, "a")]);
    for expected in [(0, 1), (1, 0), (1, 1)] {
        let (row, col) = first_available_slot(&t);
        assert_eq!((row, col), expected);
        let d = PanelDraft { row, col, source_key: "k".into(), ..Default::default() };
        add_panel_draft(&mut t, &d).unwrap();
    }
    assert_eq!(t.grid.rows, 2);
    let far = PanelDraft { row: MAX_GRID_DIM, source_key: "k".into(), ..Default::default() };
    assert!(add_panel_draft(&mut t, &far).unwrap_err().contains("exceeds maximum grid dimension"));
    let wide = PanelDraft { col: 70, row: 9, source_key: "k".into(), ..Default::default() };
    assert_eq!(
        add_panel_draft(&mut t, &wide).unwrap_err(),
        "col 70 exceeds maximum grid dimension (64)",
    );
    let taken = PanelDraft { source_key: "k".into(), ..Default::default() };
    assert_eq!(
        add_panel_draft(&mut t, &taken).unwrap_err(),
        "Panel already exists at (0,0); pick a different slot or delete the existing one first",
    );
}

#[test]
fn editing_without_a_change_keeps_the_panel() {
    let mut t = template(2, 2, vec![]);
    let d = PanelDraft {
        row: 1,
        col: 1,
        primitive: Primitive::Diff,
        title: "d".into(),
        source_key: "a".into(),
        minus: "b".into(),
        fallback: "c".into(),
        color: "#010203".into(),
        source_uri: "zmq://x".into(),
        source_drone: "eric".into(),
        ..Default::default()
    };
    add_panel_draft(&mut t, &d).unwrap();
    let before = format!("{:?}", t.cells[0]);
    let again = panel_draft_from_cell(&t.cells[0]);
    replace_cell_at(&mut t, 1, 1, &again).unwrap();
    assert_eq!(format!("{:?}", t.cells[0]), before);
}

#[test]
fn going_back_and_forth_returns() {
    let mut h = EditHistory::new(2);
    for name in ["1", "2", "3"] {
        h.record(Template::blank(name.to_string()));
    }
    assert_eq!(h.past_len(), 2);
    let back = h.undo(Template::blank("4".to_string())).unwrap();
    assert_eq!(back.name, "3");
    assert!(h.can_redo() && h.can_undo());
    let forth = h.redo(back).unwrap();
    assert_eq!(forth.name, "4");
    assert_eq!((h.past_len(), h.future_len()), (2, 0));
    assert!(h.redo(forth).is_none());
}

#[test]
fn drone_pin_wins_over_the_source() {
    let mut stores: KeyMap<TraceStore> = KeyMap::new();
    for (name, v) in [("a", 1.0), ("b", 2.0), ("c", 3.0)] {
        let mut s = TraceStore::default();
        s.push(0, "k", num(v));
        stores.insert(name.to_string(), s);
    }
    let mut uris: KeyMap<String> = KeyMap::new();
    uris.insert("zmq://b".to_string(), "b".to_string());
    let empty = TraceStore::default();
    let view = StoresView::multi(&stores, &uris, "a", &empty);
    let read = |drone: Option<&str>, uri: Option<&str>| {
        let src = CellSource {
            key: "k".into(),
            source_drone: drone.map(|s| s.to_string()),
            source_uri: uri.map(|s| s.to_string()),
            ..Default::default()
        };
        view.for_source(&src).latest("k").map(|n| f64::from_bits(n.to_bits()))
    };
    assert_eq!(read(None, None), Some(1.0));
    assert_eq!(read(None, Some("zmq://b")), Some(2.0));
    assert_eq!(read(Some("c"), Some("zmq://b")), Some(3.0));
    assert_eq!(read(Some("gone"), Some("zmq://b")), Some(2.0));
    assert_eq!(view.iter_all_stores().len(), 3);
}

#[test]
fn groups_hold_every_key_once() {
    let keys: Vec<String> = ["accel[0]", "ap_attitude", "gps_lat", "zzz", "mag_truth[1]", "armed"]
        .iter()
        .map(|s| s.to_string())
        .collect();
    let groups = group_source_keys(&keys);
    let mut all: Vec<String> = groups.iter().flat_map(|g| g.1.clone()).collect();
    all.sort();
    let mut expected = keys.clone();
    expected.sort();
    assert_eq!(all, expected);
    let order: Vec<usize> =
        groups.iter().map(|g| KEY_GROUPS.iter().position(|k| *k == g.0).unwrap()).collect();
    assert!(order.windows(2).all(|w| w[0] < w[1]));
    assert_eq!(picker_sections(&keys, None), groups);
}

#[test]
fn full_filter_shows_every_key_that_has_a_class() {
    let f = PickerTypeFilter::default();
    for k in ["armed", "accel", "gps_lat", "unheard_of"] {
        assert!(f.allows(k, known_value_shape(k)), "{k}");
    }
    let none = PickerTypeFilter { status: false, scalar_2d: false, vector_2d: false, d3: false };
    assert!(!none.allows("armed", known_value_shape("armed")));
}

#[test]
fn freshness_depends_on_age() {
    let mut seen: KeyMap<i64> = KeyMap::new();
    seen.insert("k".to_string(), 10_000_000);
    assert_eq!(classify_key("k", &seen, 13_000_000, true), KeyFreshness::Live);
    assert_eq!(classify_key("k", &seen, 13_000_001, true), KeyFreshness::Stale);
    assert_eq!(classify_key("zzz", &seen, 0, true), KeyFreshness::Custom);
    assert_eq!(classify_key("zzz", &seen, 0, false), KeyFreshness::SchemaOnly);
    assert_eq!(freshness_look(KeyFreshness::SchemaOnly), (Rgb::from_gray(120), true));
    let mut s = TraceStore::default();
    s.note_null_key("n");
    s.push_string(0, "t", "x");
    let stores = vec![&s];
    assert!(is_observed("n", &stores) && is_observed("t", &stores));
    assert!(!is_observed("m", &stores));
}

#[test]
fn bits_above_the_flags_are_ignored() {
    let low = decode_ekf_flags(0b1010);
    assert_eq!(decode_ekf_flags(0xFFFF_F000 | 0b1010), low);
    assert_eq!(low.iter().filter(|f| f.1).count(), 2);
}

#[test]
fn chips_have_the_color_of_the_status() {
    let mut store = TraceStore::default();
    store.push_string(0, "mode", "AUTO");
    store.push(0, "fix", num(4.4));
    let mut cell = Cell {
        primitive: Primitive::Status,
        source: "mode".into(),
        kind: Some(StatusKind::Badge),
        ..Default::default()
    };
    cell.color_map.insert("AUTO".to_string(), "#00ff00".to_string());
    match status_body(&cell, &store, "") {
        (StatusBody::Chip { text, color, badge }, true) => {
            assert_eq!(text, "AUTO");
            assert!(badge);
            assert_eq!(color, Rgb::from_rgb(0, 255, 0));
            assert_eq!(status_cell_color(&cell, &store, ""), color);
        }
        other => panic!("{other:?}"),
    }
    cell.kind = Some(StatusKind::FixType);
    cell.source = "fix".into();
    match status_body(&cell, &store, "4.40") {
        (StatusBody::Chip { text, .. }, true) => assert_eq!(text, "RTK float"),
        other => panic!("{other:?}"),
    }
}

#[test]
fn words_of_a_line_lose_nothing() {
    for s in ["a bc  d", "  x", "x\ty ", ""] {
        assert_eq!(split_keeping_spaces(s).concat(), s);
    }
}

#[test]
fn taking_out_what_was_added_restores() {
    let mut t = template(2, 2, vec![titled(0, 0, "a"), titled(1, 0, "b")]);
    let before = places(&t);
    let d = PanelDraft { row: 1, col: 1, source_key: "k".into(), ..Default::default() };
    add_panel_draft(&mut t, &d).unwrap();
    assert_ne!(places(&t), before);
    remove_cell_at(&mut t, 1, 1).unwrap();
    assert_eq!(places(&t), before);
    assert_eq!(remove_cell_at(&mut t, 1, 1).unwrap_err(), "no cell at (1, 1)");
}

#[test]
fn moving_there_and_back_restores() {
    let mut t = template(2, 2, vec![titled(0, 0, "a"), titled(1, 0, "b")]);
    let before = places(&t);
    relocate_cell(&mut t, (0, 0), (1, 1)).unwrap();
    assert_ne!(places(&t), before);
    relocate_cell(&mut t, (1, 1), (0, 0)).unwrap();
    assert_eq!(places(&t), before);
    assert_eq!(
        relocate_cell(&mut t, (0, 0), (1, 0)).unwrap_err(),
        "destination (1, 0) is occupied",
    );
    assert_eq!(relocate_cell(&mut t, (5, 5), (6, 6)).unwrap_err(), "no cell at (5, 5)");
}

#[test]
fn announced_channels_lose_the_mark_with_a_value() {
    let mut s = TraceStore::new(1_000_000);
    for k in ["a", "b"] {
        s.note_null_key(k);
    }
    s.push(5, "a", num(1.0));
    s.note_null_key("a");
    assert!(!s.null_keys().contains_key("a") && s.null_keys().contains_key("b"));
    assert_eq!(s.latest("a"), Some(num(1.0)));
    s.push(3_000_000, "b", num(2.0));
    assert_eq!((s.len("a"), s.len("b")), (0, 1));
    s.push(1, "b", num(3.0));
    assert_eq!(s.latest("b"), Some(num(2.0)));
}

#[test]
fn dotted_keys_are_not_the_known_ones() {
    assert!(known_value_shape("accel[7]").is_some());
    assert!(known_value_shape("accel").is_some());
    assert!(known_value_shape("accel.x").is_none());
    assert!(known_value_shape("armed.since").is_none());
    let seen: KeyMap<i64> = KeyMap::new();
    assert_eq!(classify_key("accel.x", &seen, 0, true), KeyFreshness::Custom);
}

#[test]
fn every_known_key_has_its_shape() {
    for (k, shape) in KNOWN_HVN_SITL_KEYS {
        assert_eq!(known_value_shape(k), Some(shape), "{k}");
    }
}

#[test]
fn announced_keys_bring_their_base() {
    let mut s = TraceStore::new(60_000_000);
    s.note_null_key("vendor[0]");
    let keys = collect_source_keys(&vec![&s]);
    assert!(keys.contains(&"vendor[0]".to_string()));
    assert!(keys.contains(&"vendor".to_string()));
    assert!(keys.contains(&"accel".to_string()));
    assert!(keys.windows(2).all(|w| w[0] < w[1]));
}
