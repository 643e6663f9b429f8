use profiler_render::template::CellSource;
use profiler_render::{KeyMap, Num, StoresView, TraceStore};

fn num(v: f64) -> Num {
    Num::from_bits(v.to_bits())
}

fn val(n: Num) -> f64 {
    f64::from_bits(n.to_bits())
}

fn us(s: f64) -> i64 {
    (s * 1_000_000.0).round() as i64
}

fn make_store(seed: f64) -> TraceStore {
    let mut s = TraceStore::default();
    s.push(us(0.0), "ap_attitude[0]", num(seed));
    s
}

fn two_drone_setup() -> (KeyMap<TraceStore>, KeyMap<String>, TraceStore) {
    let mut stores: KeyMap<TraceStore> = KeyMap::new();
    stores.insert("A".to_string(), make_store(1.0));
    stores.insert("B".to_string(), make_store(2.0));
    let mut uri_to_drone: KeyMap<String> = KeyMap::new();
    uri_to_drone.insert("zmq://127.0.0.1:9005".to_string(), "A".to_string());
    uri_to_drone.insert("zmq://127.0.0.1:9006".to_string(), "B".to_string());
    let empty = TraceStore::default();
    (stores, uri_to_drone, empty)
}

#[test]
fn pinned_source_uri_resolves_to_other_drone_store() {
    let (stores, uri_to_drone, empty) = two_drone_setup();
    let view = StoresView::multi(&stores, &uri_to_drone, "A", &empty);

    let pinned = CellSource {
        key: "ap_attitude[0]".into(),
        source_uri: Some("zmq://127.0.0.1:9006".to_string()),
        ..Default::default()
    };
    let store = view.for_source(&pinned);
    assert_eq!(
        store.latest("ap_attitude[0]").map(val),
        Some(2.0),
        "pinned source_uri must route to drone-B's store (latest=2.0)",
    );
}

#[test]
fn unpinned_source_resolves_to_view_drone_store() {
    let (stores, uri_to_drone, empty) = two_drone_setup();

    let view_a = StoresView::multi(&stores, &uri_to_drone, "A", &empty);
    let unpinned = CellSource {
        key: "ap_attitude[0]".into(),
        source_uri: None,
        ..Default::default()
    };
    assert_eq!(
        view_a.for_source(&unpinned).latest("ap_attitude[0]").map(val),
        Some(1.0),
        "view-drone A → unpinned cell reads 1.0",
    );

    let view_b = StoresView::multi(&stores, &uri_to_drone, "B", &empty);
    assert_eq!(
        view_b.for_source(&unpinned).latest("ap_attitude[0]").map(val),
        Some(2.0),
        "view-drone B → unpinned cell reads 2.0",
    );
}

#[test]
fn pinned_cell_unaffected_by_view_drone_switch() {
    let (stores, uri_to_drone, empty) = two_drone_setup();
    let pinned = CellSource {
        key: "ap_attitude[0]".into(),
        source_uri: Some("zmq://127.0.0.1:9006".to_string()),
        ..Default::default()
    };

    let view_a = StoresView::multi(&stores, &uri_to_drone, "A", &empty);
    let view_b = StoresView::multi(&stores, &uri_to_drone, "B", &empty);
    let view_unknown = StoresView::multi(&stores, &uri_to_drone, "nonexistent", &empty);

    for (label, view) in [("A", &view_a), ("B", &view_b), ("nonexistent", &view_unknown)] {
        assert_eq!(
            view.for_source(&pinned).latest("ap_attitude[0]").map(val),
            Some(2.0),
            "pinned cell stays on drone-B regardless of view-drone={label}",
        );
    }
}

#[test]
fn empty_source_uri_string_treated_as_unpinned() {
    let (stores, uri_to_drone, empty) = two_drone_setup();
    let view = StoresView::multi(&stores, &uri_to_drone, "A", &empty);
    let any_pinned = CellSource {
        key: "ap_attitude[0]".into(),
        source_uri: Some(String::new()),
        ..Default::default()
    };
    assert_eq!(
        view.for_source(&any_pinned).latest("ap_attitude[0]").map(val),
        Some(1.0),
        "empty-string source_uri must be treated as `(any)` and fall through to view-drone",
    );
}

#[test]
fn unknown_pinned_uri_falls_back_to_view_drone() {
    let (stores, uri_to_drone, empty) = two_drone_setup();
    let view = StoresView::multi(&stores, &uri_to_drone, "B", &empty);
    let stale_pin = CellSource {
        key: "ap_attitude[0]".into(),
        source_uri: Some("zmq://10.0.0.1:9999".to_string()),
        ..Default::default()
    };
    assert_eq!(
        view.for_source(&stale_pin).latest("ap_attitude[0]").map(val),
        Some(2.0),
        "stale pin must fall back to view-drone B (2.0), not the empty store",
    );
}

#[test]
fn pin_to_known_uri_with_no_store_yet_falls_back_to_view_drone() {
    let (stores, _, empty) = two_drone_setup();
    let mut uri_to_drone: KeyMap<String> = KeyMap::new();
    uri_to_drone.insert("zmq://127.0.0.1:9005".to_string(), "A".to_string());
    uri_to_drone.insert("zmq://127.0.0.1:9006".to_string(), "B".to_string());
    uri_to_drone.insert("zmq://127.0.0.1:9007".to_string(), "C".to_string());
    let view = StoresView::multi(&stores, &uri_to_drone, "A", &empty);
    let c_pin = CellSource {
        key: "ap_attitude[0]".into(),
        source_uri: Some("zmq://127.0.0.1:9007".to_string()),
        ..Default::default()
    };
    assert_eq!(
        view.for_source(&c_pin).latest("ap_attitude[0]").map(val),
        Some(1.0),
        "drone-C has no store yet → fall back to view-drone A (1.0)",
    );
}

#[test]
fn legacy_single_view_ignores_source_uri_pin() {
    let store = make_store(7.0);
    let empty_map: KeyMap<String> = KeyMap::new();
    let view = StoresView::single(&store, &empty_map);

    let pinned_to_b = CellSource {
        key: "ap_attitude[0]".into(),
        source_uri: Some("zmq://127.0.0.1:9006".to_string()),
        ..Default::default()
    };
    assert_eq!(
        view.for_source(&pinned_to_b).latest("ap_attitude[0]").map(val),
        Some(7.0),
        "single-store mode must return the wrapped store regardless of pin",
    );
    let unpinned = CellSource {
        key: "ap_attitude[0]".into(),
        source_uri: None,
        ..Default::default()
    };
    assert_eq!(
        view.for_source(&unpinned).latest("ap_attitude[0]").map(val),
        Some(7.0),
        "single-store mode returns the wrapped store for unpinned cells too",
    );
}

#[test]
fn for_uri_resolves_status_pin() {
    let (stores, uri_to_drone, empty) = two_drone_setup();
    let view = StoresView::multi(&stores, &uri_to_drone, "A", &empty);

    assert_eq!(
        view.for_uri(Some("zmq://127.0.0.1:9006"))
            .latest("ap_attitude[0]").map(val),
        Some(2.0),
        "Status pinned to drone-B URI reads from drone-B store",
    );
    assert_eq!(
        view.for_uri(None).latest("ap_attitude[0]").map(val),
        Some(1.0),
        "Status with no pin reads from view-drone A",
    );
    assert_eq!(
        view.for_uri(Some("")).latest("ap_attitude[0]").map(val),
        Some(1.0),
        "Status with empty-string pin treated as `(any)` → view-drone A",
    );
}

#[test]
fn view_store_returns_empty_when_view_drone_has_no_store() {
    let stores: KeyMap<TraceStore> = KeyMap::new();
    let uri_to_drone: KeyMap<String> = KeyMap::new();
    let empty = TraceStore::default();
    let view = StoresView::multi(&stores, &uri_to_drone, "ghost", &empty);
    assert!(
        view.view_store().is_empty(),
        "view_store() must be the empty store when the view-drone is unknown",
    );
}

#[test]
fn iter_all_stores_covers_every_drone_in_multi_mode() {
    let (stores, uri_to_drone, empty) = two_drone_setup();
    let view = StoresView::multi(&stores, &uri_to_drone, "A", &empty);
    let mut latest_values: Vec<f64> = view
        .iter_all_stores()
        .iter()
        .map(|s| s.latest("ap_attitude[0]").map(val).unwrap_or(f64::NAN))
        .collect();
    latest_values.sort_by(|a, b| a.partial_cmp(b).unwrap());
    assert_eq!(
        latest_values,
        vec![1.0, 2.0],
        "iter_all_stores must enumerate both drones",
    );
}

#[test]
fn iter_all_stores_covers_single_store_in_single_mode() {
    let store = make_store(42.0);
    let empty_map: KeyMap<String> = KeyMap::new();
    let view = StoresView::single(&store, &empty_map);
    let collected: Vec<f64> = view
        .iter_all_stores()
        .iter()
        .map(|s| s.latest("ap_attitude[0]").map(val).unwrap_or(f64::NAN))
        .collect();
    assert_eq!(
        collected,
        vec![42.0],
        "iter_all_stores in single mode yields exactly the wrapped store",
    );
}

#[test]
fn drone_pin_beats_view_drone() {
    let (stores, uri_to_drone, empty) = two_drone_setup();
    let view = StoresView::multi(&stores, &uri_to_drone, "A", &empty);

    let pinned = CellSource {
        key: "ap_attitude[0]".into(),
        source_drone: Some("B".into()),
        ..Default::default()
    };
    assert_eq!(
        view.for_source(&pinned).latest("ap_attitude[0]").map(val),
        Some(2.0),
        "drone-pin must route to drone-B's store regardless of view-drone",
    );
}

#[test]
fn drone_pin_beats_uri_pin() {
    let (stores, uri_to_drone, empty) = two_drone_setup();
    let view = StoresView::multi(&stores, &uri_to_drone, "A", &empty);

    let pinned = CellSource {
        key: "ap_attitude[0]".into(),
        source_uri: Some("zmq://127.0.0.1:9005".into()),
        source_drone: Some("B".into()),
        ..Default::default()
    };
    assert_eq!(
        view.for_source(&pinned).latest("ap_attitude[0]").map(val),
        Some(2.0),
        "drone-pin must win over conflicting URI-pin",
    );
}

#[test]
fn shared_mavlink_demux_routes_by_drone() {
    let mut stores: KeyMap<TraceStore> = KeyMap::new();
    stores.insert("A".to_string(), make_store(1.0));
    stores.insert("B".to_string(), make_store(2.0));
    let mut uri_to_drone: KeyMap<String> = KeyMap::new();
    uri_to_drone.insert(
        "mavlink://0.0.0.0:14560".to_string(),
        "A".to_string(),
    );
    let empty = TraceStore::default();
    let view = StoresView::multi(&stores, &uri_to_drone, "A", &empty);

    let pinned_to_b = CellSource {
        key: "ap_attitude[0]".into(),
        source_uri: Some("mavlink://0.0.0.0:14560".into()),
        source_drone: Some("B".into()),
        ..Default::default()
    };
    assert_eq!(
        view.for_source(&pinned_to_b).latest("ap_attitude[0]").map(val),
        Some(2.0),
        "shared MAVLink port: drone-pin must route to B even though URI maps to A",
    );
}

#[test]
fn empty_drone_pin_falls_back_to_uri_pin() {
    let (stores, uri_to_drone, empty) = two_drone_setup();
    let view = StoresView::multi(&stores, &uri_to_drone, "A", &empty);

    let legacy_pin = CellSource {
        key: "ap_attitude[0]".into(),
        source_drone: None,
        source_uri: Some("zmq://127.0.0.1:9006".into()),
        ..Default::default()
    };
    assert_eq!(
        view.for_source(&legacy_pin).latest("ap_attitude[0]").map(val),
        Some(2.0),
        "drone-pin None → URI-pin still resolves (compat)",
    );

    let legacy_pin_empty = CellSource {
        key: "ap_attitude[0]".into(),
        source_drone: Some(String::new()),
        source_uri: Some("zmq://127.0.0.1:9006".into()),
        ..Default::default()
    };
    assert_eq!(
        view.for_source(&legacy_pin_empty)
            .latest("ap_attitude[0]").map(val),
        Some(2.0),
        "empty-string drone-pin treated as unpinned → URI-pin resolves",
    );
}

#[test]
fn both_empty_falls_back_to_view_drone() {
    let (stores, uri_to_drone, empty) = two_drone_setup();
    let view = StoresView::multi(&stores, &uri_to_drone, "B", &empty);

    let unpinned = CellSource {
        key: "ap_attitude[0]".into(),
        source_drone: None,
        source_uri: None,
        ..Default::default()
    };
    assert_eq!(
        view.for_source(&unpinned).latest("ap_attitude[0]").map(val),
        Some(2.0),
        "no pins → view-drone B's store",
    );
}

#[test]
fn unknown_drone_pin_falls_back_to_uri_pin_then_view() {
    let (stores, uri_to_drone, empty) = two_drone_setup();
    let view = StoresView::multi(&stores, &uri_to_drone, "A", &empty);

    let stale_drone = CellSource {
        key: "ap_attitude[0]".into(),
        source_drone: Some("nonexistent".into()),
        source_uri: Some("zmq://127.0.0.1:9006".into()),
        ..Default::default()
    };
    assert_eq!(
        view.for_source(&stale_drone).latest("ap_attitude[0]").map(val),
        Some(2.0),
        "stale drone-pin → URI-pin (drone-B) resolves",
    );

    let stale_drone_no_uri = CellSource {
        key: "ap_attitude[0]".into(),
        source_drone: Some("nonexistent".into()),
        source_uri: None,
        ..Default::default()
    };
    assert_eq!(
        view.for_source(&stale_drone_no_uri).latest("ap_attitude[0]").map(val),
        Some(1.0),
        "stale drone-pin + no URI → view-drone A's store",
    );
}
