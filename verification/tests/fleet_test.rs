use profiler_render::fleet::{is_synthetic_drone_name, Fleet, Sample, SampleValue, UNNAMED_DRONE};
use profiler_render::{Num, TextLogEntry, TraceStore};

fn num(v: f64) -> Num {
    Num::from_bits(v.to_bits())
}

fn us(s: f64) -> i64 {
    (s * 1_000_000.0).round() as i64
}

fn route(fleet: &mut Fleet, drone: &str, ts: f64, key: &str, value: f64) -> bool {
    fleet
        .ingest(Sample {
            drone_name: Some(drone.to_string()),
            sysid: None,
            ts: us(ts),
            key: key.to_string(),
            value: SampleValue::Scalar(num(value)),
        })
        .is_new
}

fn numbered(fleet: &mut Fleet, drone: Option<&str>, sysid: u8, value: SampleValue) -> String {
    fleet
        .ingest(Sample {
            drone_name: drone.map(|d| d.to_string()),
            sysid: Some(sysid),
            ts: 1,
            key: "k".to_string(),
            value,
        })
        .drone
}

fn seen(store: &TraceStore, key: &str) -> Vec<(f64, f64)> {
    let points = store.points(key);
    points.iter().map(|p| (p.t as f64 / 1e6, f64::from_bits(p.value.to_bits()))).collect()
}

#[test]
fn samples_route_into_drone_specific_stores() {
    let mut fleet = Fleet::new();
    route(&mut fleet, "eric_1", 0.0, "accel[0]", 1.0);
    route(&mut fleet, "eric_2", 0.0, "accel[0]", 100.0);
    route(&mut fleet, "eric_1", 0.1, "accel[0]", 2.0);
    route(&mut fleet, "eric_2", 0.1, "accel[0]", 200.0);

    let a = seen(fleet.stores.get("eric_1").expect("eric_1 store"), "accel[0]");
    let b = seen(fleet.stores.get("eric_2").expect("eric_2 store"), "accel[0]");

    assert_eq!(a, vec![(0.0, 1.0), (0.1, 2.0)]);
    assert_eq!(b, vec![(0.0, 100.0), (0.1, 200.0)]);

    assert!(!a.iter().any(|p| p.1 >= 100.0), "eric_1 store leaked eric_2 sample");
    assert!(!b.iter().any(|p| p.1 < 10.0), "eric_2 store leaked eric_1 sample");
}

#[test]
fn unnamed_drone_falls_into_dedicated_bucket() {
    let mut fleet = Fleet::new();
    let unnamed = |ts: f64, v: f64| Sample {
        drone_name: None,
        sysid: None,
        ts: us(ts),
        key: "x".to_string(),
        value: SampleValue::Scalar(num(v)),
    };
    assert_eq!(fleet.ingest(unnamed(0.0, 1.0)).drone, "(unnamed)");
    route(&mut fleet, "eric_1", 0.0, "x", 99.0);
    fleet.ingest(unnamed(0.5, 2.0));

    assert_eq!(
        seen(fleet.stores.get(UNNAMED_DRONE).unwrap(), "x"),
        vec![(0.0, 1.0), (0.5, 2.0)],
    );
    assert_eq!(seen(fleet.stores.get("eric_1").unwrap(), "x"), vec![(0.0, 99.0)]);
}

#[test]
fn switching_view_drone_changes_data_seen_by_renderer() {
    let mut fleet = Fleet::new();
    for i in 0..10 {
        let t = i as f64 * 0.1;
        route(&mut fleet, "alpha", t, "altitude", 50.0 + t);
        route(&mut fleet, "beta", t, "altitude", 200.0 + t);
    }
    fleet.view_drone = Some("alpha".to_string());
    let alpha = fleet.view_store().unwrap();
    assert!(seen(alpha, "altitude").iter().all(|p| p.1 < 100.0));
    fleet.view_drone = Some("beta".to_string());
    let beta = fleet.view_store().unwrap();
    assert!(seen(beta, "altitude").iter().all(|p| p.1 > 150.0));
}

#[test]
fn discovered_drones_list_preserves_first_seen_order() {
    let mut fleet = Fleet::new();
    let order = [
        ("gamma", 0.0_f64),
        ("alpha", 0.1),
        ("gamma", 0.2),
        ("beta", 0.3),
        ("alpha", 0.4),
    ];
    let fresh: Vec<bool> =
        order.iter().map(|(name, ts)| route(&mut fleet, name, *ts, "x", 1.0)).collect();
    assert_eq!(fresh, vec![true, true, false, true, false]);
    assert_eq!(
        fleet.discovered,
        vec!["gamma".to_string(), "alpha".into(), "beta".into()],
        "first-seen order preserved",
    );
    assert_eq!(fleet.stores.entries.len(), 3);
    assert_eq!(fleet.all_stores().len(), 3);
    assert_eq!(fleet.view_drone.as_deref(), Some("gamma"));
}

#[test]
fn empty_store_falls_back_gracefully_for_unknown_drone() {
    let mut fleet = Fleet::new();
    fleet.view_drone = Some("unknown".to_string());
    assert!(fleet.view_store().is_none());
    let empty = TraceStore::default();
    let s = fleet.stores.get("unknown").unwrap_or(&empty);
    assert!(s.is_empty());
    assert!(s.points("accel[0]").is_empty());
    assert_eq!(s.latest_ts(), None);
}

#[test]
fn reload_preserves_view_drone_when_still_known() {
    let mut fleet = Fleet::new();
    route(&mut fleet, "eric_1", 0.0, "x", 1.0);
    route(&mut fleet, "eric_2", 0.0, "x", 2.0);
    fleet.restore_view_drone(Some("eric_1".to_string()));
    assert_eq!(fleet.view_drone.as_deref(), Some("eric_1"), "view_drone persists across reload");
}

#[test]
fn reload_falls_back_when_view_drone_no_longer_in_stores() {
    let mut fleet = Fleet::new();
    route(&mut fleet, "eric_1", 0.0, "x", 1.0);
    fleet.restore_view_drone(Some("ghost".to_string()));
    assert_eq!(fleet.view_drone.as_deref(), Some("eric_1"), "fall back to first-seen drone");
}

#[test]
fn reload_with_no_drones_yields_none() {
    let mut fleet = Fleet::new();
    fleet.restore_view_drone(Some("eric_1".into()));
    assert!(fleet.view_drone.is_none(), "no drones known → view_drone clears");
}

#[test]
fn reload_with_no_prior_selection_picks_first_seen() {
    let mut fleet = Fleet::new();
    route(&mut fleet, "alpha", 0.0, "x", 1.0);
    route(&mut fleet, "beta", 0.0, "x", 2.0);
    fleet.restore_view_drone(None);
    assert_eq!(fleet.view_drone.as_deref(), Some("alpha"));
}

#[test]
fn reload_keeps_eric_1_across_template_switch() {
    let mut fleet = Fleet::new();
    route(&mut fleet, "eric_1", 0.0, "x", 1.0);
    route(&mut fleet, "eric_2", 0.0, "x", 2.0);
    let view_drone = Some("eric_1".to_string());
    fleet.restore_view_drone(view_drone);
    assert_eq!(fleet.view_drone.as_deref(), Some("eric_1"));
    let again = fleet.view_drone.clone();
    fleet.restore_view_drone(again);
    assert_eq!(fleet.view_drone.as_deref(), Some("eric_1"));
}

#[test]
fn second_drone_can_stay_on_view() {
    let mut fleet = Fleet::new();
    route(&mut fleet, "eric_1", 0.0, "x", 1.0);
    route(&mut fleet, "eric_2", 0.0, "x", 2.0);
    fleet.restore_view_drone(Some("eric_2".to_string()));
    assert_eq!(fleet.view_drone.as_deref(), Some("eric_2"));
}

#[test]
fn real_name_replaces_the_numbered_one() {
    assert!(is_synthetic_drone_name("drone_7", 7));
    assert!(!is_synthetic_drone_name("drone_7", 8));
    assert!(!is_synthetic_drone_name("drone_07", 7));
    let mut fleet = Fleet::new();
    assert_eq!(numbered(&mut fleet, Some("drone_7"), 7, SampleValue::Scalar(num(1.0))), "drone_7");
    assert_eq!(numbered(&mut fleet, Some("eric"), 7, SampleValue::Scalar(num(2.0))), "eric");
    assert_eq!(numbered(&mut fleet, Some("drone_7"), 7, SampleValue::Scalar(num(3.0))), "eric");
    assert_eq!(numbered(&mut fleet, Some("other"), 7, SampleValue::Scalar(num(4.0))), "eric");
    assert_eq!(fleet.discovered, vec!["eric"]);
    assert_eq!(fleet.view_drone.as_deref(), Some("eric"));
    assert_eq!(seen(fleet.stores.get("eric").unwrap(), "k").len(), 4);
    assert!(fleet.stores.get("drone_7").is_none());
}

#[test]
fn every_value_finds_its_place() {
    let mut fleet = Fleet::new();
    numbered(&mut fleet, Some("a"), 1, SampleValue::Null);
    assert!(fleet.stores.get("a").unwrap().null_keys().contains_key("k"));
    assert_eq!(fleet.last_seen.get("k"), None);
    numbered(&mut fleet, Some("a"), 1, SampleValue::Bool(true));
    assert_eq!(fleet.last_seen.get("k"), Some(&1));
    numbered(&mut fleet, Some("a"), 1, SampleValue::Text("T".to_string()));
    numbered(&mut fleet, Some("a"), 1, SampleValue::IntVector(vec![4, 5]));
    numbered(&mut fleet, Some("a"), 1, SampleValue::Vector(vec![num(1.0), num(2.0)]));
    let entry = TextLogEntry { ts: 1, text: "hi".to_string(), severity: 4 };
    numbered(&mut fleet, Some("a"), 1, SampleValue::TextLog(vec![entry]));
    let s = fleet.stores.get("a").unwrap();
    assert_eq!(s.latest("k"), Some(num(1.0)));
    assert_eq!(s.latest_string("k").map(|t| t.as_str()), Some("T"));
    assert_eq!(s.latest_vec_int("k"), Some(&vec![4, 5]));
    assert_eq!(s.text_log_owned("k").len(), 1);
    assert_eq!(s.latest("k[1]"), Some(num(2.0)));
}

#[test]
fn a_drone_under_two_names_becomes_one() {
    let mut fleet = Fleet::new();
    let sample = |name: &str, sysid: Option<u8>, ts: i64, v: f64| Sample {
        drone_name: Some(name.to_string()),
        sysid,
        ts,
        key: "k".to_string(),
        value: SampleValue::Scalar(num(v)),
    };
    assert!(fleet.ingest(sample("eric_1", None, 1_000_000, 1.0)).is_new);
    assert!(fleet.ingest(sample("drone_1", Some(1), 2_000_000, 2.0)).is_new);
    let routed = fleet.ingest(sample("eric_1", Some(1), 3_000_000, 3.0));
    assert_eq!((routed.drone.as_str(), routed.is_new), ("eric_1", false));
    assert_eq!(fleet.discovered, vec!["eric_1"]);
    assert_eq!(fleet.view_drone.as_deref(), Some("eric_1"));
    assert_eq!(fleet.stores.keys(), vec!["eric_1"]);
    assert_eq!(
        seen(fleet.stores.get("eric_1").unwrap(), "k"),
        vec![(1.0, 1.0), (2.0, 2.0), (3.0, 3.0)],
    );
}

#[test]
fn the_joined_drone_stands_where_it_was_first_heard_of() {
    let mut fleet = Fleet::new();
    numbered(&mut fleet, Some("drone_7"), 7, SampleValue::Bool(true));
    route(&mut fleet, "bob", 0.0, "k", 1.0);
    route(&mut fleet, "eric", 0.0, "k", 2.0);
    numbered(&mut fleet, Some("eric"), 7, SampleValue::Null);
    assert_eq!(fleet.discovered, vec!["eric", "bob"]);
    assert_eq!(fleet.view_drone.as_deref(), Some("eric"));
    assert_eq!(seen(fleet.stores.get("eric").unwrap(), "k").len(), 2);
    assert_eq!(seen(fleet.stores.get("bob").unwrap(), "k").len(), 1);
}
