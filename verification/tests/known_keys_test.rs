use profiler_render::{collect_source_keys, Num, TraceStore, KNOWN_HVN_SITL_KEYS};

fn num(v: f64) -> Num {
    Num::from_bits(v.to_bits())
}

fn us(s: f64) -> i64 {
    (s * 1_000_000.0).round() as i64
}

#[test]
fn empty_stores_yield_known_hvn_sitl_keys() {
    let stores: Vec<&TraceStore> = Vec::new();
    let keys = collect_source_keys(&stores);
    let key_set: std::collections::BTreeSet<String> = keys.into_iter().collect();

    for (k, _shape) in KNOWN_HVN_SITL_KEYS {
        assert!(
            key_set.contains(k),
            "picker missing static key {k}; promised pre-seed",
        );
    }
}

#[test]
fn ap_mavlink_keys_appear_at_startup_with_zero_samples() {
    let keys = collect_source_keys(&Vec::new());
    let set: std::collections::BTreeSet<String> = keys.into_iter().collect();

    for required in [
        "ap_attitude[0]",
        "ap_attitude[1]",
        "ap_attitude[2]",
        "ap_raw_imu[0]",
        "ap_raw_imu[5]",
        "ap_vfr_alt",
        "ap_vel_ned[0]",
        "pos_ekf_ned[0]",
        "pos_ekf_ned[1]",
        "pos_ekf_ned[2]",
        "pos_truth_ned[0]",
        "pos_target_ned[0]",
    ] {
        assert!(
            set.contains(required),
            "AP MAVLink / position key {required} should be addressable at startup",
        );
    }
}

#[test]
fn known_keys_include_vector_bases() {
    let keys = collect_source_keys(&Vec::new());
    let set: std::collections::BTreeSet<String> = keys.into_iter().collect();

    for base in [
        "accel",
        "gyro",
        "mag_xyz",
        "ap_mag_xyz",
        "ap_attitude",
        "ap_raw_imu",
        "ap_vel_ned",
        "pos_truth_ned",
        "pos_ekf_ned",
        "quat_wxyz",
        "euler",
    ] {
        assert!(
            set.contains(base),
            "vector base {base} should be derivable from indexed forms",
        );
    }
}

#[test]
fn observed_keys_are_merged_on_top_of_known_list() {
    let mut store = TraceStore::new(60_000_000);
    store.push(us(0.0), "custom_dialect_key[0]", num(1.5));
    let keys = collect_source_keys(&vec![&store]);
    let set: std::collections::BTreeSet<String> = keys.into_iter().collect();

    assert!(set.contains("custom_dialect_key[0]"));
    assert!(set.contains("custom_dialect_key"));
    assert!(set.contains("ap_attitude[0]"));
}

#[test]
fn null_keys_surface_in_picker() {
    let mut store = TraceStore::new(60_000_000);
    store.note_null_key("weird_vendor_key");

    let keys = collect_source_keys(&vec![&store]);
    let set: std::collections::BTreeSet<String> = keys.into_iter().collect();
    assert!(
        set.contains("weird_vendor_key"),
        "schema-only key must appear in the picker before any real value lands",
    );
}

#[test]
fn real_value_supersedes_schema_only_marker() {
    let mut store = TraceStore::new(60_000_000);
    store.note_null_key("ap_attitude_late");
    assert!(store.null_keys().contains_key("ap_attitude_late"));
    store.push(us(1.0), "ap_attitude_late", num(0.5));
    assert!(
        !store.null_keys().contains_key("ap_attitude_late"),
        "real value should pull the key out of the null-set",
    );

    let keys = collect_source_keys(&vec![&store]);
    assert!(
        keys.iter().any(|k| k == "ap_attitude_late"),
        "key remains visible in the picker after real data lands",
    );
}
