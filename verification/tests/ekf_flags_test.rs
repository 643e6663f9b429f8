use profiler_render::{decode_ekf_flags, EKF_FLAG_LABELS};

#[test]
fn decode_0b11111_sets_first_five_flags() {
    let rows = decode_ekf_flags(0b11111);
    assert_eq!(rows.len(), EKF_FLAG_LABELS.len());
    for (i, (label, is_set)) in rows.iter().take(5).enumerate() {
        assert_eq!(*label, EKF_FLAG_LABELS[i]);
        assert!(*is_set, "bit {i} must be set (label={label})");
    }
    for (i, (label, is_set)) in rows.iter().enumerate().skip(5) {
        assert!(
            !*is_set,
            "bit {i} must be unset (label={label})",
        );
    }
    assert_eq!(rows[0].0, "ATTITUDE");
    assert_eq!(rows[1].0, "VELOCITY_HORIZ");
    assert_eq!(rows[2].0, "VELOCITY_VERT");
    assert_eq!(rows[3].0, "POS_HORIZ_REL");
    assert_eq!(rows[4].0, "POS_HORIZ_ABS");
}

#[test]
fn decode_zero_clears_every_flag() {
    let rows = decode_ekf_flags(0);
    assert_eq!(rows.len(), EKF_FLAG_LABELS.len());
    for (label, is_set) in &rows {
        assert!(!*is_set, "{label} must be unset for flags=0");
    }
}

#[test]
fn decode_bad_value_negative_renders_as_all_unset() {
    let rows = decode_ekf_flags(0);
    assert!(rows.iter().all(|(_, set)| !*set));
    let rows = decode_ekf_flags(u32::MAX);
    assert_eq!(rows.len(), EKF_FLAG_LABELS.len());
    for (label, is_set) in &rows {
        assert!(*is_set, "{label} must be set for flags=0xFFFFFFFF");
    }
}
