use profiler_render::{group_source_keys, ComboCollapseState, KEY_GROUPS};

#[test]
fn default_state_has_every_category_expanded() {
    let state = ComboCollapseState::default();
    for group in KEY_GROUPS {
        assert!(
            !state.is_collapsed(group),
            "{group} should default to expanded"
        );
    }
}

#[test]
fn toggle_only_affects_named_category_other_sections_still_render() {
    let mut state = ComboCollapseState::default();
    assert!(!state.is_collapsed("DT physics"));
    assert!(!state.is_collapsed("AP MAVLink"));

    let new_state = state.toggle("DT physics");
    assert!(new_state, "toggle returns the new (collapsed) state");
    assert!(state.is_collapsed("DT physics"));

    for group in KEY_GROUPS {
        if group == "DT physics" {
            continue;
        }
        assert!(
            !state.is_collapsed(group),
            "{group} must remain expanded after toggling DT physics",
        );
    }
}

#[test]
fn double_toggle_restores_expanded() {
    let mut state = ComboCollapseState::default();
    let after_first = state.toggle("AP MAVLink");
    let after_second = state.toggle("AP MAVLink");
    assert!(after_first);
    assert!(!after_second);
    assert!(!state.is_collapsed("AP MAVLink"));
}

#[test]
fn rendering_loop_skips_collapsed_section_only() {
    let keys: Vec<String> = vec![
        "accel[0]".into(),
        "ap_attitude[0]".into(),
        "pos_truth_ned[0]".into(),
        "t".into(),
    ];
    let mut state = ComboCollapseState::default();
    state.toggle("AP MAVLink");

    let mut rendered_items: Vec<String> = Vec::new();
    for (group, group_keys) in group_source_keys(&keys) {
        if state.is_collapsed(group) {
            continue;
        }
        rendered_items.extend(group_keys);
    }

    assert!(rendered_items.contains(&"accel[0]".to_string()));
    assert!(rendered_items.contains(&"pos_truth_ned[0]".to_string()));
    assert!(rendered_items.contains(&"t".to_string()));
    assert!(!rendered_items.contains(&"ap_attitude[0]".to_string()));
}

#[test]
fn separate_instances_do_not_share_state() {
    let mut a = ComboCollapseState::default();
    let mut b = ComboCollapseState::default();
    a.toggle("DT physics");
    assert!(a.is_collapsed("DT physics"));
    assert!(
        !b.is_collapsed("DT physics"),
        "the other editor's state is unaffected",
    );
    b.toggle("DT physics");
    a.toggle("DT physics");
    assert!(!a.is_collapsed("DT physics"));
    assert!(b.is_collapsed("DT physics"));
}
