use profiler_render::faults::{
    gps_dropout_cmd, imu_freeze_cmd, mag_spike_cmd, reset_cmd, ArgValue, Section,
};
use profiler_render::{default_drone_choices, fix_override_label, FaultsPanelState, Num, Num32, PendingCommand};

fn single(v: f32) -> Num32 {
    Num32 { bits: v.to_bits() }
}

fn slider(cmd: &ArgValue) -> Option<f32> {
    match cmd {
        ArgValue::Slider(n) => Some(f32::from_bits(n.bits)),
        _ => None,
    }
}

fn triple(cmd: &ArgValue) -> Option<[f32; 3]> {
    match cmd {
        ArgValue::Triple(t) => Some(t.map(|n| f32::from_bits(n.bits))),
        _ => None,
    }
}

fn text(cmd: Option<&ArgValue>) -> Option<&str> {
    match cmd {
        Some(ArgValue::Text(t)) => Some(t.as_str()),
        _ => None,
    }
}

fn number(cmd: Option<&ArgValue>) -> Option<f64> {
    match cmd {
        Some(ArgValue::Number(Num { bits })) => Some(f64::from_bits(*bits)),
        _ => None,
    }
}

#[test]
fn gps_params_match_sitl_schema() {
    let mut s = FaultsPanelState::default();
    s.gps_sigma_p = single(0.5);
    s.gps_bias_n = single(1.0);
    let p = s.gps_params();
    assert_eq!(p.get("sigma_p").and_then(slider), Some(0.5));
    let e = p.get("_e").and_then(triple).unwrap();
    assert_eq!(e[0], 1.0);
    assert_eq!(e.len(), 3);
}

#[test]
fn imu_params_contain_b_a_b_g_and_sigmas() {
    let s = FaultsPanelState::default();
    let p = s.imu_params();
    assert!(p.contains_key("b_a"));
    assert!(p.contains_key("b_g"));
    assert!(p.contains_key("sigma_a_n"));
    assert!(p.contains_key("sigma_g_n"));
}

#[test]
fn mag_params_contain_hard_iron_and_sigma_vec3() {
    let s = FaultsPanelState::default();
    let p = s.mag_params();
    assert_eq!(p.get("hard_iron").and_then(triple).unwrap().len(), 3);
    assert_eq!(p.get("sigma").and_then(triple).unwrap().len(), 3);
}

#[test]
fn gps_params_have_sitl_keys_and_e_is_3vec() {
    let mut s = FaultsPanelState::default();
    s.gps_sigma_p = single(0.5);
    s.gps_bias_n = single(1.5);
    let p = s.gps_params();
    assert_eq!(p.get("sigma_p").and_then(slider), Some(0.5));
    let e = p.get("_e").and_then(triple).expect("GPS _e param");
    assert_eq!(e.len(), 3);
    assert_eq!(e[0], 1.5);
}

#[test]
fn imu_mag_baro_params_match_runtime_control_known_params() {
    let s = FaultsPanelState::default();
    let imu = s.imu_params();
    for k in ["b_a", "b_g", "sigma_a_n", "sigma_g_n"] {
        assert!(imu.contains_key(k), "IMU param `{k}` missing");
    }
    let mag = s.mag_params();
    assert_eq!(mag.get("hard_iron").and_then(triple).unwrap().len(), 3);
    assert_eq!(mag.get("sigma").and_then(triple).unwrap().len(), 3);
    let baro = s.baro_params();
    for k in ["bias_pa", "sigma_pa"] {
        assert!(baro.contains_key(k), "Baro param `{k}` missing");
    }
}

#[test]
fn default_drone_choices_include_all_and_ten_drones() {
    let s = FaultsPanelState::default();
    assert_eq!(s.drone, "all", "default broadcast topic matches SITL CLI default");
    assert!(s.drone_choices.contains(&"all".to_string()));
    for i in 1..=10 {
        assert!(s.drone_choices.contains(&format!("drone_{i}")));
    }
    assert_eq!(default_drone_choices().len(), 11);
}

#[test]
fn defaults_are_the_clean_baseline() {
    let s = FaultsPanelState::default();
    let of = |n: Num32| f32::from_bits(n.bits);
    assert_eq!(of(s.gps_sats_base), 32.0);
    assert_eq!(of(s.gps_cep_pvt_h), 1.5);
    assert_eq!(of(s.gps_cep_pvt_v), 2.0);
    assert_eq!(of(s.gps_cep_rtk_h), 0.01);
    assert_eq!(of(s.gps_cep_rtk_v), 0.02);
    assert_eq!(s.gps_fix_override, -1);
    assert_eq!(of(s.gps_sigma_p), 0.0);
    assert_eq!(of(s.baro_sigma_pa), 0.0);
    assert!(!s.visible);
    match s.gps_params().get("fix_override") {
        Some(ArgValue::Int(-1)) => {}
        other => panic!("{other:?}"),
    }
}

#[test]
fn flush_emits_after_debounce_window() {
    let mut s = FaultsPanelState::default();
    s.touch(Section::Gps, 10_000_000);
    let mut out: Vec<PendingCommand> = Vec::new();
    s.flush_if_due(Section::Gps, 10_030_000, &mut out);
    assert_eq!(out.len(), 0);
    s.flush_if_due(Section::Gps, 10_060_000, &mut out);
    assert_eq!(out.len(), 1);
    assert!(s.gps_dirty_since.is_none());
    assert_eq!(out[0].feature, "gps");
    assert_eq!(out[0].label, "set_gps");
}

#[test]
fn flush_sends_the_sections_in_order() {
    let mut s = FaultsPanelState::default();
    s.drone = "eric".to_string();
    s.touch(Section::Baro, 0);
    s.touch(Section::Mag, 90_000);
    s.mark_external_change("imu.b_a.x");
    s.mark_external_change("nothing.else");
    let mut out: Vec<PendingCommand> = Vec::new();
    s.flush(100_000, &mut out);
    let sent: Vec<&str> = out.iter().map(|c| c.label.as_str()).collect();
    assert_eq!(sent, vec!["set_imu", "set_baro"]);
    assert!(out.iter().all(|c| c.drone == "eric" && !c.reset));
    assert_eq!(s.mag_dirty_since, Some(90_000));
    s.flush(140_000, &mut out);
    assert_eq!(out.len(), 3);
    assert_eq!(out[2].feature, "mag");
    s.flush(1_000_000, &mut out);
    assert_eq!(out.len(), 3);
}

#[test]
fn gps_dropout_targets_fault_feature() {
    let cmd = gps_dropout_cmd("eric");
    assert_eq!(cmd.feature, "fault");
    assert_eq!(cmd.drone, "eric");
    assert_eq!(text(cmd.args.get("target")), Some("gps"));
    assert_eq!(text(cmd.args.get("profile")), Some("dropout"));
}

#[test]
fn faults_carry_their_numbers() {
    let drop = gps_dropout_cmd("a");
    assert_eq!(number(drop.args.get("t_duration")), Some(10.0));
    assert_eq!(text(drop.args.get("param")), Some("sats_base"));
    assert_eq!(text(drop.args.get("mode")), Some("set"));
    assert!(drop.args.get("axis").is_none());
    let freeze = imu_freeze_cmd("a");
    assert_eq!(text(freeze.args.get("param")), Some("sigma_a_n"));
    assert_eq!(freeze.label, "imu_freeze");
    let spike = mag_spike_cmd("b");
    assert_eq!(number(spike.args.get("t_duration")), Some(5.0));
    assert!(matches!(spike.args.get("axis"), Some(ArgValue::Int(0))));
    match spike.args.get("params") {
        Some(ArgValue::Block { name, value }) => {
            assert_eq!(name, "amp");
            assert_eq!(f64::from_bits(value.bits), 1000.0);
        }
        other => panic!("{other:?}"),
    }
    assert_eq!(spike.label, "mag_spike");
    assert_eq!(spike.drone, "b");
}

#[test]
fn reset_cmd_sets_reset_true_and_empty_args() {
    let cmd = reset_cmd("baro", "all");
    assert!(cmd.reset);
    assert!(cmd.args.entries.is_empty());
}

#[test]
fn reset_puts_a_section_back() {
    let mut s = FaultsPanelState::default();
    s.gps_sigma_p = single(3.0);
    s.gps_fix_override = 4;
    s.imu_b_a_x = single(1.0);
    s.touch(Section::Gps, 5);
    let cmd = s.reset_section(Section::Gps);
    assert_eq!(cmd.label, "reset_gps");
    assert!(cmd.reset);
    assert_eq!(s.gps_sigma_p, single(0.0));
    assert_eq!(s.gps_fix_override, -1);
    assert_eq!(s.gps_dirty_since, None);
    assert_eq!(s.imu_b_a_x, single(1.0));
    s.reset_section(Section::Imu);
    s.reset_section(Section::Mag);
    assert_eq!(s.reset_section(Section::Baro).feature, "baro");
    assert_eq!(s.imu_b_a_x, single(0.0));
}

#[test]
fn current_choices_falls_back_to_default_with_no_discovery() {
    let s = FaultsPanelState::default();
    let choices = s.current_choices();
    assert!(choices.contains(&"all".to_string()));
    assert!(choices.contains(&"drone_1".to_string()));
    assert!(choices.contains(&"drone_10".to_string()));
}

#[test]
fn current_choices_includes_discovered_names_sorted() {
    let s = FaultsPanelState {
        seen_drones: Some(vec!["zulu".to_string(), "alpha".to_string(), "mike".to_string()]),
        ..Default::default()
    };
    let choices = s.current_choices();
    assert_eq!(choices[0], "all");
    assert_eq!(choices[1], "alpha");
    assert_eq!(choices[2], "mike");
    assert_eq!(choices[3], "zulu");
}

#[test]
fn current_choices_includes_extras_after_discovered() {
    let s = FaultsPanelState {
        seen_drones: Some(vec!["drone_1".to_string()]),
        extras: vec!["override_drone".to_string()],
        ..Default::default()
    };
    let choices = s.current_choices();
    assert_eq!(choices, vec!["all", "drone_1", "override_drone"]);
}

#[test]
fn current_choices_deduplicates() {
    let s = FaultsPanelState {
        seen_drones: Some(vec!["all".to_string(), "drone_1".to_string()]),
        extras: vec!["drone_1".to_string(), "drone_2".to_string()],
        ..Default::default()
    };
    let choices = s.current_choices();
    assert_eq!(choices.iter().filter(|s| *s == "all").count(), 1);
    assert_eq!(choices.iter().filter(|s| *s == "drone_1").count(), 1);
    assert!(choices.contains(&"drone_2".to_string()));
}

#[test]
fn nothing_seen_yet_is_not_no_discovery() {
    let s = FaultsPanelState { seen_drones: Some(Vec::new()), ..Default::default() };
    assert_eq!(s.current_choices(), vec!["all"]);
    let named = FaultsPanelState { extras: vec!["x".to_string()], ..Default::default() };
    assert_eq!(named.current_choices(), vec!["all", "x"]);
}

#[test]
fn forced_fix_has_words() {
    let words: Vec<&str> = (-2..=7).map(fix_override_label).collect();
    assert_eq!(
        words,
        vec![
            "?", "auto", "no fix", "no fix", "2D fix", "3D fix", "DGPS", "RTK Float", "RTK Fixed",
            "?",
        ],
    );
}

#[test]
fn a_named_drone_keeps_the_default_choices_away() {
    let all = FaultsPanelState { extras: vec!["all".to_string()], ..Default::default() };
    assert_eq!(all.current_choices(), vec!["all"]);
}
