use profiler_render::generators::{GenButton, Tick};
use profiler_render::{
    apply_to_faults, hash_seed, FaultsPanelState, Generator, GeneratorPanelState, Num, Num32,
    Waveform, SLIDER_TARGETS,
};

fn num(v: f64) -> Num {
    Num::from_bits(v.to_bits())
}

fn val(n: Num) -> f64 {
    f64::from_bits(n.to_bits())
}

fn single(v: f32) -> Num32 {
    Num32 { bits: v.to_bits() }
}

fn of(n: Num32) -> f32 {
    f32::from_bits(n.bits)
}

fn sine(g: &Generator, tick: &Tick) -> f64 {
    let elapsed = tick.elapsed_ms as f64 / 1000.0;
    let period = val(g.period_s).max(1e-3);
    val(g.centre) + val(g.amplitude) * (std::f64::consts::TAU * elapsed / period).sin()
}

fn tick_and_apply(
    panel: &mut GeneratorPanelState,
    now_ms: u64,
    faults: &mut FaultsPanelState,
) -> usize {
    let mut ticked = 0;
    for i in 0..panel.rows.len() {
        if let Some(tick) = panel.rows[i].tick(now_ms) {
            let v = sine(&panel.rows[i], &tick);
            let walk = panel.rows[i].random_walk_state;
            panel.apply_tick(i, walk, num(v), single(v as f32), faults);
            ticked += 1;
        }
    }
    ticked
}

fn aim(g: &mut Generator, target: &str, amplitude: f64, period: f64, centre: f64) {
    g.target = target.into();
    g.waveform = Waveform::Sine;
    g.amplitude = num(amplitude);
    g.period_s = num(period);
    g.centre = num(centre);
    g.start(0);
}

#[test]
fn waveform_label_roundtrip() {
    for w in Waveform::all() {
        assert!(!w.label().is_empty());
    }
}

#[test]
fn paused_generator_yields_none() {
    let g = Generator::new("gps.sigma_p");
    assert!(!g.running);
    let mut g = g;
    assert!(g.tick(0).is_none());
}

#[test]
fn started_then_paused_stops_emitting() {
    let mut g = Generator::new("gps.sigma_p");
    g.start(0);
    assert!(g.tick(50).is_some());
    g.pause();
    assert!(g.tick(100).is_none());
}

#[test]
fn add_three_generators_tick_writes_into_faults_state() {
    let mut panel = GeneratorPanelState::default();
    panel.add();
    panel.add();
    panel.add();
    assert_eq!(panel.rows.len(), 3);

    aim(&mut panel.rows[0], "gps.sigma_p", 1.0, 4.0, 2.0);
    aim(&mut panel.rows[1], "imu.b_a.x", 0.5, 4.0, -0.25);
    aim(&mut panel.rows[2], "baro.bias_pa", 100.0, 4.0, 0.0);

    let mut faults = FaultsPanelState::default();
    let ticked = tick_and_apply(&mut panel, 100, &mut faults);
    assert_eq!(ticked, 3);

    let wave = (std::f64::consts::TAU * 0.1 / 4.0).sin();
    assert!((of(faults.gps_sigma_p) as f64 - (2.0 + wave)).abs() < 1e-4);
    assert!((of(faults.imu_b_a_x) as f64 - (-0.25 + 0.5 * wave)).abs() < 1e-4);
    assert!((of(faults.baro_bias_pa) as f64 - 100.0 * wave).abs() < 1e-2);
    assert_eq!(faults.gps_dirty_since, Some(i64::MIN));
    assert_eq!(faults.mag_dirty_since, None);
}

#[test]
fn deleting_a_generator_removes_it_and_stops_driving_its_target() {
    let mut panel = GeneratorPanelState::default();
    panel.add();
    panel.add();
    assert_eq!(panel.rows.len(), 2);

    aim(&mut panel.rows[0], "gps.sigma_p", 1.0, 1.0, 5.0);
    aim(&mut panel.rows[1], "gps.sigma_v", 0.3, 1.0, 0.1);

    let mut faults = FaultsPanelState::default();
    tick_and_apply(&mut panel, 100, &mut faults);
    assert!(of(faults.gps_sigma_v) > 0.0);

    panel.remove(1);
    panel.remove(9);
    assert_eq!(panel.rows.len(), 1);

    faults.gps_sigma_v = single(0.0);
    tick_and_apply(&mut panel, 200, &mut faults);
    assert_eq!(of(faults.gps_sigma_v), 0.0, "deleted generator should no longer drive its slider");
    assert!(of(faults.gps_sigma_p) > 4.0);
}

#[test]
fn apply_to_faults_dispatches_to_every_known_slider() {
    let mut f = FaultsPanelState::default();
    let cases: &[(&str, f32)] = &[
        ("gps.sigma_p", 1.0),
        ("gps.sigma_v", 0.2),
        ("gps.bias_n", 1.5),
        ("gps.bias_e", -1.5),
        ("gps.bias_d", 0.5),
        ("imu.b_a.x", 0.1),
        ("imu.b_a.y", 0.2),
        ("imu.b_a.z", 0.3),
        ("imu.b_g.x", 0.01),
        ("imu.b_g.y", 0.02),
        ("imu.b_g.z", 0.03),
        ("imu.sigma_a_n", 0.001),
        ("imu.sigma_g_n", 0.002),
        ("mag.hi.x", 0.1),
        ("mag.hi.y", 0.2),
        ("mag.hi.z", 0.3),
        ("mag.sigma.x", 0.001),
        ("mag.sigma.y", 0.002),
        ("mag.sigma.z", 0.003),
        ("baro.bias_pa", 50.0),
        ("baro.sigma_pa", 5.0),
    ];
    for (t, v) in cases {
        apply_to_faults(t, single(*v), &mut f);
    }
    assert_eq!(of(f.gps_sigma_p), 1.0);
    assert_eq!(of(f.gps_bias_d), 0.5);
    assert_eq!(of(f.imu_b_a_z), 0.3);
    assert_eq!(of(f.imu_sigma_g_n), 0.002);
    assert_eq!(of(f.mag_sigma_z), 0.003);
    assert_eq!(of(f.baro_sigma_pa), 5.0);
    let names: Vec<&str> = cases.iter().map(|c| c.0).collect();
    assert_eq!(names, SLIDER_TARGETS);
}

#[test]
fn unknown_target_is_ignored() {
    let mut f = FaultsPanelState::default();
    let before = f.gps_sigma_p;
    apply_to_faults("nope.does_not_exist", single(99.0), &mut f);
    assert_eq!(f.gps_sigma_p, before);
}

#[test]
fn seeds_differ_and_are_odd() {
    assert_eq!(hash_seed(""), 0xcbf2_9ce4_8422_2325);
    assert_eq!(hash_seed("a"), 0xaf63_dc4c_8601_ec8c | 1);
    assert_eq!(hash_seed("foobar"), 0x8594_4171_f739_67e8 | 1);
    assert_ne!(hash_seed("gps.sigma_p"), hash_seed("gps.sigma_v"));
}

#[test]
fn draws_are_those_of_the_shift_register() {
    let mut g = Generator::new("a");
    g.waveform = Waveform::WhiteNoise;
    g.start(10);
    let mut x = g.rng_state;
    let mut draw = || {
        x ^= x >> 12;
        x ^= x << 25;
        x ^= x >> 27;
        x.wrapping_mul(0x2545_F491_4F6C_DD1D) >> 11
    };
    let (a, b) = (draw(), draw());
    let tick = g.tick(60).unwrap();
    assert_eq!(tick.draws, Some((a, b)));
    assert_eq!(tick.elapsed_ms, 50);
    assert_eq!(g.rng_state, x);
    g.waveform = Waveform::Square;
    assert_eq!(g.tick(5).unwrap(), Tick { waveform: Waveform::Square, elapsed_ms: 0, draws: None });
    assert_eq!(g.rng_state, x);
}

#[test]
fn button_goes_from_start_to_pause_to_resume() {
    let mut g = Generator::new("gps.sigma_p");
    assert_eq!(val(g.amplitude), 0.1);
    assert_eq!(val(g.period_s), 2.0);
    assert_eq!(g.button(), GenButton::Start);
    g.press(100);
    assert_eq!(g.t_start_ms, Some(100));
    assert_eq!(g.button(), GenButton::Pause);
    g.press(200);
    assert_eq!(g.button(), GenButton::Resume);
    g.press(300);
    assert!(g.running);
    assert_eq!(g.t_start_ms, Some(100));
    g.t_start_ms = None;
    assert_eq!(g.tick(400).unwrap().elapsed_ms, 0);
    assert_eq!(g.t_start_ms, Some(400));
}

#[test]
fn running_rows_are_counted() {
    let mut panel = GeneratorPanelState::default();
    panel.add();
    panel.add();
    panel.rows[1].start(0);
    assert_eq!(panel.running_count(), 1);
}

#[test]
fn added_rows_are_unstarted_sines() {
    let mut panel = GeneratorPanelState::default();
    panel.add();
    let g = &panel.rows[0];
    assert_eq!((g.target.as_str(), g.waveform, g.running), ("gps.sigma_p", Waveform::Sine, false));
    assert_eq!((val(g.amplitude), val(g.period_s), val(g.centre)), (0.1, 2.0, 0.0));
    assert_eq!(g.rng_state, hash_seed("gps.sigma_p"));
    assert_eq!((g.t_start_ms, g.last_value), (None, None));
}
