//! Faults and generators: which slider stands under which name in a command, what is
//! sent when, and what a generator drives.
use vstd::prelude::*;

use crate::faults::{
    at_rest, choices, dirty_of, fix_words, flushed, is_gps_dropout, is_imu_freeze, is_mag_spike,
    is_params, is_reset, is_set_command, section_name, section_of, with_dirty, ArgValue,
    FaultsPanelState, PendingCommand, Section,
};
use crate::generators::{
    driven, fnv, offered, pressed, shifted, ticked, unstarted, valued, wave_name, yielded,
    GenButton, Generator, Tick, Waveform, SLIDER_TARGETS,
};
use crate::keymap::KeyMap;
use crate::num::{Num, Num32};
use crate::text::{before, first_of_unique};

verus! {

/// The three numbers that stand under a name.
pub open spec fn three(m: KeyMap<ArgValue>, name: Seq<char>) -> Seq<Num32> {
    m@[name]->Triple_0@
}

// ---------------------------------------------------------------- names

/// The GPS command carries each number of its sliders under the slider's own name: the
/// biases as one triple, north first, east second, down third.
pub proof fn gps_commands_carry_the_gps_sliders(c: PendingCommand, s: FaultsPanelState)
    requires
        is_set_command(c, s, Section::Gps),
    ensures
        c.feature@ == "gps"@,
        c.label@ == "set_"@ + "gps"@,
        c.drone@ == s.drone@,
        !c.reset,
        c.args@["sigma_p"@] == ArgValue::Slider(s.gps_sigma_p),
        c.args@["sigma_v"@] == ArgValue::Slider(s.gps_sigma_v),
        c.args@["_e"@] is Triple,
        three(c.args, "_e"@) == seq![s.gps_bias_n, s.gps_bias_e, s.gps_bias_d],
        c.args@["sats_base"@] == ArgValue::Slider(s.gps_sats_base),
        c.args@["fix_override"@] == ArgValue::Int(s.gps_fix_override as i64),
        c.args@["cep_pvt_h"@] == ArgValue::Slider(s.gps_cep_pvt_h),
        c.args@["cep_pvt_v"@] == ArgValue::Slider(s.gps_cep_pvt_v),
        c.args@["cep_rtk_h"@] == ArgValue::Slider(s.gps_cep_rtk_h),
        c.args@["cep_rtk_v"@] == ArgValue::Slider(s.gps_cep_rtk_v),
        forall|k: Seq<char>|
            #![trigger c.args@.contains_key(k)]
            c.args@.contains_key(k) <==> k == "sigma_p"@ || k == "sigma_v"@ || k == "_e"@ || k
                == "sats_base"@ || k == "fix_override"@ || k == "cep_pvt_h"@ || k == "cep_pvt_v"@
                || k == "cep_rtk_h"@ || k == "cep_rtk_v"@,
{
}

/// The IMU command carries the accelerometer biases under `b_a` and the gyroscope biases
/// under `b_g`, each as `x`, `y`, `z`, and the two noises under their own names.
pub proof fn imu_commands_carry_the_imu_sliders(c: PendingCommand, s: FaultsPanelState)
    requires
        is_set_command(c, s, Section::Imu),
    ensures
        c.feature@ == "imu"@,
        c.label@ == "set_"@ + "imu"@,
        c.drone@ == s.drone@,
        !c.reset,
        c.args@["b_a"@] is Triple,
        three(c.args, "b_a"@) == seq![s.imu_b_a_x, s.imu_b_a_y, s.imu_b_a_z],
        c.args@["b_g"@] is Triple,
        three(c.args, "b_g"@) == seq![s.imu_b_g_x, s.imu_b_g_y, s.imu_b_g_z],
        c.args@["sigma_a_n"@] == ArgValue::Slider(s.imu_sigma_a_n),
        c.args@["sigma_g_n"@] == ArgValue::Slider(s.imu_sigma_g_n),
        forall|k: Seq<char>|
            #![trigger c.args@.contains_key(k)]
            c.args@.contains_key(k) <==> k == "b_a"@ || k == "b_g"@ || k == "sigma_a_n"@ || k
                == "sigma_g_n"@,
{
}

/// The magnetometer command carries the hard iron under `hard_iron` and the noises under
/// `sigma`, each as `x`, `y`, `z`.
pub proof fn mag_commands_carry_the_mag_sliders(c: PendingCommand, s: FaultsPanelState)
    requires
        is_set_command(c, s, Section::Mag),
    ensures
        c.feature@ == "mag"@,
        c.label@ == "set_"@ + "mag"@,
        c.drone@ == s.drone@,
        !c.reset,
        c.args@["hard_iron"@] is Triple,
        three(c.args, "hard_iron"@) == seq![s.mag_hi_x, s.mag_hi_y, s.mag_hi_z],
        c.args@["sigma"@] is Triple,
        three(c.args, "sigma"@) == seq![s.mag_sigma_x, s.mag_sigma_y, s.mag_sigma_z],
        forall|k: Seq<char>|
            #![trigger c.args@.contains_key(k)]
            c.args@.contains_key(k) <==> k == "hard_iron"@ || k == "sigma"@,
{
}

/// The barometer command carries its bias and its noise under their own names.
pub proof fn baro_commands_carry_the_baro_sliders(c: PendingCommand, s: FaultsPanelState)
    requires
        is_set_command(c, s, Section::Baro),
    ensures
        c.feature@ == "baro"@,
        c.label@ == "set_"@ + "baro"@,
        c.drone@ == s.drone@,
        !c.reset,
        c.args@["bias_pa"@] == ArgValue::Slider(s.baro_bias_pa),
        c.args@["sigma_pa"@] == ArgValue::Slider(s.baro_sigma_pa),
        forall|k: Seq<char>|
            #![trigger c.args@.contains_key(k)]
            c.args@.contains_key(k) <==> k == "bias_pa"@ || k == "sigma_pa"@,
{
}

// ---------------------------------------------------------------- driving

/// Do two commands hold the same under a name?
pub open spec fn alike(a: KeyMap<ArgValue>, b: KeyMap<ArgValue>, name: Seq<char>) -> bool {
    match (a@[name], b@[name]) {
        (ArgValue::Triple(x), ArgValue::Triple(y)) => x@ == y@,
        (x, y) => x == y,
    }
}

/// Driving an IMU slider by its name changes what stands for it in the IMU command, and
/// nothing else there.
pub proof fn driven_imu_sliders_show_in_their_place(
    s: FaultsPanelState,
    v: Num32,
    a: KeyMap<ArgValue>,
    ax: KeyMap<ArgValue>,
    ay: KeyMap<ArgValue>,
    az: KeyMap<ArgValue>,
    gx: KeyMap<ArgValue>,
    gy: KeyMap<ArgValue>,
    gz: KeyMap<ArgValue>,
    na: KeyMap<ArgValue>,
    ng: KeyMap<ArgValue>,
)
    requires
        is_params(a, s, Section::Imu),
        is_params(ax, driven(s, "imu.b_a.x"@, v), Section::Imu),
        is_params(ay, driven(s, "imu.b_a.y"@, v), Section::Imu),
        is_params(az, driven(s, "imu.b_a.z"@, v), Section::Imu),
        is_params(gx, driven(s, "imu.b_g.x"@, v), Section::Imu),
        is_params(gy, driven(s, "imu.b_g.y"@, v), Section::Imu),
        is_params(gz, driven(s, "imu.b_g.z"@, v), Section::Imu),
        is_params(na, driven(s, "imu.sigma_a_n"@, v), Section::Imu),
        is_params(ng, driven(s, "imu.sigma_g_n"@, v), Section::Imu),
    ensures
        three(ax, "b_a"@) == three(a, "b_a"@).update(0, v),
        three(ay, "b_a"@) == three(a, "b_a"@).update(1, v),
        three(az, "b_a"@) == three(a, "b_a"@).update(2, v),
        three(gx, "b_g"@) == three(a, "b_g"@).update(0, v),
        three(gy, "b_g"@) == three(a, "b_g"@).update(1, v),
        three(gz, "b_g"@) == three(a, "b_g"@).update(2, v),
        na@["sigma_a_n"@] == ArgValue::Slider(v),
        ng@["sigma_g_n"@] == ArgValue::Slider(v),
        alike(a, ax, "b_g"@) && alike(a, ay, "b_g"@) && alike(a, az, "b_g"@),
        alike(a, gx, "b_a"@) && alike(a, gy, "b_a"@) && alike(a, gz, "b_a"@),
        alike(a, na, "b_a"@) && alike(a, na, "b_g"@) && alike(a, na, "sigma_g_n"@),
        alike(a, ng, "b_a"@) && alike(a, ng, "b_g"@) && alike(a, ng, "sigma_a_n"@),
        alike(a, ax, "sigma_a_n"@) && alike(a, ay, "sigma_a_n"@) && alike(a, az, "sigma_a_n"@),
        alike(a, gx, "sigma_a_n"@) && alike(a, gy, "sigma_a_n"@) && alike(a, gz, "sigma_a_n"@),
        alike(a, ax, "sigma_g_n"@) && alike(a, ay, "sigma_g_n"@) && alike(a, az, "sigma_g_n"@),
        alike(a, gx, "sigma_g_n"@) && alike(a, gy, "sigma_g_n"@) && alike(a, gz, "sigma_g_n"@),
{
    lemma_targets_differ();
}

/// Driving a magnetometer slider by its name changes what stands for it in the
/// magnetometer command, and nothing else there.
pub proof fn driven_mag_sliders_show_in_their_place(
    s: FaultsPanelState,
    v: Num32,
    a: KeyMap<ArgValue>,
    hx: KeyMap<ArgValue>,
    hy: KeyMap<ArgValue>,
    hz: KeyMap<ArgValue>,
    sx: KeyMap<ArgValue>,
    sy: KeyMap<ArgValue>,
    sz: KeyMap<ArgValue>,
)
    requires
        is_params(a, s, Section::Mag),
        is_params(hx, driven(s, "mag.hi.x"@, v), Section::Mag),
        is_params(hy, driven(s, "mag.hi.y"@, v), Section::Mag),
        is_params(hz, driven(s, "mag.hi.z"@, v), Section::Mag),
        is_params(sx, driven(s, "mag.sigma.x"@, v), Section::Mag),
        is_params(sy, driven(s, "mag.sigma.y"@, v), Section::Mag),
        is_params(sz, driven(s, "mag.sigma.z"@, v), Section::Mag),
    ensures
        three(hx, "hard_iron"@) == three(a, "hard_iron"@).update(0, v),
        three(hy, "hard_iron"@) == three(a, "hard_iron"@).update(1, v),
        three(hz, "hard_iron"@) == three(a, "hard_iron"@).update(2, v),
        three(sx, "sigma"@) == three(a, "sigma"@).update(0, v),
        three(sy, "sigma"@) == three(a, "sigma"@).update(1, v),
        three(sz, "sigma"@) == three(a, "sigma"@).update(2, v),
        alike(a, hx, "sigma"@) && alike(a, hy, "sigma"@) && alike(a, hz, "sigma"@),
        alike(a, sx, "hard_iron"@) && alike(a, sy, "hard_iron"@) && alike(a, sz, "hard_iron"@),
{
    lemma_targets_differ();
}

/// Driving a GPS slider by its name changes what stands for it in the GPS command, and
/// nothing else there.
pub proof fn driven_gps_sliders_show_in_their_place(
    s: FaultsPanelState,
    v: Num32,
    a: KeyMap<ArgValue>,
    p: KeyMap<ArgValue>,
    q: KeyMap<ArgValue>,
    n: KeyMap<ArgValue>,
    e: KeyMap<ArgValue>,
    d: KeyMap<ArgValue>,
    k: Seq<char>,
)
    requires
        is_params(a, s, Section::Gps),
        is_params(p, driven(s, "gps.sigma_p"@, v), Section::Gps),
        is_params(q, driven(s, "gps.sigma_v"@, v), Section::Gps),
        is_params(n, driven(s, "gps.bias_n"@, v), Section::Gps),
        is_params(e, driven(s, "gps.bias_e"@, v), Section::Gps),
        is_params(d, driven(s, "gps.bias_d"@, v), Section::Gps),
        a@.contains_key(k),
    ensures
        p@["sigma_p"@] == ArgValue::Slider(v),
        q@["sigma_v"@] == ArgValue::Slider(v),
        three(n, "_e"@) == three(a, "_e"@).update(0, v),
        three(e, "_e"@) == three(a, "_e"@).update(1, v),
        three(d, "_e"@) == three(a, "_e"@).update(2, v),
        k != "sigma_p"@ ==> alike(a, p, k),
        k != "sigma_v"@ ==> alike(a, q, k),
        k != "_e"@ ==> alike(a, n, k) && alike(a, e, k) && alike(a, d, k),
{
    lemma_targets_differ();
    lemma_gps_names();
}

/// Driving a barometer slider by its name changes what stands for it in the barometer
/// command, and nothing else there.
pub proof fn driven_baro_sliders_show_in_their_place(
    s: FaultsPanelState,
    v: Num32,
    a: KeyMap<ArgValue>,
    b: KeyMap<ArgValue>,
    n: KeyMap<ArgValue>,
)
    requires
        is_params(a, s, Section::Baro),
        is_params(b, driven(s, "baro.bias_pa"@, v), Section::Baro),
        is_params(n, driven(s, "baro.sigma_pa"@, v), Section::Baro),
    ensures
        b@["bias_pa"@] == ArgValue::Slider(v),
        n@["sigma_pa"@] == ArgValue::Slider(v),
        alike(a, b, "sigma_pa"@),
        alike(a, n, "bias_pa"@),
{
    lemma_targets_differ();
}

proof fn lemma_gps_names()
    ensures
        "sigma_p"@ != "sigma_v"@,
        "sigma_p"@ != "_e"@,
        "sigma_v"@ != "_e"@,
{
    reveal_strlit("sigma_p");
    reveal_strlit("sigma_v");
    reveal_strlit("_e");
    assert("sigma_p"@[6] == 'p' && "sigma_v"@[6] == 'v');
    assert("_e"@.len() == 2 && "sigma_p"@.len() == 7 && "sigma_v"@.len() == 7);
}

/// The place of a name among those that a generator can drive, told by its length, its last
/// character and the third from the end.
spec fn place(t: Seq<char>) -> int {
    let n = t.len() as int;
    let z = t[n - 1];
    let x = t[n - 3];
    if n == 11 && z == 'p' && x == 'a' {
        0
    } else if n == 11 && z == 'v' && x == 'a' {
        1
    } else if n == 10 && z == 'n' && x == 's' {
        2
    } else if n == 10 && z == 'e' && x == 's' {
        3
    } else if n == 10 && z == 'd' && x == 's' {
        4
    } else if n == 9 && z == 'x' && x == 'a' {
        5
    } else if n == 9 && z == 'y' && x == 'a' {
        6
    } else if n == 9 && z == 'z' && x == 'a' {
        7
    } else if n == 9 && z == 'x' && x == 'g' {
        8
    } else if n == 9 && z == 'y' && x == 'g' {
        9
    } else if n == 9 && z == 'z' && x == 'g' {
        10
    } else if n == 13 && z == 'n' && x == 'a' {
        11
    } else if n == 13 && z == 'n' && x == 'g' {
        12
    } else if n == 8 && z == 'x' && x == 'i' {
        13
    } else if n == 8 && z == 'y' && x == 'i' {
        14
    } else if n == 8 && z == 'z' && x == 'i' {
        15
    } else if n == 11 && z == 'x' && x == 'a' {
        16
    } else if n == 11 && z == 'y' && x == 'a' {
        17
    } else if n == 11 && z == 'z' && x == 'a' {
        18
    } else if n == 12 && z == 'a' && x == '_' {
        19
    } else if n == 13 && z == 'a' && x == '_' {
        20
    } else {
        21
    }
}

/// The names of the sliders can be told apart by their characters.
proof fn lemma_targets_differ()
    ensures
        section_of("gps.sigma_p"@) == Some(Section::Gps),
        section_of("gps.sigma_v"@) == Some(Section::Gps),
        section_of("gps.bias_n"@) == Some(Section::Gps),
        section_of("gps.bias_e"@) == Some(Section::Gps),
        section_of("gps.bias_d"@) == Some(Section::Gps),
        section_of("imu.b_a.x"@) == Some(Section::Imu),
        section_of("imu.b_a.y"@) == Some(Section::Imu),
        section_of("imu.b_a.z"@) == Some(Section::Imu),
        section_of("imu.b_g.x"@) == Some(Section::Imu),
        section_of("imu.b_g.y"@) == Some(Section::Imu),
        section_of("imu.b_g.z"@) == Some(Section::Imu),
        section_of("imu.sigma_a_n"@) == Some(Section::Imu),
        section_of("imu.sigma_g_n"@) == Some(Section::Imu),
        section_of("mag.hi.x"@) == Some(Section::Mag),
        section_of("mag.hi.y"@) == Some(Section::Mag),
        section_of("mag.hi.z"@) == Some(Section::Mag),
        section_of("mag.sigma.x"@) == Some(Section::Mag),
        section_of("mag.sigma.y"@) == Some(Section::Mag),
        section_of("mag.sigma.z"@) == Some(Section::Mag),
        section_of("baro.bias_pa"@) == Some(Section::Baro),
        section_of("baro.sigma_pa"@) == Some(Section::Baro),
        forall|i: int, j: int|
            0 <= i < j < 21 ==> #[trigger] SLIDER_TARGETS@[i]@ != #[trigger] SLIDER_TARGETS@[j]@,
        SLIDER_TARGETS@[0]@ == "gps.sigma_p"@,
        SLIDER_TARGETS@[1]@ == "gps.sigma_v"@,
        SLIDER_TARGETS@[2]@ == "gps.bias_n"@,
        SLIDER_TARGETS@[3]@ == "gps.bias_e"@,
        SLIDER_TARGETS@[4]@ == "gps.bias_d"@,
        SLIDER_TARGETS@[5]@ == "imu.b_a.x"@,
        SLIDER_TARGETS@[6]@ == "imu.b_a.y"@,
        SLIDER_TARGETS@[7]@ == "imu.b_a.z"@,
        SLIDER_TARGETS@[8]@ == "imu.b_g.x"@,
        SLIDER_TARGETS@[9]@ == "imu.b_g.y"@,
        SLIDER_TARGETS@[10]@ == "imu.b_g.z"@,
        SLIDER_TARGETS@[11]@ == "imu.sigma_a_n"@,
        SLIDER_TARGETS@[12]@ == "imu.sigma_g_n"@,
        SLIDER_TARGETS@[13]@ == "mag.hi.x"@,
        SLIDER_TARGETS@[14]@ == "mag.hi.y"@,
        SLIDER_TARGETS@[15]@ == "mag.hi.z"@,
        SLIDER_TARGETS@[16]@ == "mag.sigma.x"@,
        SLIDER_TARGETS@[17]@ == "mag.sigma.y"@,
        SLIDER_TARGETS@[18]@ == "mag.sigma.z"@,
        SLIDER_TARGETS@[19]@ == "baro.bias_pa"@,
        SLIDER_TARGETS@[20]@ == "baro.sigma_pa"@,
{
    reveal_strlit("gps.sigma_p");
    reveal_strlit("gps.sigma_v");
    reveal_strlit("gps.bias_n");
    reveal_strlit("gps.bias_e");
    reveal_strlit("gps.bias_d");
    reveal_strlit("imu.b_a.x");
    reveal_strlit("imu.b_a.y");
    reveal_strlit("imu.b_a.z");
    reveal_strlit("imu.b_g.x");
    reveal_strlit("imu.b_g.y");
    reveal_strlit("imu.b_g.z");
    reveal_strlit("imu.sigma_a_n");
    reveal_strlit("imu.sigma_g_n");
    reveal_strlit("mag.hi.x");
    reveal_strlit("mag.hi.y");
    reveal_strlit("mag.hi.z");
    reveal_strlit("mag.sigma.x");
    reveal_strlit("mag.sigma.y");
    reveal_strlit("mag.sigma.z");
    reveal_strlit("baro.bias_pa");
    reveal_strlit("baro.sigma_pa");
    reveal_strlit("gps");
    reveal_strlit("imu");
    reveal_strlit("mag");
    reveal_strlit("baro");
    assert("gps.sigma_p"@.take(3) =~= "gps"@);
    lemma_section("gps.sigma_p"@, Section::Gps);
    assert("gps.sigma_v"@.take(3) =~= "gps"@);
    lemma_section("gps.sigma_v"@, Section::Gps);
    assert("gps.bias_n"@.take(3) =~= "gps"@);
    lemma_section("gps.bias_n"@, Section::Gps);
    assert("gps.bias_e"@.take(3) =~= "gps"@);
    lemma_section("gps.bias_e"@, Section::Gps);
    assert("gps.bias_d"@.take(3) =~= "gps"@);
    lemma_section("gps.bias_d"@, Section::Gps);
    assert("imu.b_a.x"@.take(3) =~= "imu"@);
    lemma_section("imu.b_a.x"@, Section::Imu);
    assert("imu.b_a.y"@.take(3) =~= "imu"@);
    lemma_section("imu.b_a.y"@, Section::Imu);
    assert("imu.b_a.z"@.take(3) =~= "imu"@);
    lemma_section("imu.b_a.z"@, Section::Imu);
    assert("imu.b_g.x"@.take(3) =~= "imu"@);
    lemma_section("imu.b_g.x"@, Section::Imu);
    assert("imu.b_g.y"@.take(3) =~= "imu"@);
    lemma_section("imu.b_g.y"@, Section::Imu);
    assert("imu.b_g.z"@.take(3) =~= "imu"@);
    lemma_section("imu.b_g.z"@, Section::Imu);
    assert("imu.sigma_a_n"@.take(3) =~= "imu"@);
    lemma_section("imu.sigma_a_n"@, Section::Imu);
    assert("imu.sigma_g_n"@.take(3) =~= "imu"@);
    lemma_section("imu.sigma_g_n"@, Section::Imu);
    assert("mag.hi.x"@.take(3) =~= "mag"@);
    lemma_section("mag.hi.x"@, Section::Mag);
    assert("mag.hi.y"@.take(3) =~= "mag"@);
    lemma_section("mag.hi.y"@, Section::Mag);
    assert("mag.hi.z"@.take(3) =~= "mag"@);
    lemma_section("mag.hi.z"@, Section::Mag);
    assert("mag.sigma.x"@.take(3) =~= "mag"@);
    lemma_section("mag.sigma.x"@, Section::Mag);
    assert("mag.sigma.y"@.take(3) =~= "mag"@);
    lemma_section("mag.sigma.y"@, Section::Mag);
    assert("mag.sigma.z"@.take(3) =~= "mag"@);
    lemma_section("mag.sigma.z"@, Section::Mag);
    assert("baro.bias_pa"@.take(4) =~= "baro"@);
    lemma_section("baro.bias_pa"@, Section::Baro);
    assert("baro.sigma_pa"@.take(4) =~= "baro"@);
    lemma_section("baro.sigma_pa"@, Section::Baro);
    assert(place("gps.sigma_p"@) == 0);
    assert(place("gps.sigma_v"@) == 1);
    assert(place("gps.bias_n"@) == 2);
    assert(place("gps.bias_e"@) == 3);
    assert(place("gps.bias_d"@) == 4);
    assert(place("imu.b_a.x"@) == 5);
    assert(place("imu.b_a.y"@) == 6);
    assert(place("imu.b_a.z"@) == 7);
    assert(place("imu.b_g.x"@) == 8);
    assert(place("imu.b_g.y"@) == 9);
    assert(place("imu.b_g.z"@) == 10);
    assert(place("imu.sigma_a_n"@) == 11);
    assert(place("imu.sigma_g_n"@) == 12);
    assert(place("mag.hi.x"@) == 13);
    assert(place("mag.hi.y"@) == 14);
    assert(place("mag.hi.z"@) == 15);
    assert(place("mag.sigma.x"@) == 16);
    assert(place("mag.sigma.y"@) == 17);
    assert(place("mag.sigma.z"@) == 18);
    assert(place("baro.bias_pa"@) == 19);
    assert(place("baro.sigma_pa"@) == 20);
    assert forall|i: int| 0 <= i < 21 implies place((#[trigger] SLIDER_TARGETS@[i])@) == i by {
    }
    assert forall|i: int, j: int| 0 <= i < j < 21 implies #[trigger] SLIDER_TARGETS@[i]@
        != #[trigger] SLIDER_TARGETS@[j]@ by {
        assert(place(SLIDER_TARGETS@[i]@) == i);
        assert(place(SLIDER_TARGETS@[j]@) == j);
    }
}

/// What stands before the first dot of a name is its section; any other name has none.
pub proof fn names_begin_with_their_section(rest: Seq<char>)
    ensures
        section_of("gps."@ + rest) == Some(Section::Gps),
        section_of("imu."@ + rest) == Some(Section::Imu),
        section_of("mag."@ + rest) == Some(Section::Mag),
        section_of("baro."@ + rest) == Some(Section::Baro),
{
    reveal_strlit("gps");
    reveal_strlit("imu");
    reveal_strlit("mag");
    reveal_strlit("baro");
    reveal_strlit("gps.");
    reveal_strlit("imu.");
    reveal_strlit("mag.");
    reveal_strlit("baro.");
    assert(("gps."@ + rest).take(3) =~= "gps"@);
    assert(("imu."@ + rest).take(3) =~= "imu"@);
    assert(("mag."@ + rest).take(3) =~= "mag"@);
    assert(("baro."@ + rest).take(4) =~= "baro"@);
    lemma_section("gps."@ + rest, Section::Gps);
    lemma_section("imu."@ + rest, Section::Imu);
    lemma_section("mag."@ + rest, Section::Mag);
    lemma_section("baro."@ + rest, Section::Baro);
}

proof fn lemma_section(t: Seq<char>, sec: Section)
    requires
        t.len() > section_name(sec).len(),
        t.take(section_name(sec).len() as int) == section_name(sec),
        t[section_name(sec).len() as int] == '.',
    ensures
        section_of(t) == Some(sec),
{
    reveal_strlit("gps");
    reveal_strlit("imu");
    reveal_strlit("mag");
    reveal_strlit("baro");
    let n = section_name(sec).len() as int;
    assert forall|k: int| 0 <= k < n implies t[k] != '.' by {
        assert(t[k] == t.take(n)[k]);
    }
    first_of_unique(t, '.', '.', n);
    assert("gps"@.len() == 3 && "imu"@.len() == 3 && "mag"@.len() == 3 && "baro"@.len() == 4);
    assert("gps"@[0] == 'g' && "imu"@[0] == 'i' && "mag"@[0] == 'm');
}

/// A driven slider makes its own section due at once and leaves every other as it was.
pub proof fn driving_makes_its_section_due(s: FaultsPanelState, rest: Seq<char>, v: Num32)
    ensures
        ({
            let n = driven(s, "gps."@ + rest, v);
            &&& n.gps_dirty_since == Some(i64::MIN)
            &&& n.imu_dirty_since == s.imu_dirty_since
            &&& n.mag_dirty_since == s.mag_dirty_since
            &&& n.baro_dirty_since == s.baro_dirty_since
            &&& n.drone == s.drone
        }),
        ({
            let n = driven(s, "imu."@ + rest, v);
            &&& n.imu_dirty_since == Some(i64::MIN)
            &&& n.gps_dirty_since == s.gps_dirty_since
            &&& n.mag_dirty_since == s.mag_dirty_since
            &&& n.baro_dirty_since == s.baro_dirty_since
            &&& n.drone == s.drone
        }),
        ({
            let n = driven(s, "mag."@ + rest, v);
            &&& n.mag_dirty_since == Some(i64::MIN)
            &&& n.gps_dirty_since == s.gps_dirty_since
            &&& n.imu_dirty_since == s.imu_dirty_since
            &&& n.baro_dirty_since == s.baro_dirty_since
            &&& n.drone == s.drone
        }),
        ({
            let n = driven(s, "baro."@ + rest, v);
            &&& n.baro_dirty_since == Some(i64::MIN)
            &&& n.gps_dirty_since == s.gps_dirty_since
            &&& n.imu_dirty_since == s.imu_dirty_since
            &&& n.mag_dirty_since == s.mag_dirty_since
            &&& n.drone == s.drone
        }),
{
    names_begin_with_their_section(rest);
}

// ---------------------------------------------------------------- sending

/// A section that was changed at `t` is sent by a flush at `now` exactly if fifty
/// milliseconds have passed since, and is then no longer due. Its command is the only one
/// of its kind, is for the drone that is aimed at, and holds the sliders as they stand.
pub proof fn changes_are_sent_after_a_rest(
    s: FaultsPanelState,
    touched: FaultsPanelState,
    next: FaultsPanelState,
    section: Section,
    t: i64,
    now: i64,
    a: Seq<PendingCommand>,
    b: Seq<PendingCommand>,
)
    requires
        touched == with_dirty(s, section, Some(t)),
        flushed(touched, next, now, a, b),
    ensures
        now - t >= 50_000 ==> dirty_of(next, section) is None,
        now - t < 50_000 ==> dirty_of(next, section) == Some(t),
        now - t >= 50_000 <==> exists|k: int|
            a.len() <= k < b.len() && (#[trigger] b[k]).feature@ == section_name(section),
        forall|k: int, l: int|
            a.len() <= k < l < b.len() ==> (#[trigger] b[k]).feature@ != (#[trigger] b[l]).feature@,
        forall|k: int| a.len() <= k < b.len() ==> (#[trigger] b[k]).drone@ == s.drone@ && !b[k].reset,
        forall|k: int| 0 <= k < a.len() ==> #[trigger] b[k] == a[k],
{
    reveal_strlit("gps");
    reveal_strlit("imu");
    reveal_strlit("mag");
    reveal_strlit("baro");
    assert("gps"@.len() == 3 && "imu"@.len() == 3 && "mag"@.len() == 3 && "baro"@.len() == 4);
    assert("gps"@[0] == 'g' && "imu"@[0] == 'i' && "mag"@[0] == 'm');
    let g: int = if crate::faults::due(touched.gps_dirty_since, now) { 1 } else { 0 };
    let i: int = if crate::faults::due(touched.imu_dirty_since, now) { 1 } else { 0 };
    let m: int = if crate::faults::due(touched.mag_dirty_since, now) { 1 } else { 0 };
    let n = a.len() as int;
    if now - t >= 50_000 {
        let k = match section {
            Section::Gps => n,
            Section::Imu => n + g,
            Section::Mag => n + g + i,
            Section::Baro => n + g + i + m,
        };
        assert(b[k].feature@ == section_name(section));
    }
    assert forall|k: int| 0 <= k < a.len() implies #[trigger] b[k] == a[k] by {
        assert(b.take(n)[k] == a[k]);
    }
}

/// Sections are sent in the order GPS, IMU, magnetometer, barometer.
pub proof fn sections_are_sent_in_order(
    s: FaultsPanelState,
    next: FaultsPanelState,
    now: i64,
    a: Seq<PendingCommand>,
    b: Seq<PendingCommand>,
    k: int,
    l: int,
)
    requires
        flushed(s, next, now, a, b),
        a.len() <= k < l < b.len(),
    ensures
        b[l].feature@ != "gps"@,
        b[l].feature@ == "imu"@ ==> b[k].feature@ == "gps"@,
        b[l].feature@ == "mag"@ ==> b[k].feature@ == "gps"@ || b[k].feature@ == "imu"@,
        b[k].feature@ != "baro"@,
{
    reveal_strlit("gps");
    reveal_strlit("imu");
    reveal_strlit("mag");
    reveal_strlit("baro");
    assert("gps"@.len() == 3 && "imu"@.len() == 3 && "mag"@.len() == 3 && "baro"@.len() == 4);
    assert("gps"@[0] == 'g' && "imu"@[0] == 'i' && "mag"@[0] == 'm');
}

/// Sending moves no slider.
pub proof fn sending_moves_no_slider(
    s: FaultsPanelState,
    next: FaultsPanelState,
    now: i64,
    a: Seq<PendingCommand>,
    b: Seq<PendingCommand>,
    m: KeyMap<ArgValue>,
    section: Section,
)
    requires
        flushed(s, next, now, a, b),
        is_params(m, s, section),
    ensures
        is_params(m, next, section),
        next.drone == s.drone,
        next.visible == s.visible,
        next.extras == s.extras,
        next.seen_drones == s.seen_drones,
{
}

/// A touch marks its own section, at its time, and moves nothing else.
pub proof fn touching_marks_one_section(s: FaultsPanelState, t: Option<i64>)
    ensures
        with_dirty(s, Section::Gps, t) == (FaultsPanelState { gps_dirty_since: t, ..s }),
        with_dirty(s, Section::Imu, t) == (FaultsPanelState { imu_dirty_since: t, ..s }),
        with_dirty(s, Section::Mag, t) == (FaultsPanelState { mag_dirty_since: t, ..s }),
        with_dirty(s, Section::Baro, t) == (FaultsPanelState { baro_dirty_since: t, ..s }),
        dirty_of(with_dirty(s, Section::Gps, t), Section::Gps) == t,
        dirty_of(with_dirty(s, Section::Imu, t), Section::Imu) == t,
        dirty_of(with_dirty(s, Section::Mag, t), Section::Mag) == t,
        dirty_of(with_dirty(s, Section::Baro, t), Section::Baro) == t,
{
}

// ---------------------------------------------------------------- resets

/// After a reset the command of the section carries what the simulation starts with:
/// zeros, 32 satellites, an automatic fix, and errors of 1.5 and 2 metres without and of 1
/// and 2 centimetres with RTK. Nothing of the section is due.
pub proof fn resets_put_a_section_back(s: FaultsPanelState, m: KeyMap<ArgValue>, section: Section)
    requires
        is_params(m, at_rest(s, section), section),
    ensures
        dirty_of(at_rest(s, section), section) is None,
        ({
            let z = Num32 { bits: 0 };
            &&& section == Section::Gps ==> {
                &&& m@["sigma_p"@] == ArgValue::Slider(z)
                &&& m@["sigma_v"@] == ArgValue::Slider(z)
                &&& three(m, "_e"@) == seq![z, z, z]
                &&& m@["sats_base"@] == ArgValue::Slider(Num32 { bits: 0x4200_0000 })
                &&& m@["fix_override"@] == ArgValue::Int(-1i64)
                &&& m@["cep_pvt_h"@] == ArgValue::Slider(Num32 { bits: 0x3FC0_0000 })
                &&& m@["cep_pvt_v"@] == ArgValue::Slider(Num32 { bits: 0x4000_0000 })
                &&& m@["cep_rtk_h"@] == ArgValue::Slider(Num32 { bits: 0x3C23_D70A })
                &&& m@["cep_rtk_v"@] == ArgValue::Slider(Num32 { bits: 0x3CA3_D70A })
            }
            &&& section == Section::Imu ==> {
                &&& three(m, "b_a"@) == seq![z, z, z]
                &&& three(m, "b_g"@) == seq![z, z, z]
                &&& m@["sigma_a_n"@] == ArgValue::Slider(z)
                &&& m@["sigma_g_n"@] == ArgValue::Slider(z)
            }
            &&& section == Section::Mag ==> {
                &&& three(m, "hard_iron"@) == seq![z, z, z]
                &&& three(m, "sigma"@) == seq![z, z, z]
            }
            &&& section == Section::Baro ==> {
                &&& m@["bias_pa"@] == ArgValue::Slider(z)
                &&& m@["sigma_pa"@] == ArgValue::Slider(z)
            }
        }),
{
}

/// A reset leaves the other sections as they are, due or not, and the aim too.
pub proof fn resets_leave_other_sections(
    s: FaultsPanelState,
    m: KeyMap<ArgValue>,
    section: Section,
    other: Section,
)
    requires
        section != other,
        is_params(m, s, other),
    ensures
        is_params(m, at_rest(s, section), other),
        dirty_of(at_rest(s, section), other) == dirty_of(s, other),
        at_rest(s, section).drone == s.drone,
        at_rest(s, section).visible == s.visible,
        at_rest(s, section).extras == s.extras,
        at_rest(s, section).seen_drones == s.seen_drones,
{
}

/// The command of a reset names its section, has no argument, and says that it is a reset.
pub proof fn reset_commands_name_their_section(c: PendingCommand, section: Section, drone: Seq<char>)
    requires
        is_reset(c, section_name(section), drone),
    ensures
        c.reset,
        c.drone@ == drone,
        forall|k: Seq<char>| !#[trigger] c.args@.contains_key(k),
        section == Section::Gps ==> c.feature@ == "gps"@ && c.label@ == "reset_"@ + "gps"@,
        section == Section::Imu ==> c.feature@ == "imu"@ && c.label@ == "reset_"@ + "imu"@,
        section == Section::Mag ==> c.feature@ == "mag"@ && c.label@ == "reset_"@ + "mag"@,
        section == Section::Baro ==> c.feature@ == "baro"@ && c.label@ == "reset_"@ + "baro"@,
{
}

// ---------------------------------------------------------------- single faults

/// Does a text stand under a name?
pub open spec fn reads(m: KeyMap<ArgValue>, name: Seq<char>, t: Seq<char>) -> bool {
    m@.contains_key(name) && m@[name] is Text && m@[name]->Text_0@ == t
}

/// A dropout sets the satellites to 0 for 10 seconds.
pub proof fn dropouts_take_the_satellites_away(c: PendingCommand, drone: Seq<char>)
    requires
        is_gps_dropout(c, drone),
    ensures
        c.feature@ == "fault"@,
        c.drone@ == drone,
        !c.reset,
        c.label@ == "gps_dropout"@,
        reads(c.args, "target"@, "gps"@),
        reads(c.args, "param"@, "sats_base"@),
        reads(c.args, "profile"@, "dropout"@),
        reads(c.args, "mode"@, "set"@),
        c.args@["t_duration"@] == ArgValue::Number(Num { bits: 0x4024_0000_0000_0000 }),
        c.args@["params"@] is Block,
        c.args@["params"@]->name@ == "value"@,
        c.args@["params"@]->value.bits == 0,
        !c.args@.contains_key("axis"@),
{
    lemma_axis();
}

/// A freeze sets the accelerometer noise to 0 for 10 seconds.
pub proof fn freezes_take_the_noise_away(c: PendingCommand, drone: Seq<char>)
    requires
        is_imu_freeze(c, drone),
    ensures
        c.feature@ == "fault"@,
        c.drone@ == drone,
        !c.reset,
        c.label@ == "imu_freeze"@,
        reads(c.args, "target"@, "imu"@),
        reads(c.args, "param"@, "sigma_a_n"@),
        reads(c.args, "profile"@, "dropout"@),
        reads(c.args, "mode"@, "set"@),
        c.args@["t_duration"@] == ArgValue::Number(Num { bits: 0x4024_0000_0000_0000 }),
        c.args@["params"@] is Block,
        c.args@["params"@]->name@ == "value"@,
        c.args@["params"@]->value.bits == 0,
        !c.args@.contains_key("axis"@),
{
    lemma_axis();
}

/// A spike adds 1000 to the first axis of the hard iron for 5 seconds.
pub proof fn spikes_push_the_first_axis(c: PendingCommand, drone: Seq<char>)
    requires
        is_mag_spike(c, drone),
    ensures
        c.feature@ == "fault"@,
        c.drone@ == drone,
        !c.reset,
        c.label@ == "mag_spike"@,
        reads(c.args, "target"@, "mag"@),
        reads(c.args, "param"@, "hard_iron"@),
        reads(c.args, "profile"@, "step"@),
        reads(c.args, "mode"@, "add"@),
        c.args@["t_duration"@] == ArgValue::Number(Num { bits: 0x4014_0000_0000_0000 }),
        c.args@["params"@] is Block,
        c.args@["params"@]->name@ == "amp"@,
        c.args@["params"@]->value.bits == 0x408F_4000_0000_0000,
        c.args@["axis"@] == ArgValue::Int(0),
{
}

proof fn lemma_axis()
    ensures
        "axis"@ != "target"@,
        "axis"@ != "param"@,
        "axis"@ != "profile"@,
        "axis"@ != "mode"@,
        "axis"@ != "t_duration"@,
        "axis"@ != "params"@,
{
    reveal_strlit("axis");
    reveal_strlit("target");
    reveal_strlit("param");
    reveal_strlit("profile");
    reveal_strlit("mode");
    reveal_strlit("t_duration");
    reveal_strlit("params");
    assert("axis"@[0] == 'a');
    assert("target"@[0] == 't' && "param"@[0] == 'p' && "profile"@[0] == 'p' && "mode"@[0] == 'm'
        && "t_duration"@[0] == 't' && "params"@[0] == 'p');
}

/// The override of the fix reads as the receiver would name it.
pub proof fn overrides_are_named_by_their_number(v: int)
    ensures
        v == -1 ==> fix_words(v) == "auto"@,
        v == 0 || v == 1 ==> fix_words(v) == "no fix"@,
        v == 2 ==> fix_words(v) == "2D fix"@,
        v == 3 ==> fix_words(v) == "3D fix"@,
        v == 4 ==> fix_words(v) == "DGPS"@,
        v == 5 ==> fix_words(v) == "RTK Float"@,
        v == 6 ==> fix_words(v) == "RTK Fixed"@,
        v < -1 || v > 6 ==> fix_words(v) == "?"@,
{
}

/// The drones that can be aimed at begin with all of them; those that were seen come
/// before those that were only named.
pub proof fn seen_drones_are_offered_first(
    seen: Seq<Seq<char>>,
    extras: Seq<Seq<char>>,
    i: int,
    j: int,
)
    requires
        0 <= i < choices(seen, extras).len(),
        0 <= j < choices(seen, extras).len(),
        choices(seen, extras)[i] == "all"@ || seen.contains(choices(seen, extras)[i]),
        choices(seen, extras)[j] != "all"@,
        !seen.contains(choices(seen, extras)[j]),
    ensures
        i < j,
{
    let all = seq!["all"@];
    let mid = crate::faults::with_new(all, seen);
    let whole = choices(seen, extras);
    assert(all.no_duplicates());
    crate::faults::with_new_adds_once(all, seen);
    crate::faults::with_new_adds_once(mid, extras);
    let k = whole[i];
    assert(all[0] == "all"@ && all.contains("all"@));
    assert(mid.contains(k));
    let p = choose|p: int| 0 <= p < mid.len() && mid[p] == k;
    assert(whole.take(mid.len() as int)[p] == whole[p]);
    assert(p == i);
    if j < mid.len() {
        assert(whole.take(mid.len() as int)[j] == whole[j]);
        assert(mid.contains(whole[j]));
        assert(all.contains(whole[j]) ==> whole[j] == "all"@);
        assert(false);
    }
}

// ---------------------------------------------------------------- generators

/// A generator that does not run yields nothing and stays as it is.
pub proof fn stopped_generators_yield_nothing(g: Generator, next: Generator, now: u64, r: Option<Tick>)
    requires
        ticked(g, next, now, r),
    ensures
        r is Some <==> g.running,
        !g.running ==> next == g,
{
}

/// A running generator keeps its start: two ticks are as far apart in what they yield as
/// they are in time, and the first tick of one that has no start is at its start.
pub proof fn time_goes_on_for_a_running_generator(
    g: Generator,
    n1: Generator,
    n2: Generator,
    t1: u64,
    t2: u64,
    r1: Option<Tick>,
    r2: Option<Tick>,
)
    requires
        ticked(g, n1, t1, r1),
        ticked(n1, n2, t2, r2),
        g.running,
        t1 <= t2,
        g.t_start_ms is Some ==> g.t_start_ms->0 <= t1,
    ensures
        r2->0.elapsed_ms - r1->0.elapsed_ms == t2 - t1,
        g.t_start_ms is None ==> r1->0.elapsed_ms == 0,
        g.t_start_ms is Some ==> r1->0.elapsed_ms == t1 - g.t_start_ms->0,
        r1->0.waveform == g.waveform,
        r2->0.waveform == g.waveform,
        n2.target == g.target,
        n2.amplitude == g.amplitude,
        n2.period_s == g.period_s,
        n2.centre == g.centre,
        n2.running,
{
}

/// Only the two shapes that go by chance draw numbers, two each time; the others leave the
/// source of chance alone.
pub proof fn only_chance_draws_numbers(g: Generator, next: Generator, now: u64, r: Option<Tick>)
    requires
        ticked(g, next, now, r),
        g.running,
    ensures
        r->0.draws is Some <==> g.waveform == Waveform::RandomWalk || g.waveform
            == Waveform::WhiteNoise,
        r->0.draws is None ==> next.rng_state == g.rng_state,
{
}

/// The state of chance goes on by three shifts, 12 to the right, 25 to the left and 27 to the
/// right, each joined by exclusive or; what is drawn is the upper 53 bits of a product.
pub proof fn chance_goes_on_by_three_shifts(x: u64, a: u64, b: u64)
    requires
        a == x ^ (x >> 12),
        b == a ^ (a << 25),
    ensures
        shifted(x) == b ^ (b >> 27),
        yielded(x) < 0x20_0000_0000_0000,
        yielded(x) == (((x * 0x2545_F491_4F6C_DD1D) % 0x1_0000_0000_0000_0000) as u64) >> 11,
{
    let p: u64 = ((x * 0x2545_F491_4F6C_DD1D) % 0x1_0000_0000_0000_0000) as u64;
    assert(p >> 11 < 0x20_0000_0000_0000) by (bit_vector);
}

/// The seed of a name takes in one byte after another.
pub proof fn seeds_take_in_one_byte_after_another(bytes: Seq<u8>, b: u8)
    ensures
        fnv(Seq::empty()) == 0xcbf2_9ce4_8422_2325,
        fnv(bytes.push(b)) == (((fnv(bytes) ^ (b as u64)) * 0x100_0000_01b3)
            % 0x1_0000_0000_0000_0000) as u64,
{
    assert(bytes.push(b).drop_last() =~= bytes);
}

/// The button of a generator starts one that never ran, stops one that runs, and lets one
/// that was stopped go on from where it began: pressed twice more, one that has begun is as
/// it was.
pub proof fn the_button_starts_stops_and_goes_on(g: Generator, t: u64, u: u64, w: u64)
    ensures
        offered(g) == GenButton::Pause <==> g.running,
        offered(g) == GenButton::Resume <==> !g.running && g.t_start_ms is Some,
        offered(g) == GenButton::Start <==> !g.running && g.t_start_ms is None,
        pressed(g, t).running == !g.running,
        offered(g) == GenButton::Start ==> pressed(g, t).t_start_ms == Some(t) && pressed(
            g,
            t,
        ).random_walk_state.bits == 0,
        offered(g) == GenButton::Resume ==> pressed(g, t).t_start_ms == g.t_start_ms && pressed(
            g,
            t,
        ).random_walk_state == g.random_walk_state,
        !g.running || g.t_start_ms is Some ==> pressed(pressed(pressed(g, t), u), w) == pressed(
            g,
            t,
        ),
        pressed(g, t).target == g.target,
        pressed(g, t).waveform == g.waveform,
        pressed(g, t).rng_state == g.rng_state,
{
}

/// The value of a tick is remembered as the last one and the walk as the walk, of the
/// generator that ticked and of no other.
pub proof fn values_are_remembered_by_their_generator(
    rows: Seq<Generator>,
    i: int,
    k: int,
    walk: Num,
    value: Num,
)
    requires
        0 <= i < rows.len(),
        0 <= k < rows.len(),
        k != i,
    ensures
        valued(rows, i, walk, value).len() == rows.len(),
        valued(rows, i, walk, value)[i].last_value == Some(value),
        valued(rows, i, walk, value)[i].random_walk_state == walk,
        valued(rows, i, walk, value)[i].target == rows[i].target,
        valued(rows, i, walk, value)[i].running == rows[i].running,
        valued(rows, i, walk, value)[i].t_start_ms == rows[i].t_start_ms,
        valued(rows, i, walk, value)[k] == rows[k],
{
}

/// A new generator stands still, a sine of amplitude 0.1 and period 2 about 0.
pub proof fn new_generators_stand_still(g: Generator, target: &str)
    requires
        unstarted(g, target),
    ensures
        g.target@ == target@,
        offered(g) == GenButton::Start,
        g.waveform == Waveform::Sine,
        g.amplitude.bits == 0x3FB9_9999_9999_999A,
        g.period_s.bits == 0x4000_0000_0000_0000,
        g.centre.bits == 0,
        g.last_value is None,
{
}

/// The shapes have the names that are offered for them.
pub proof fn shapes_are_named()
    ensures
        wave_name(Waveform::Sine) == "Sine"@,
        wave_name(Waveform::Square) == "Square"@,
        wave_name(Waveform::Sawtooth) == "Sawtooth"@,
        wave_name(Waveform::RandomWalk) == "Random walk"@,
        wave_name(Waveform::WhiteNoise) == "White noise"@,
{
}

} // verus!
