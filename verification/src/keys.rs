//! Source keys: the ones that are known beforehand, what they carry, how fresh
//! they are, and how the picker filters and groups them.
use vstd::prelude::*;

use crate::color::Rgb;
use crate::keymap::{ascending, KeyMap, KeySet};
use crate::store::TraceStore;
use crate::template::StatusKind;
use crate::text::{
    before, begins, contains, ends, ends_with, holds, last_of, owned, prefix_before, rfind,
    same_text, starts_with, texts,
};

verus! {

/// What a source key carries.
#[derive(Clone, Copy, Debug, PartialEq, Eq, Structural)]
pub enum ValueShape {
    /// One number.
    Scalar,
    /// So many numbers, each under its own index.
    Vector(usize),
    /// Text, such as a flight mode.
    String,
    /// A flag, such as `armed`.
    Bool,
    /// A rolling list of messages.
    TextLog,
}

/// The keys that the picker offers before any of them has been seen.
pub const KNOWN_HVN_SITL_KEYS: [(&'static str, ValueShape); 170] = [
    ("t", ValueShape::Scalar),
    ("accel[0]", ValueShape::Scalar),
    ("accel[1]", ValueShape::Scalar),
    ("accel[2]", ValueShape::Scalar),
    ("gyro[0]", ValueShape::Scalar),
    ("gyro[1]", ValueShape::Scalar),
    ("gyro[2]", ValueShape::Scalar),
    ("mag_xyz[0]", ValueShape::Scalar),
    ("mag_xyz[1]", ValueShape::Scalar),
    ("mag_xyz[2]", ValueShape::Scalar),
    ("mag_clean_xyz[0]", ValueShape::Scalar),
    ("mag_clean_xyz[1]", ValueShape::Scalar),
    ("mag_clean_xyz[2]", ValueShape::Scalar),
    ("wind_ned[0]", ValueShape::Scalar),
    ("wind_ned[1]", ValueShape::Scalar),
    ("wind_ned[2]", ValueShape::Scalar),
    ("baro_pressure", ValueShape::Scalar),
    ("baro_temp", ValueShape::Scalar),
    ("baro_alt", ValueShape::Scalar),
    ("state_alt", ValueShape::Scalar),
    ("gps_alt", ValueShape::Scalar),
    ("gps_vn", ValueShape::Scalar),
    ("quat_wxyz[0]", ValueShape::Scalar),
    ("quat_wxyz[1]", ValueShape::Scalar),
    ("quat_wxyz[2]", ValueShape::Scalar),
    ("quat_wxyz[3]", ValueShape::Scalar),
    ("euler[0]", ValueShape::Scalar),
    ("euler[1]", ValueShape::Scalar),
    ("euler[2]", ValueShape::Scalar),
    ("ap_attitude[0]", ValueShape::Scalar),
    ("ap_attitude[1]", ValueShape::Scalar),
    ("ap_attitude[2]", ValueShape::Scalar),
    ("ap_raw_imu[0]", ValueShape::Scalar),
    ("ap_raw_imu[1]", ValueShape::Scalar),
    ("ap_raw_imu[2]", ValueShape::Scalar),
    ("ap_raw_imu[3]", ValueShape::Scalar),
    ("ap_raw_imu[4]", ValueShape::Scalar),
    ("ap_raw_imu[5]", ValueShape::Scalar),
    ("ap_raw_imu[6]", ValueShape::Scalar),
    ("ap_raw_imu[7]", ValueShape::Scalar),
    ("ap_raw_imu[8]", ValueShape::Scalar),
    ("ap_mag_xyz[0]", ValueShape::Scalar),
    ("ap_mag_xyz[1]", ValueShape::Scalar),
    ("ap_mag_xyz[2]", ValueShape::Scalar),
    ("ap_vfr_alt", ValueShape::Scalar),
    ("ap_vel_ned[0]", ValueShape::Scalar),
    ("ap_vel_ned[1]", ValueShape::Scalar),
    ("ap_vel_ned[2]", ValueShape::Scalar),
    ("pos_truth_ned[0]", ValueShape::Scalar),
    ("pos_truth_ned[1]", ValueShape::Scalar),
    ("pos_truth_ned[2]", ValueShape::Scalar),
    ("pos_gps_ned[0]", ValueShape::Scalar),
    ("pos_gps_ned[1]", ValueShape::Scalar),
    ("pos_gps_ned[2]", ValueShape::Scalar),
    ("pos_ekf_ned[0]", ValueShape::Scalar),
    ("pos_ekf_ned[1]", ValueShape::Scalar),
    ("pos_ekf_ned[2]", ValueShape::Scalar),
    ("pos_target_ned[0]", ValueShape::Scalar),
    ("pos_target_ned[1]", ValueShape::Scalar),
    ("pos_target_ned[2]", ValueShape::Scalar),
    ("ekf_flags", ValueShape::Scalar),
    ("ekf_velv", ValueShape::Scalar),
    ("ekf_pos_horiz", ValueShape::Scalar),
    ("ekf_pos_vert", ValueShape::Scalar),
    ("ekf_compv", ValueShape::Scalar),
    ("ekf_terralt", ValueShape::Scalar),
    ("ahrs2_roll", ValueShape::Scalar),
    ("ahrs2_pitch", ValueShape::Scalar),
    ("ahrs2_yaw", ValueShape::Scalar),
    ("ahrs2_alt", ValueShape::Scalar),
    ("ahrs2_lat", ValueShape::Scalar),
    ("ahrs2_lng", ValueShape::Scalar),
    ("vibex", ValueShape::Scalar),
    ("vibey", ValueShape::Scalar),
    ("vibez", ValueShape::Scalar),
    ("vibeclip0", ValueShape::Scalar),
    ("vibeclip1", ValueShape::Scalar),
    ("vibeclip2", ValueShape::Scalar),
    ("scaled_imu2[0]", ValueShape::Scalar),
    ("scaled_imu2[1]", ValueShape::Scalar),
    ("scaled_imu2[2]", ValueShape::Scalar),
    ("scaled_imu2[3]", ValueShape::Scalar),
    ("scaled_imu2[4]", ValueShape::Scalar),
    ("scaled_imu2[5]", ValueShape::Scalar),
    ("scaled_imu2[6]", ValueShape::Scalar),
    ("scaled_imu2[7]", ValueShape::Scalar),
    ("scaled_imu2[8]", ValueShape::Scalar),
    ("scaled_imu2[9]", ValueShape::Scalar),
    ("scaled_imu3[0]", ValueShape::Scalar),
    ("scaled_imu3[1]", ValueShape::Scalar),
    ("scaled_imu3[2]", ValueShape::Scalar),
    ("scaled_imu3[3]", ValueShape::Scalar),
    ("scaled_imu3[4]", ValueShape::Scalar),
    ("scaled_imu3[5]", ValueShape::Scalar),
    ("scaled_imu3[6]", ValueShape::Scalar),
    ("scaled_imu3[7]", ValueShape::Scalar),
    ("scaled_imu3[8]", ValueShape::Scalar),
    ("scaled_imu3[9]", ValueShape::Scalar),
    ("press_scaled[0]", ValueShape::Scalar),
    ("press_scaled[1]", ValueShape::Scalar),
    ("press_scaled[2]", ValueShape::Scalar),
    ("press_scaled2[0]", ValueShape::Scalar),
    ("press_scaled2[1]", ValueShape::Scalar),
    ("press_scaled2[2]", ValueShape::Scalar),
    ("battery_voltage", ValueShape::Scalar),
    ("battery_current", ValueShape::Scalar),
    ("battery_remaining", ValueShape::Scalar),
    ("esc_rpm[0]", ValueShape::Scalar),
    ("esc_rpm[1]", ValueShape::Scalar),
    ("esc_rpm[2]", ValueShape::Scalar),
    ("esc_rpm[3]", ValueShape::Scalar),
    ("esc_voltage[0]", ValueShape::Scalar),
    ("esc_voltage[1]", ValueShape::Scalar),
    ("esc_voltage[2]", ValueShape::Scalar),
    ("esc_voltage[3]", ValueShape::Scalar),
    ("esc_current[0]", ValueShape::Scalar),
    ("esc_current[1]", ValueShape::Scalar),
    ("esc_current[2]", ValueShape::Scalar),
    ("esc_current[3]", ValueShape::Scalar),
    ("rc_channels[0]", ValueShape::Scalar),
    ("rc_channels[1]", ValueShape::Scalar),
    ("rc_channels[2]", ValueShape::Scalar),
    ("rc_channels[3]", ValueShape::Scalar),
    ("rc_channels[4]", ValueShape::Scalar),
    ("rc_channels[5]", ValueShape::Scalar),
    ("rc_channels[6]", ValueShape::Scalar),
    ("rc_channels[7]", ValueShape::Scalar),
    ("rc_channels[8]", ValueShape::Scalar),
    ("rc_channels[9]", ValueShape::Scalar),
    ("rc_channels[10]", ValueShape::Scalar),
    ("rc_channels[11]", ValueShape::Scalar),
    ("rc_channels[12]", ValueShape::Scalar),
    ("rc_channels[13]", ValueShape::Scalar),
    ("rc_channels[14]", ValueShape::Scalar),
    ("rc_channels[15]", ValueShape::Scalar),
    ("rc_rssi", ValueShape::Scalar),
    ("servo_outputs[0]", ValueShape::Scalar),
    ("servo_outputs[1]", ValueShape::Scalar),
    ("servo_outputs[2]", ValueShape::Scalar),
    ("servo_outputs[3]", ValueShape::Scalar),
    ("servo_outputs[4]", ValueShape::Scalar),
    ("servo_outputs[5]", ValueShape::Scalar),
    ("servo_outputs[6]", ValueShape::Scalar),
    ("servo_outputs[7]", ValueShape::Scalar),
    ("servo_outputs[8]", ValueShape::Scalar),
    ("servo_outputs[9]", ValueShape::Scalar),
    ("servo_outputs[10]", ValueShape::Scalar),
    ("servo_outputs[11]", ValueShape::Scalar),
    ("servo_outputs[12]", ValueShape::Scalar),
    ("servo_outputs[13]", ValueShape::Scalar),
    ("servo_outputs[14]", ValueShape::Scalar),
    ("servo_outputs[15]", ValueShape::Scalar),
    ("nav_roll", ValueShape::Scalar),
    ("nav_pitch", ValueShape::Scalar),
    ("nav_bearing", ValueShape::Scalar),
    ("target_bearing", ValueShape::Scalar),
    ("wp_dist", ValueShape::Scalar),
    ("alt_error", ValueShape::Scalar),
    ("aspd_error", ValueShape::Scalar),
    ("xtrack_error", ValueShape::Scalar),
    ("sys_load", ValueShape::Scalar),
    ("sys_drop_rate_comm", ValueShape::Scalar),
    ("sys_errors[0]", ValueShape::Scalar),
    ("sys_errors[1]", ValueShape::Scalar),
    ("sys_errors[2]", ValueShape::Scalar),
    ("sys_errors[3]", ValueShape::Scalar),
    ("armed", ValueShape::Bool),
    ("flight_mode", ValueShape::String),
    ("fix_type", ValueShape::Scalar),
    ("statustexts", ValueShape::TextLog),
];

/// The name of a key without its index or its dotted part.
pub open spec fn base_of(key: Seq<char>) -> Seq<char> {
    before(key, '[', '.')
}

/// The name of a key without its index or its dotted part.
pub fn base_name(key: &str) -> (r: &str)
    ensures
        r@ == base_of(key@),
{
    prefix_before(key, '[', '.')
}

/// The name of a key without its index.
pub open spec fn unindexed(key: Seq<char>) -> Seq<char> {
    before(key, '[', '[')
}

/// The shape of the first known key, from index `i` on, that is `key` but for an index.
pub open spec fn known_from(key: Seq<char>, i: int) -> Option<ValueShape>
    decreases 170 - i,
{
    if i >= 170 {
        None
    } else if unindexed(KNOWN_HVN_SITL_KEYS@[i].0@) == unindexed(key) {
        Some(KNOWN_HVN_SITL_KEYS@[i].1)
    } else {
        known_from(key, i + 1)
    }
}

/// What a known key carries. An index makes no difference: all the components of
/// a vector, and its name alone, are known where one of them is.
pub fn known_value_shape(key: &str) -> (r: Option<ValueShape>)
    ensures
        r == known_from(key@, 0),
{
    let b = prefix_before(key, '[', '[');
    let mut i: usize = 0;
    while i < 170
        invariant
            i <= 170,
            b@ == unindexed(key@),
            known_from(key@, 0) == known_from(key@, i as int),
        decreases 170 - i,
    {
        let name: &'static str = KNOWN_HVN_SITL_KEYS[i].0;
        let c = prefix_before(name, '[', '[');
        if same_text(c, b) {
            return Some(KNOWN_HVN_SITL_KEYS[i].1);
        }
        i = i + 1;
    }
    None
}

/// The primitive that shows a shape best.
pub open spec fn primitive_for(shape: ValueShape) -> Seq<char> {
    match shape {
        ValueShape::Scalar => "scalar"@,
        ValueShape::Vector(n) => if n == 3 {
            "vector"@
        } else {
            "scalar"@
        },
        ValueShape::String => "status"@,
        ValueShape::Bool => "status"@,
        ValueShape::TextLog => "status"@,
    }
}

/// The primitive that shows a shape best.
pub fn infer_primitive(value_shape: &ValueShape) -> (r: &'static str)
    ensures
        r@ == primitive_for(*value_shape),
{
    match *value_shape {
        ValueShape::Scalar => "scalar",
        ValueShape::Vector(n) => if n == 3 {
            "vector"
        } else {
            "scalar"
        },
        ValueShape::String => "status",
        ValueShape::Bool => "status",
        ValueShape::TextLog => "status",
    }
}

/// The kind of status panel that suits a key: by its name, else by its shape.
pub open spec fn status_kind_for(key: Seq<char>, shape: ValueShape) -> Option<StatusKind> {
    let b = base_of(key);
    if b == "armed"@ || b == "armed_bool"@ {
        Some(StatusKind::ArmedBool)
    } else if b == "fix_type"@ {
        Some(StatusKind::FixType)
    } else if b == "statustexts"@ {
        Some(StatusKind::TextLog)
    } else if b == "ekf_flags"@ {
        Some(StatusKind::EkfFlags)
    } else {
        match shape {
            ValueShape::String => Some(StatusKind::Text),
            ValueShape::Bool => Some(StatusKind::ArmedBool),
            ValueShape::TextLog => Some(StatusKind::TextLog),
            _ => None,
        }
    }
}

/// The kind of status panel that suits a key: by its name, else by its shape.
pub fn default_status_kind(key: &str, shape: &ValueShape) -> (r: Option<StatusKind>)
    ensures
        r == status_kind_for(key@, *shape),
{
    let b = base_name(key);
    if same_text(b, "armed") || same_text(b, "armed_bool") {
        return Some(StatusKind::ArmedBool);
    }
    if same_text(b, "fix_type") {
        return Some(StatusKind::FixType);
    }
    if same_text(b, "statustexts") {
        return Some(StatusKind::TextLog);
    }
    if same_text(b, "ekf_flags") {
        return Some(StatusKind::EkfFlags);
    }
    match *shape {
        ValueShape::String => Some(StatusKind::Text),
        ValueShape::Bool => Some(StatusKind::ArmedBool),
        ValueShape::TextLog => Some(StatusKind::TextLog),
        _ => None,
    }
}

// ---------------------------------------------------------------- freshness

/// How recently a key has had a value.
#[derive(Clone, Copy, Debug, PartialEq, Eq, Structural)]
pub enum KeyFreshness {
    /// Within the last seconds.
    Live,
    /// Longer ago.
    Stale,
    /// Never, but the key is known.
    SchemaOnly,
    /// Never, and the key is not known, but it was announced.
    Custom,
}

/// A key is live for this many seconds after a value.
pub const LIVE_THRESHOLD_S: u64 = 3;

/// A key is freshly stale for this many seconds after a value.
pub const STALE_THRESHOLD_S: u64 = 30;

/// How fresh a channel is at `now`, by when it was last seen and whether any store has it.
pub open spec fn freshness(
    key: Seq<char>,
    last_seen: KeyMap<i64>,
    now: int,
    observed: bool,
) -> KeyFreshness {
    if last_seen@.contains_key(key) {
        if now - last_seen@[key] <= LIVE_THRESHOLD_S * 1_000_000 {
            KeyFreshness::Live
        } else {
            KeyFreshness::Stale
        }
    } else if known_from(key, 0) is None && observed {
        KeyFreshness::Custom
    } else {
        KeyFreshness::SchemaOnly
    }
}

/// How recently a key has had a value. `last_seen` holds the time of each key's
/// last value and `now` is the present time, both in microseconds; `observed` says
/// that some store has the key.
pub fn classify_key(key: &str, last_seen: &KeyMap<i64>, now: i64, observed: bool) -> (r: KeyFreshness)
    requires
        last_seen.wf(),
    ensures
        r == freshness(key@, *last_seen, now as int, observed),
{
    match last_seen.get(key) {
        Some(t) => {
            let age: i128 = (now as i128) - (*t as i128);
            if age <= (LIVE_THRESHOLD_S as i128) * 1_000_000 {
                KeyFreshness::Live
            } else {
                KeyFreshness::Stale
            }
        },
        None => match known_value_shape(key) {
            Some(_) => KeyFreshness::SchemaOnly,
            None => if observed {
                KeyFreshness::Custom
            } else {
                KeyFreshness::SchemaOnly
            },
        },
    }
}

/// Has some store the key, with values or without?
pub fn is_observed(key: &str, stores: &Vec<&TraceStore>) -> (r: bool)
    requires
        forall|i: int| 0 <= i < stores.len() ==> (#[trigger] stores@[i]).wf(),
    ensures
        r == exists|i: int|
            0 <= i < stores.len() && ((#[trigger] stores@[i]).known(key@)
                || stores@[i].nulls@.contains_key(key@)),
{
    let mut i: usize = 0;
    while i < stores.len()
        invariant
            i <= stores.len(),
            forall|k: int| 0 <= k < stores.len() ==> (#[trigger] stores@[k]).wf(),
            forall|k: int|
                0 <= k < i ==> !(#[trigger] stores@[k]).known(key@)
                    && !stores@[k].nulls@.contains_key(key@),
        decreases stores.len() - i,
    {
        let s = stores[i];
        assert(stores@[i as int].wf());
        if s.traces.contains_key(key) || s.strings.contains_key(key) || s.logs.contains_key(key)
            || s.vectors.contains_key(key) || s.nulls.contains_key(key) {
            assert(stores@[i as int].known(key@) || stores@[i as int].nulls@.contains_key(key@));
            return true;
        }
        i = i + 1;
    }
    false
}

/// The colour of a channel's name, and whether it is in italics.
pub open spec fn look(f: KeyFreshness) -> (Rgb, bool) {
    match f {
        KeyFreshness::Live => (Rgb { r: 220, g: 220, b: 220 }, false),
        KeyFreshness::Stale => (Rgb { r: 140, g: 140, b: 140 }, false),
        KeyFreshness::SchemaOnly => (Rgb { r: 120, g: 120, b: 120 }, true),
        KeyFreshness::Custom => (Rgb { r: 220, g: 180, b: 100 }, false),
    }
}

/// The colour of a key in the picker, and whether it leans.
pub fn freshness_look(f: KeyFreshness) -> (r: (Rgb, bool))
    ensures
        r == look(f),
{
    match f {
        KeyFreshness::Live => (Rgb::from_gray(220), false),
        KeyFreshness::Stale => (Rgb::from_gray(140), false),
        KeyFreshness::SchemaOnly => (Rgb::from_gray(120), true),
        KeyFreshness::Custom => (Rgb::from_rgb(220, 180, 100), false),
    }
}

// ---------------------------------------------------------------- filter

/// The classes of keys that the picker shows.
#[derive(Clone, Copy, Debug)]
pub struct PickerTypeFilter {
    /// Text, flags, logs, and names that stand for a status.
    pub status: bool,
    /// Single numbers.
    pub scalar_2d: bool,
    /// Vectors of two to ten.
    pub vector_2d: bool,
    /// Positions.
    pub d3: bool,
}

impl Default for PickerTypeFilter {
    fn default() -> (r: PickerTypeFilter)
        ensures
            r.status,
            r.scalar_2d,
            r.vector_2d,
            r.d3,
    {
        PickerTypeFilter { status: true, scalar_2d: true, vector_2d: true, d3: true }
    }
}

/// Does the name of a key stand for a status?
pub open spec fn status_name(key: Seq<char>) -> bool {
    let b = base_of(key);
    b == "armed"@ || b == "flight_mode"@ || b == "statustexts"@ || b == "ekf_flags"@ || b
        == "fix_type"@ || begins(b, "sys_"@)
}

/// Does the name of a key stand for a position?
pub open spec fn position_name(key: Seq<char>) -> bool {
    let b = base_of(key);
    (begins(key, "pos_"@) && holds(key, "_ned"@)) || ends(b, "_lat"@) || ends(b, "_lng"@) || ends(
        b,
        "_alt"@,
    )
}

/// Does the name of a key stand for a status?
pub fn key_is_status_name(key: &str) -> (r: bool)
    ensures
        r == status_name(key@),
{
    let b = base_name(key);
    same_text(b, "armed") || same_text(b, "flight_mode") || same_text(b, "statustexts")
        || same_text(b, "ekf_flags") || same_text(b, "fix_type") || starts_with(b, "sys_")
}

/// Does the name of a key stand for a position?
pub fn key_is_3d_name(key: &str) -> (r: bool)
    ensures
        r == position_name(key@),
{
    if starts_with(key, "pos_") && contains(key, "_ned") {
        return true;
    }
    let b = base_name(key);
    ends_with(b, "_lat") || ends_with(b, "_lng") || ends_with(b, "_alt")
}

/// Is a key of a shape one of the status class?
pub open spec fn of_status_class(key: Seq<char>, shape: Option<ValueShape>) -> bool {
    match shape {
        Some(ValueShape::String) => true,
        Some(ValueShape::Bool) => true,
        Some(ValueShape::TextLog) => true,
        _ => status_name(key),
    }
}

/// Is a shape a vector of two to ten?
pub open spec fn of_vector_class(shape: Option<ValueShape>) -> bool {
    match shape {
        Some(ValueShape::Vector(n)) => 2 <= n <= 10,
        _ => false,
    }
}

/// Is a key of a shape a single number? One whose shape is not known counts as
/// such, unless its name stands for a status.
pub open spec fn of_scalar_class(key: Seq<char>, shape: Option<ValueShape>) -> bool {
    match shape {
        Some(ValueShape::Scalar) => true,
        Some(ValueShape::Vector(n)) => n == 1,
        Some(_) => false,
        None => !of_status_class(key, shape),
    }
}

impl PickerTypeFilter {
    /// Does the filter show a key of a shape? It does where one of the key's
    /// classes is on.
    pub open spec fn shows(self, key: Seq<char>, shape: Option<ValueShape>) -> bool {
        (self.status && of_status_class(key, shape)) || (self.vector_2d && of_vector_class(shape))
            || (self.d3 && position_name(key)) || (self.scalar_2d && of_scalar_class(key, shape))
    }

    /// Does the filter show a key of a shape?
    pub fn allows(&self, key: &str, shape: Option<ValueShape>) -> (r: bool)
        ensures
            r == self.shows(key@, shape),
    {
        let is_status = match shape {
            Some(ValueShape::String) => true,
            Some(ValueShape::Bool) => true,
            Some(ValueShape::TextLog) => true,
            _ => key_is_status_name(key),
        };
        let is_vec = match shape {
            Some(ValueShape::Vector(n)) => 2 <= n && n <= 10,
            _ => false,
        };
        let is_scalar = match shape {
            Some(ValueShape::Scalar) => true,
            Some(ValueShape::Vector(n)) => n == 1,
            Some(_) => false,
            None => !is_status,
        };
        (is_status && self.status) || (is_vec && self.vector_2d) || (key_is_3d_name(key) && self.d3)
            || (is_scalar && self.scalar_2d)
    }
}

/// With every class on, the filter shows all keys but vectors of no or more than
/// ten components whose name says nothing.
pub proof fn full_filter_shows_all(f: PickerTypeFilter, key: Seq<char>, shape: Option<ValueShape>)
    requires
        f.status && f.scalar_2d && f.vector_2d && f.d3,
        match shape {
            Some(ValueShape::Vector(n)) => 1 <= n <= 10,
            _ => true,
        },
    ensures
        f.shows(key, shape),
{
}

// ---------------------------------------------------------------- collapsed groups

/// Which groups of the picker are collapsed.
#[derive(Clone, Debug)]
pub struct ComboCollapseState {
    pub collapsed: KeyMap<bool>,
}

impl Default for ComboCollapseState {
    fn default() -> (r: ComboCollapseState)
        ensures
            r.collapsed.wf(),
            forall|c: Seq<char>| !r.hidden(c),
    {
        ComboCollapseState { collapsed: KeyMap::new() }
    }
}

impl ComboCollapseState {
    /// Is a group collapsed?
    pub open spec fn hidden(self, category: Seq<char>) -> bool {
        self.collapsed@.contains_key(category) && self.collapsed@[category]
    }

    /// Is a group collapsed?
    pub fn is_collapsed(&self, category: &str) -> (r: bool)
        requires
            self.collapsed.wf(),
        ensures
            r == self.hidden(category@),
    {
        match self.collapsed.get(category) {
            Some(v) => *v,
            None => false,
        }
    }

    /// Collapse a group or open it again, and say whether it is now collapsed. The
    /// other groups stay as they are, and toggling twice changes nothing.
    pub fn toggle(&mut self, category: &str) -> (r: bool)
        requires
            old(self).collapsed.wf(),
        ensures
            final(self).collapsed.wf(),
            r == !old(self).hidden(category@),
            forall|c: Seq<char>| #[trigger]
                final(self).hidden(c) == if c == category@ {
                    !old(self).hidden(c)
                } else {
                    old(self).hidden(c)
                },
    {
        let now = !self.is_collapsed(category);
        self.collapsed.insert(owned(category), now);
        now
    }
}

// ---------------------------------------------------------------- groups

/// The groups of the picker, in the order in which it shows them.
pub const KEY_GROUPS: [&'static str; 5] = [
    "DT physics",
    "AP MAVLink",
    "Position (NED)",
    "Timing",
    "Other",
];

/// Is it the name of a physics or raw sensor channel?
pub open spec fn physics_name(b: Seq<char>) -> bool {
    b == "accel"@ || b == "gyro"@ || b == "mag_xyz"@ || b == "mag_clean_xyz"@ || b == "wind_ned"@
        || b == "baro_pressure"@ || b == "baro_temp"@ || b == "baro_alt"@ || b == "state_alt"@ || b
        == "quat_wxyz"@ || b == "euler"@ || b == "gps_alt"@ || b == "gps_vn"@
}

/// Is it the name of a channel that mirrors the autopilot?
pub open spec fn autopilot_name(b: Seq<char>) -> bool {
    b == "ap_attitude"@ || b == "ap_raw_imu"@ || b == "ap_vfr_alt"@ || b == "ap_vel_ned"@
}

/// The index in `KEY_GROUPS` of the group of a key.
pub open spec fn group_of(key: Seq<char>) -> int {
    let b = base_of(key);
    if physics_name(b) {
        0
    } else if autopilot_name(b) {
        1
    } else if begins(b, "pos_"@) {
        2
    } else if b == "t"@ || b == "ts"@ {
        3
    } else {
        4
    }
}

/// The index in `KEY_GROUPS` of the group of a key.
fn group_index(key: &str) -> (r: usize)
    ensures
        r == group_of(key@),
        r < 5,
{
    let b = base_name(key);
    if same_text(b, "accel") || same_text(b, "gyro") || same_text(b, "mag_xyz") || same_text(
        b,
        "mag_clean_xyz",
    ) || same_text(b, "wind_ned") || same_text(b, "baro_pressure") || same_text(b, "baro_temp")
        || same_text(b, "baro_alt") || same_text(b, "state_alt") || same_text(b, "quat_wxyz")
        || same_text(b, "euler") || same_text(b, "gps_alt") || same_text(b, "gps_vn") {
        return 0;
    }
    if same_text(b, "ap_attitude") || same_text(b, "ap_raw_imu") || same_text(b, "ap_vfr_alt")
        || same_text(b, "ap_vel_ned") {
        return 1;
    }
    if starts_with(b, "pos_") {
        return 2;
    }
    if same_text(b, "t") || same_text(b, "ts") {
        return 3;
    }
    4
}

/// The group under which the picker shows a key. It goes by the key's name alone,
/// so that all components of a vector are in one group.
pub fn categorize_key(key: &str) -> (r: &'static str)
    ensures
        r@ == KEY_GROUPS@[group_of(key@)]@,
{
    let i: usize = group_index(key);
    KEY_GROUPS[i]
}

/// The keys of group `g`, in the order they came.
pub open spec fn keys_in_group(keys: Seq<Seq<char>>, g: int) -> Seq<Seq<char>> {
    keys.filter(|k: Seq<char>| group_of(k) == g)
}

/// The first `n` groups, each with its keys; a group without keys is left out.
pub open spec fn grouped(keys: Seq<Seq<char>>, n: int) -> Seq<(Seq<char>, Seq<Seq<char>>)>
    decreases n,
{
    if n <= 0 {
        Seq::empty()
    } else {
        let head = grouped(keys, n - 1);
        let ks = keys_in_group(keys, n - 1);
        if ks.len() == 0 {
            head
        } else {
            head.push((KEY_GROUPS@[n - 1]@, ks))
        }
    }
}

/// The characters of groups of keys.
pub open spec fn group_texts(v: Seq<(&'static str, Vec<String>)>) -> Seq<(Seq<char>, Seq<Seq<char>>)> {
    v.map_values(|g: (&'static str, Vec<String>)| (g.0@, texts(g.1@)))
}

/// The keys of group `g`, in the order they came.
fn pick_group(keys: &[String], g: usize) -> (r: Vec<String>)
    ensures
        texts(r@) == keys_in_group(texts(keys@), g as int),
        r.len() == keys_in_group(texts(keys@), g as int).len(),
{
    let mut out: Vec<String> = Vec::new();
    let ghost all = texts(keys@);
    let ghost f = |k: Seq<char>| group_of(k) == g as int;
    let mut i: usize = 0;
    proof {
        reveal(Seq::filter);
        assert(texts(out@) =~= all.take(0).filter(f));
    }
    while i < keys.len()
        invariant
            i <= keys.len(),
            all == texts(keys@),
            f == (|k: Seq<char>| group_of(k) == g as int),
            texts(out@) == all.take(i as int).filter(f),
        decreases keys.len() - i,
    {
        let ghost before = out@;
        proof {
            reveal(Seq::filter);
            assert(all.take(i + 1).drop_last() =~= all.take(i as int));
            assert(all.take(i + 1).last() == keys@[i as int]@);
        }
        if group_index(keys[i].as_str()) == g {
            out.push(keys[i].clone());
            proof {
                assert(texts(out@) =~= texts(before).push(keys@[i as int]@));
            }
        }
        i = i + 1;
    }
    proof {
        assert(all.take(keys.len() as int) =~= all);
        assert(texts(out@).len() == out.len());
    }
    out
}

/// The keys by group, in the order of `KEY_GROUPS`. Keys of one group keep their
/// order, and groups without keys are left out.
pub fn group_source_keys(keys: &[String]) -> (r: Vec<(&'static str, Vec<String>)>)
    ensures
        group_texts(r@) == grouped(texts(keys@), 5),
{
    let mut out: Vec<(&'static str, Vec<String>)> = Vec::new();
    let mut g: usize = 0;
    proof {
        assert(group_texts(out@) =~= grouped(texts(keys@), 0));
    }
    while g < 5
        invariant
            g <= 5,
            group_texts(out@) == grouped(texts(keys@), g as int),
        decreases 5 - g,
    {
        let ks = pick_group(keys, g);
        let ghost before = out@;
        if ks.len() > 0 {
            let name: &'static str = KEY_GROUPS[g];
            let ghost kt = texts(ks@);
            out.push((name, ks));
            proof {
                assert(group_texts(out@) =~= group_texts(before).push((name@, kt)));
            }
        }
        g = g + 1;
    }
    out
}

/// The number of keys in the first `n` groups.
pub open spec fn grouped_len(keys: Seq<Seq<char>>, n: int) -> nat
    decreases n,
{
    if n <= 0 {
        0
    } else {
        grouped_len(keys, n - 1) + keys_in_group(keys, n - 1).len()
    }
}

/// What a filter lets through was there and meets it.
pub(crate) proof fn lemma_filter_members(s: Seq<Seq<char>>, f: spec_fn(Seq<char>) -> bool, k: Seq<char>)
    requires
        s.filter(f).contains(k),
    ensures
        f(k),
        s.contains(k),
    decreases s.len(),
{
    reveal(Seq::filter);
    if s.len() > 0 {
        let t = s.drop_last();
        let fs = s.filter(f);
        let j = choose|j: int| 0 <= j < fs.len() && fs[j] == k;
        if f(s.last()) && j == fs.len() - 1 {
            assert(s[s.len() - 1] == k);
        } else {
            assert(t.filter(f)[j] == k);
            lemma_filter_members(t, f, k);
            let i = choose|i: int| 0 <= i < t.len() && t[i] == k;
            assert(s[i] == k);
        }
    }
}

/// A filter lets through what meets it.
pub(crate) proof fn lemma_filter_keeps(s: Seq<Seq<char>>, f: spec_fn(Seq<char>) -> bool, i: int)
    requires
        0 <= i < s.len(),
        f(s[i]),
    ensures
        s.filter(f).contains(s[i]),
    decreases s.len(),
{
    reveal(Seq::filter);
    let t = s.drop_last();
    let fs = s.filter(f);
    if i == s.len() - 1 {
        assert(fs[fs.len() - 1] == s[i]);
    } else {
        lemma_filter_keeps(t, f, i);
        let j = choose|j: int| 0 <= j < t.filter(f).len() && t.filter(f)[j] == t[i];
        assert(fs[j] == s[i]);
    }
}

/// Grouping loses no key and invents none: every key stands in the group that it
/// belongs to, every key of a group belongs to it, and the groups hold as many keys
/// as there were.
pub proof fn grouping_is_a_partition(keys: Seq<Seq<char>>)
    ensures
        grouped_len(keys, 5) == keys.len(),
        forall|i: int|
            0 <= i < keys.len() ==> #[trigger] keys_in_group(keys, group_of(keys[i])).contains(
                keys[i],
            ),
        forall|g: int, k: Seq<char>| #[trigger]
            keys_in_group(keys, g).contains(k) ==> group_of(k) == g && keys.contains(k),
    decreases keys.len(),
{
    reveal(Seq::filter);
    assert forall|i: int| 0 <= i < keys.len() implies #[trigger] keys_in_group(
        keys,
        group_of(keys[i]),
    ).contains(keys[i]) by {
        let g = group_of(keys[i]);
        let f = |k: Seq<char>| group_of(k) == g;
        lemma_filter_keeps(keys, f, i);
    }
    assert forall|g: int, k: Seq<char>| #[trigger] keys_in_group(keys, g).contains(k) implies group_of(k)
        == g && keys.contains(k) by {
        lemma_filter_members(keys, |k: Seq<char>| group_of(k) == g, k);
    }
    reveal_with_fuel(grouped_len, 6);
    if keys.len() > 0 {
        let t = keys.drop_last();
        grouping_is_a_partition(t);
        let l = group_of(keys.last());
        assert forall|g: int| #[trigger] keys_in_group(keys, g).len() == keys_in_group(t, g).len() + (
        if g == l {
            1int
        } else {
            0
        }) by {
        }
        assert(keys_in_group(keys, 0).len() == keys_in_group(t, 0).len() + (if l == 0 {
            1int
        } else {
            0
        }));
    } else {
        assert forall|g: int| #[trigger] keys_in_group(keys, g).len() == 0 by {
        }
    }
}

// ---------------------------------------------------------------- the picker's keys

/// Is `k` the part of `key` before its last bracket?
pub open spec fn stem_of(key: Seq<char>, k: Seq<char>) -> bool {
    last_of(key, '[') > 0 && k == key.take(last_of(key, '['))
}

/// Is `k` a known key, or the part of one before its bracket?
pub open spec fn offered_known(k: Seq<char>) -> bool {
    exists|i: int| 0 <= i < 170 && offered_by(#[trigger] KNOWN_HVN_SITL_KEYS@[i].0@, k)
}

/// Is `k` the key, or the part of it before its last bracket?
pub open spec fn offered_by(key: Seq<char>, k: Seq<char>) -> bool {
    k == key || stem_of(key, k)
}

/// Does a store bring `k` to the picker: as a channel, as the part of one before
/// its bracket, whether it has had a value or was only announced?
pub open spec fn offered_store(s: TraceStore, k: Seq<char>) -> bool {
    ||| exists|c: Seq<char>| #[trigger] s.known(c) && offered_by(c, k)
    ||| exists|c: Seq<char>| #[trigger] s.nulls@.contains_key(c) && offered_by(c, k)
}

/// Add a key, and the part of it before its last bracket.
fn offer(all: &mut KeySet, key: &str)
    requires
        old(all).wf(),
    ensures
        final(all).wf(),
        forall|k: Seq<char>| #[trigger]
            final(all)@.contains_key(k) <==> old(all)@.contains_key(k) || offered_by(key@, k),
{
    all.insert(owned(key), ());
    match rfind(key, '[') {
        Some(i) => {
            if i > 0 {
                let stem = key.substring_char(0, i);
                proof {
                    assert(stem@ =~= key@.take(i as int));
                }
                all.insert(owned(stem), ());
            }
        },
        None => {},
    }
}

/// All keys that the picker offers, in alphabetical order: those known beforehand,
/// those that any store has or was told of, and the names of vectors.
pub fn collect_source_keys(stores: &Vec<&TraceStore>) -> (r: Vec<String>)
    requires
        forall|i: int| 0 <= i < stores.len() ==> (#[trigger] stores@[i]).wf(),
    ensures
        ascending(texts(r@)),
        forall|k: Seq<char>| #[trigger]
            texts(r@).contains(k) <==> offered_known(k) || exists|i: int|
                0 <= i < stores.len() && offered_store(*(#[trigger] stores@[i]), k),
{
    let mut all: KeySet = KeyMap::new();
    let mut i: usize = 0;
    while i < 170
        invariant
            i <= 170,
            all.wf(),
            forall|k: Seq<char>| #[trigger]
                all@.contains_key(k) <==> exists|j: int|
                    0 <= j < i && offered_by(#[trigger] KNOWN_HVN_SITL_KEYS@[j].0@, k),
        decreases 170 - i,
    {
        let name: &'static str = KNOWN_HVN_SITL_KEYS[i].0;
        let ghost before = all@;
        offer(&mut all, name);
        proof {
            assert forall|k: Seq<char>| #[trigger] all@.contains_key(k) <==> exists|j: int|
                0 <= j < i + 1 && offered_by(#[trigger] KNOWN_HVN_SITL_KEYS@[j].0@, k) by {
                if before.contains_key(k) {
                    let j = choose|j: int|
                        0 <= j < i && offered_by(#[trigger] KNOWN_HVN_SITL_KEYS@[j].0@, k);
                    assert(offered_by(KNOWN_HVN_SITL_KEYS@[j].0@, k));
                }
                if offered_by(name@, k) {
                    assert(offered_by(KNOWN_HVN_SITL_KEYS@[i as int].0@, k));
                }
            }
        }
        i = i + 1;
    }
    let mut s: usize = 0;
    while s < stores.len()
        invariant
            s <= stores.len(),
            all.wf(),
            forall|i: int| 0 <= i < stores.len() ==> (#[trigger] stores@[i]).wf(),
            forall|k: Seq<char>| #[trigger]
                all@.contains_key(k) <==> offered_known(k) || exists|j: int|
                    0 <= j < s && offered_store(*(#[trigger] stores@[j]), k),
        decreases stores.len() - s,
    {
        let ghost before = all@;
        add_store_keys(&mut all, stores[s]);
        proof {
            assert forall|k: Seq<char>| #[trigger] all@.contains_key(k) <==> offered_known(k)
                || exists|j: int| 0 <= j < s + 1 && offered_store(*(#[trigger] stores@[j]), k) by {
                if before.contains_key(k) && !offered_known(k) {
                    let j = choose|j: int|
                        0 <= j < s && offered_store(*(#[trigger] stores@[j]), k);
                    assert(offered_store(*stores@[j], k));
                }
                if offered_store(*stores@[s as int], k) {
                    assert(all@.contains_key(k));
                }
            }
        }
        s = s + 1;
    }
    let r = all.keys();
    r
}

/// Does one of the keys bring `k` to the picker?
pub open spec fn offered_among(keys: Seq<Seq<char>>, k: Seq<char>) -> bool {
    exists|j: int| 0 <= j < keys.len() && offered_by(#[trigger] keys[j], k)
}

/// Add keys, and the part of each before its last bracket.
fn offer_all(all: &mut KeySet, keys: &Vec<String>)
    requires
        old(all).wf(),
    ensures
        final(all).wf(),
        forall|k: Seq<char>| #[trigger]
            final(all)@.contains_key(k) <==> old(all)@.contains_key(k) || offered_among(
                texts(keys@),
                k,
            ),
{
    let ghost start = all@;
    let ghost kt = texts(keys@);
    let mut i: usize = 0;
    while i < keys.len()
        invariant
            i <= keys.len(),
            all.wf(),
            kt == texts(keys@),
            forall|k: Seq<char>| #[trigger]
                all@.contains_key(k) <==> start.contains_key(k) || exists|j: int|
                    0 <= j < i && offered_by(#[trigger] kt[j], k),
        decreases keys.len() - i,
    {
        let ghost before = all@;
        offer(all, keys[i].as_str());
        proof {
            assert(kt[i as int] == keys@[i as int]@);
            assert forall|k: Seq<char>| #[trigger] all@.contains_key(k) <==> start.contains_key(k)
                || exists|j: int| 0 <= j < i + 1 && offered_by(#[trigger] kt[j], k) by {
                if before.contains_key(k) && !start.contains_key(k) {
                    let j = choose|j: int| 0 <= j < i && offered_by(#[trigger] kt[j], k);
                    assert(offered_by(kt[j], k));
                }
                if offered_by(kt[i as int], k) {
                    assert(all@.contains_key(k));
                }
            }
        }
        i = i + 1;
    }
}

/// What a list of keys brings is what its members bring.
proof fn lemma_offered(kt: Seq<Seq<char>>, f: spec_fn(Seq<char>) -> bool, k: Seq<char>)
    requires
        forall|c: Seq<char>| #[trigger] kt.contains(c) <==> f(c),
    ensures
        offered_among(kt, k) <==> exists|c: Seq<char>| #[trigger] f(c) && offered_by(c, k),
{
    if offered_among(kt, k) {
        let j = choose|j: int| 0 <= j < kt.len() && offered_by(#[trigger] kt[j], k);
        assert(kt.contains(kt[j]));
        assert(f(kt[j]));
    }
    if exists|c: Seq<char>| #[trigger] f(c) && offered_by(c, k) {
        let c = choose|c: Seq<char>| #[trigger] f(c) && offered_by(c, k);
        assert(kt.contains(c));
        let j = choose|j: int| 0 <= j < kt.len() && kt[j] == c;
        assert(offered_by(kt[j], k));
    }
}

/// Add what a store brings to the picker.
fn add_store_keys(all: &mut KeySet, store: &TraceStore)
    requires
        old(all).wf(),
        store.wf(),
    ensures
        final(all).wf(),
        forall|k: Seq<char>| #[trigger]
            final(all)@.contains_key(k) <==> old(all)@.contains_key(k) || offered_store(*store, k),
{
    let ghost start = all@;
    let keys = store.keys();
    offer_all(all, &keys);
    let announced = store.nulls.keys();
    offer_all(all, &announced);
    proof {
        let known = |c: Seq<char>| store.known(c);
        let null = |c: Seq<char>| store.nulls@.contains_key(c);
        assert forall|k: Seq<char>| #[trigger] all@.contains_key(k) <==> start.contains_key(k)
            || offered_store(*store, k) by {
            lemma_offered(texts(keys@), known, k);
            lemma_offered(texts(announced@), null, k);
            if offered_among(texts(keys@), k) {
                let c = choose|c: Seq<char>| #[trigger] known(c) && offered_by(c, k);
                assert(store.known(c));
            }
            if exists|c: Seq<char>| #[trigger] store.known(c) && offered_by(c, k) {
                let c = choose|c: Seq<char>| #[trigger] store.known(c) && offered_by(c, k);
                assert(known(c));
            }
            if offered_among(texts(announced@), k) {
                let c = choose|c: Seq<char>| #[trigger] null(c) && offered_by(c, k);
                assert(store.nulls@.contains_key(c));
            }
            if exists|c: Seq<char>| #[trigger] store.nulls@.contains_key(c) && offered_by(c, k) {
                let c = choose|c: Seq<char>| #[trigger]
                    store.nulls@.contains_key(c) && offered_by(c, k);
                assert(null(c));
            }
        }
    }
}

/// How many keys the picker lists at most.
pub const PICKER_LIMIT: usize = 256;

/// Does the picker show a key?
pub open spec fn listed(k: Seq<char>, filter: Option<PickerTypeFilter>) -> bool {
    match filter {
        Some(f) => f.shows(k, known_from(k, 0)),
        None => true,
    }
}

/// The first `limit` of the keys that the picker shows.
pub open spec fn listed_keys(
    keys: Seq<Seq<char>>,
    filter: Option<PickerTypeFilter>,
    limit: int,
) -> Seq<Seq<char>> {
    let all = keys.filter(|k: Seq<char>| listed(k, filter));
    if all.len() > limit {
        all.take(limit)
    } else {
        all
    }
}

/// The sections of the picker: the keys that the filter shows, at most
/// `PICKER_LIMIT` of them, by group.
pub fn picker_sections(keys: &[String], filter: Option<PickerTypeFilter>) -> (r: Vec<
    (&'static str, Vec<String>),
>)
    ensures
        group_texts(r@) == grouped(
            listed_keys(texts(keys@), filter, PICKER_LIMIT as int),
            5,
        ),
{
    let mut shown: Vec<String> = Vec::new();
    let ghost all = texts(keys@);
    let ghost f = |k: Seq<char>| listed(k, filter);
    let mut i: usize = 0;
    proof {
        reveal(Seq::filter);
        assert(texts(shown@) =~= all.take(0).filter(f));
    }
    while i < keys.len()
        invariant
            i <= keys.len(),
            all == texts(keys@),
            f == (|k: Seq<char>| listed(k, filter)),
            texts(shown@) == all.take(i as int).filter(f),
        decreases keys.len() - i,
    {
        let ghost before = shown@;
        proof {
            reveal(Seq::filter);
            assert(all.take(i + 1).drop_last() =~= all.take(i as int));
            assert(all.take(i + 1).last() == keys@[i as int]@);
        }
        let show = match &filter {
            Some(p) => {
                let shape = known_value_shape(keys[i].as_str());
                p.allows(keys[i].as_str(), shape)
            },
            None => true,
        };
        if show {
            shown.push(keys[i].clone());
            proof {
                assert(texts(shown@) =~= texts(before).push(keys@[i as int]@));
            }
        }
        i = i + 1;
    }
    proof {
        assert(all.take(keys.len() as int) =~= all);
    }
    let ghost full = shown@;
    if shown.len() > PICKER_LIMIT {
        shown.truncate(PICKER_LIMIT);
        proof {
            assert(texts(shown@) =~= texts(full).take(PICKER_LIMIT as int));
        }
    }
    proof {
        assert(texts(full).len() == full.len());
        assert(texts(shown@) == listed_keys(all, filter, PICKER_LIMIT as int));
    }
    group_source_keys(shown.as_slice())
}

} // verus!
