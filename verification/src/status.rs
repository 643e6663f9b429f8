//! Status panels: the chip that they show, and its colour.
use vstd::prelude::*;

use crate::color::{
    color_value, fix_chip, gray, palette, parse_color, severity, status_fix_type_chip,
    status_severity_color, tab10, Rgb,
};
use crate::info_text::{shorten, shortened};
use crate::keymap::KeyMap;
use crate::num::{Num, HALF_WORD};
use crate::store::{TextLogEntry, TraceStore};
use crate::template::{Cell, Primitive, StatusKind};
use crate::text::{dec_int, decimal_int, owned, same_text};

verus! {

/// The flags of the estimator status, lowest bit first.
pub const EKF_FLAG_LABELS: [&'static str; 12] = [
    "ATTITUDE",
    "VELOCITY_HORIZ",
    "VELOCITY_VERT",
    "POS_HORIZ_REL",
    "POS_HORIZ_ABS",
    "POS_VERT_ABS",
    "POS_VERT_AGL",
    "CONST_POS_MODE",
    "PRED_POS_HORIZ_REL",
    "PRED_POS_HORIZ_ABS",
    "GPS_GLITCHING",
    "GPS_QUALITY_GOOD",
];

/// Is bit `i` of `flags` set?
pub open spec fn flag_set(flags: u32, i: int) -> bool {
    flags & (1u32 << (i as u32)) != 0
}

/// Is `r` each flag with whether it is set, lowest bit first?
pub open spec fn decoded(r: Seq<(&'static str, bool)>, flags: u32) -> bool {
    &&& r.len() == 12
    &&& forall|i: int|
        0 <= i < 12 ==> (#[trigger] r[i]).0@ == EKF_FLAG_LABELS@[i]@ && r[i].1 == flag_set(flags, i)
}

/// Each flag with whether it is set, lowest bit first.
pub fn decode_ekf_flags(flags: u32) -> (r: Vec<(&'static str, bool)>)
    ensures
        decoded(r@, flags),
{
    let mut out: Vec<(&'static str, bool)> = Vec::new();
    let mut i: u32 = 0;
    while i < 12
        invariant
            i <= 12,
            out.len() == i,
            forall|k: int|
                0 <= k < i ==> (#[trigger] out@[k]).0@ == EKF_FLAG_LABELS@[k]@ && out@[k].1
                    == flag_set(flags, k),
        decreases 12 - i,
    {
        let label: &'static str = EKF_FLAG_LABELS[i as usize];
        out.push((label, (flags & (1u32 << i)) != 0));
        i = i + 1;
    }
    out
}

/// Bits above those that have a label make no difference.
pub proof fn higher_bits_are_ignored(flags: u32, i: int)
    requires
        0 <= i < 12,
    ensures
        flag_set(flags, i) == flag_set(flags & 0xFFF, i),
{
    let k = i as u32;
    assert(k < 12 ==> (flags & (1u32 << k) != 0) == ((flags & 0xFFF) & (1u32 << k) != 0)) by (bit_vector);
}

// ---------------------------------------------------------------- colours

/// The colour that a map gives a text, if it gives one.
pub open spec fn mapped(m: KeyMap<String>, k: Seq<char>) -> Option<Rgb> {
    if m@.contains_key(k) {
        color_value(m@[k]@)
    } else {
        None
    }
}

/// The colour that a map gives a text, if it gives one.
fn map_color(m: &KeyMap<String>, k: &str) -> (r: Option<Rgb>)
    requires
        m.wf(),
    ensures
        r == mapped(*m, k@),
{
    match m.get(k) {
        Some(c) => parse_color(c.as_str()),
        None => None,
    }
}

/// The colour for values that the map does not name.
pub open spec fn base_color(cell: Cell) -> Rgb {
    match cell.default_color {
        Some(c) => match color_value(c@) {
            Some(v) => v,
            None => gray(170),
        },
        None => gray(170),
    }
}

/// The colour for values that the map does not name.
fn default_color(cell: &Cell) -> (c: Rgb)
    ensures
        c == base_color(*cell),
{
    match &cell.default_color {
        Some(c) => match parse_color(c.as_str()) {
            Some(v) => v,
            None => Rgb::from_gray(170),
        },
        None => Rgb::from_gray(170),
    }
}

/// The latest number of a channel.
pub open spec fn number_of(s: TraceStore, k: Seq<char>) -> Option<Num> {
    if s.series(k).len() > 0 {
        Some(s.series(k).last().value)
    } else {
        None
    }
}

/// The text of a channel: its latest text, else its latest number as printed.
pub open spec fn text_of(s: TraceStore, k: Seq<char>, number_text: Seq<char>) -> Option<Seq<char>> {
    if s.strings@.contains_key(k) {
        Some(s.strings@[k]@)
    } else if number_of(s, k) is Some {
        Some(number_text)
    } else {
        None
    }
}

/// The GPS fix of a channel, -1 where there is none.
pub open spec fn fix_of(s: TraceStore, k: Seq<char>) -> int {
    match number_of(s, k) {
        Some(v) => v.rounded(),
        None => -1,
    }
}

/// Is the vehicle armed, as far as the channel says?
pub open spec fn armed_of(s: TraceStore, k: Seq<char>) -> Option<bool> {
    if s.strings@.contains_key(k) {
        let t = s.strings@[k]@;
        Some(t == "True"@ || t == "true"@ || t == "ARMED"@ || t == "1"@)
    } else {
        match number_of(s, k) {
            Some(v) => Some(!v.nan() && v.size() > HALF_WORD),
            None => None,
        }
    }
}

/// The kind of a status panel.
pub open spec fn kind_of(cell: Cell) -> StatusKind {
    match cell.kind {
        Some(k) => k,
        None => StatusKind::Text,
    }
}

/// The word under which a colour map names an armed state.
pub open spec fn armed_word(armed: bool) -> Seq<char> {
    if armed {
        "True"@
    } else {
        "False"@
    }
}

/// The background of a status panel.
pub open spec fn status_color(cell: Cell, s: TraceStore, number_text: Seq<char>) -> Rgb {
    let k = cell.source@;
    match kind_of(cell) {
        StatusKind::Text | StatusKind::Badge => match text_of(s, k, number_text) {
            Some(t) => match mapped(cell.color_map, t) {
                Some(c) => c,
                None => base_color(cell),
            },
            None => base_color(cell),
        },
        StatusKind::FixType => match mapped(cell.color_map, dec_int(fix_of(s, k))) {
            Some(c) => c,
            None => if fix_of(s, k) < 0 {
                base_color(cell)
            } else {
                fix_chip(fix_of(s, k)).1
            },
        },
        StatusKind::ArmedBool => match armed_of(s, k) {
            Some(a) => match mapped(cell.color_map, armed_word(a)) {
                Some(c) => c,
                None => if a {
                    palette(2)
                } else {
                    gray(120)
                },
            },
            None => base_color(cell),
        },
        StatusKind::TextLog => base_color(cell),
        StatusKind::EkfFlags => base_color(cell),
    }
}

/// The GPS fix of a channel, -1 where there is none.
fn read_fix(store: &TraceStore, k: &str) -> (n: i64)
    requires
        store.wf(),
    ensures
        n == fix_of(*store, k@),
{
    match store.latest(k) {
        Some(v) => v.round_to_i64(),
        None => -1,
    }
}

/// Is the vehicle armed, as far as the channel says?
fn read_armed(store: &TraceStore, k: &str) -> (r: Option<bool>)
    requires
        store.wf(),
    ensures
        r == armed_of(*store, k@),
{
    match store.latest_string(k) {
        Some(t) => {
            let s = t.as_str();
            Some(
                same_text(s, "True") || same_text(s, "true") || same_text(s, "ARMED") || same_text(
                    s,
                    "1",
                ),
            )
        },
        None => match store.latest(k) {
            Some(v) => Some(v.above_half()),
            None => None,
        },
    }
}

/// The text of a channel: its latest text, else its latest number as printed.
fn read_text(store: &TraceStore, k: &str, number_text: &str) -> (r: Option<String>)
    requires
        store.wf(),
    ensures
        crate::template::opt_text(r) == text_of(*store, k@, number_text@),
{
    match store.latest_string(k) {
        Some(t) => Some(t.clone()),
        None => match store.latest(k) {
            Some(_) => Some(owned(number_text)),
            None => None,
        },
    }
}

/// The background of a status panel. `number_text` is the channel's latest number
/// as it is printed, for a text panel on a channel of numbers.
pub fn status_cell_color(cell: &Cell, store: &TraceStore, number_text: &str) -> (c: Rgb)
    requires
        store.wf(),
        cell.color_map.wf(),
    ensures
        c == status_color(*cell, *store, number_text@),
{
    let key = cell.source.as_str();
    let kind = match cell.kind {
        Some(k) => k,
        None => StatusKind::Text,
    };
    match kind {
        StatusKind::Text | StatusKind::Badge => match read_text(store, key, number_text) {
            Some(t) => match map_color(&cell.color_map, t.as_str()) {
                Some(c) => c,
                None => default_color(cell),
            },
            None => default_color(cell),
        },
        StatusKind::FixType => {
            let n: i64 = read_fix(store, key);
            let word = decimal_int(n);
            match map_color(&cell.color_map, word.as_str()) {
                Some(c) => c,
                None => if n < 0 {
                    default_color(cell)
                } else {
                    status_fix_type_chip(n).1
                },
            }
        },
        StatusKind::ArmedBool => match read_armed(store, key) {
            Some(a) => {
                let word = if a {
                    "True"
                } else {
                    "False"
                };
                match map_color(&cell.color_map, word) {
                    Some(c) => c,
                    None => if a {
                        tab10(2)
                    } else {
                        Rgb::from_gray(120)
                    },
                }
            },
            None => default_color(cell),
        },
        StatusKind::TextLog => default_color(cell),
        StatusKind::EkfFlags => default_color(cell),
    }
}

// ---------------------------------------------------------------- what is shown

/// What a status panel shows.
#[derive(Clone, Debug)]
pub enum StatusBody {
    /// A chip with a word on it; a badge is a smaller one.
    Chip { text: String, color: Rgb, badge: bool },
    /// The log of the channel, in this colour where it is empty.
    Log { empty_color: Rgb },
    /// The flags of the estimator status.
    Flags { flags: u32 },
}

/// The word that stands for no data.
pub open spec fn dash() -> Seq<char> {
    "—"@
}

/// Is `b` a chip with this text and colour?
pub open spec fn is_chip(b: StatusBody, t: Seq<char>, c: Rgb, small: bool) -> bool {
    match b {
        StatusBody::Chip { text, color, badge } => text@ == t && color == c && badge == small,
        _ => false,
    }
}

/// Is `b` what a status panel shows?
pub open spec fn shows(b: StatusBody, cell: Cell, s: TraceStore, number_text: Seq<char>) -> bool {
    let k = cell.source@;
    match kind_of(cell) {
        StatusKind::Text | StatusKind::Badge => {
            let t = match text_of(s, k, number_text) {
                Some(t) => t,
                None => dash(),
            };
            let c = match mapped(cell.color_map, t) {
                Some(c) => c,
                None => base_color(cell),
            };
            is_chip(b, t, c, kind_of(cell) == StatusKind::Badge)
        },
        StatusKind::FixType => is_chip(
            b,
            fix_chip(fix_of(s, k)).0,
            status_color(cell, s, number_text),
            false,
        ),
        StatusKind::ArmedBool => {
            let armed = armed_of(s, k) == Some(true);
            let t = match armed_of(s, k) {
                None => dash(),
                Some(a) => if a {
                    "ARMED"@
                } else {
                    "DISARMED"@
                },
            };
            let c = match mapped(cell.color_map, armed_word(armed)) {
                Some(c) => c,
                None => match armed_of(s, k) {
                    None => base_color(cell),
                    Some(a) => if a {
                        palette(2)
                    } else {
                        gray(120)
                    },
                },
            };
            is_chip(b, t, c, false)
        },
        StatusKind::TextLog => b == (StatusBody::Log { empty_color: base_color(cell) }),
        StatusKind::EkfFlags => match b {
            StatusBody::Flags { flags } => flags == match number_of(s, k) {
                None => 0,
                Some(v) => if !v.finite() || v.below((Num { bits: 0 })) {
                    0
                } else if v.whole() > u32::MAX {
                    u32::MAX as nat
                } else {
                    v.whole()
                },
            },
            _ => false,
        },
    }
}

/// Does a status panel have anything to show?
pub open spec fn has_status(cell: Cell, s: TraceStore) -> bool {
    let k = cell.source@;
    match kind_of(cell) {
        StatusKind::Text | StatusKind::Badge | StatusKind::ArmedBool => s.strings@.contains_key(k)
            || number_of(s, k) is Some,
        StatusKind::FixType | StatusKind::EkfFlags => number_of(s, k) is Some,
        StatusKind::TextLog => s.log(k).len() > 0,
    }
}

/// What a status panel shows, and whether its channel has had any data.
pub fn status_body(cell: &Cell, store: &TraceStore, number_text: &str) -> (r: (StatusBody, bool))
    requires
        store.wf(),
        cell.color_map.wf(),
    ensures
        shows(r.0, *cell, *store, number_text@),
        r.1 == has_status(*cell, *store),
{
    let key = cell.source.as_str();
    let kind = match cell.kind {
        Some(k) => k,
        None => StatusKind::Text,
    };
    match kind {
        StatusKind::Text | StatusKind::Badge => {
            let value = read_text(store, key, number_text);
            let has = value.is_some();
            let text = match value {
                Some(t) => t,
                None => owned("—"),
            };
            let color = match map_color(&cell.color_map, text.as_str()) {
                Some(c) => c,
                None => default_color(cell),
            };
            let badge = match kind {
                StatusKind::Badge => true,
                _ => false,
            };
            (StatusBody::Chip { text, color, badge }, has)
        },
        StatusKind::FixType => {
            let n: i64 = read_fix(store, key);
            let has = store.latest(key).is_some();
            let color = status_cell_color(cell, store, number_text);
            let chip = status_fix_type_chip(n);
            (StatusBody::Chip { text: owned(chip.0), color, badge: false }, has)
        },
        StatusKind::ArmedBool => {
            let state = read_armed(store, key);
            let (word, text) = match state {
                None => ("False", "—"),
                Some(a) => if a {
                    ("True", "ARMED")
                } else {
                    ("False", "DISARMED")
                },
            };
            let color = match map_color(&cell.color_map, word) {
                Some(c) => c,
                None => match state {
                    None => default_color(cell),
                    Some(a) => if a {
                        tab10(2)
                    } else {
                        Rgb::from_gray(120)
                    },
                },
            };
            (StatusBody::Chip { text: owned(text), color, badge: false }, state.is_some())
        },
        StatusKind::TextLog => (
            StatusBody::Log { empty_color: default_color(cell) },
            store.has_log(key),
        ),
        StatusKind::EkfFlags => {
            let v = store.latest(key);
            let flags: u32 = match v {
                Some(x) => x.flag_bits(),
                None => 0,
            };
            (StatusBody::Flags { flags }, v.is_some())
        },
    }
}

/// A status panel with data and a chip paints it in the colour that
/// `status_cell_color` gives.
pub proof fn chip_has_the_status_color(
    b: StatusBody,
    cell: Cell,
    s: TraceStore,
    number_text: Seq<char>,
)
    requires
        shows(b, cell, s, number_text),
        has_status(cell, s),
        b is Chip,
    ensures
        b->color == status_color(cell, s, number_text),
{
}

/// Is `r` the lines of a log, newest first, at most `max_lines`, each cut to `max_chars`
/// and in the colour of its severity?
pub open spec fn log_shown(
    r: Seq<(String, Rgb)>,
    entries: Seq<TextLogEntry>,
    max_chars: int,
    max_lines: int,
) -> bool {
    &&& r.len() == if entries.len() < max_lines {
        entries.len() as int
    } else {
        max_lines
    }
    &&& forall|i: int|
        0 <= i < r.len() ==> (#[trigger] r[i]).0@ == shortened(
            entries[entries.len() - 1 - i].text@,
            max_chars,
        ) && r[i].1 == severity(entries[entries.len() - 1 - i].severity)
}

/// The lines of a log, newest first, at most `max_lines`, each cut to `max_chars` and
/// in the colour of its severity.
pub fn log_lines(entries: &Vec<TextLogEntry>, max_chars: usize, max_lines: usize) -> (r: Vec<
    (String, Rgb),
>)
    ensures
        log_shown(r@, entries@, max_chars as int, max_lines as int),
{
    let n: usize = entries.len();
    let mut out: Vec<(String, Rgb)> = Vec::new();
    let mut i: usize = 0;
    while i < n && i < max_lines
        invariant
            i <= n == entries.len(),
            i <= max_lines,
            out.len() == i,
            forall|k: int|
                0 <= k < i ==> (#[trigger] out@[k]).0@ == shortened(
                    entries@[n - 1 - k].text@,
                    max_chars as int,
                ) && out@[k].1 == severity(entries@[n - 1 - k].severity),
        decreases n - i,
    {
        let e = &entries[n - 1 - i];
        out.push((shorten(e.text.as_str(), max_chars), status_severity_color(e.severity)));
        i = i + 1;
    }
    out
}

/// Does a panel of this kind take part in zooming?
pub open spec fn zooms(p: Primitive) -> bool {
    p != Primitive::Status && p != Primitive::InfoText && p != Primitive::StatusBadge
}

/// Does a panel of this kind take part in zooming? Those that plot do.
pub fn primitive_supports_zoom(p: Primitive) -> (r: bool)
    ensures
        r == zooms(p),
{
    match p {
        Primitive::Scalar => true,
        Primitive::Vector => true,
        Primitive::Overlay => true,
        Primitive::Magnitude => true,
        Primitive::MagInterference => true,
        Primitive::Diff => true,
        Primitive::AttitudeRpy => true,
        _ => false,
    }
}

/// Does a panel of this kind have a label overlay? Those that plot do.
pub fn primitive_supports_label_mode(p: Primitive) -> (r: bool)
    ensures
        r == zooms(p),
{
    primitive_supports_zoom(p)
}

} // verus!
