//! Status panels: which word stands on the chip, in which colour, and what the log and
//! the estimator flags show.
use vstd::prelude::*;

use crate::color::{severity, Rgb};
use crate::status::{decoded, has_status, log_shown, shows, status_color, zooms, StatusBody};
use crate::store::{TextLogEntry, TraceStore};
use crate::template::{Cell, Primitive, StatusKind};
use crate::text::dec_int;

verus! {

// ---------------------------------------------------------------- armed

/// The latest number of a channel says armed where it is larger than one half in
/// magnitude. No NaN is.
pub open spec fn says_armed(bits: u64) -> bool {
    ||| 0x3FE0_0000_0000_0000 < bits <= 0x7FF0_0000_0000_0000
    ||| 0xBFE0_0000_0000_0000 < bits <= 0xFFF0_0000_0000_0000
}

/// The chip of an armed state reads `ARMED` exactly if the channel's latest text is
/// `True`, `true`, `ARMED` or `1`, or it has no text and its latest number is larger than
/// one half in magnitude. It reads `DISARMED` exactly if the channel has a text or a
/// number that says otherwise, and a dash exactly if it has neither.
pub proof fn armed_chips_read_what_the_channel_says(
    b: StatusBody,
    cell: Cell,
    s: TraceStore,
    number_text: Seq<char>,
)
    requires
        shows(b, cell, s, number_text),
        cell.kind == Some(StatusKind::ArmedBool),
    ensures
        b is Chip,
        ({
            let k = cell.source@;
            let texted = s.strings@.contains_key(k);
            let t = s.strings@[k]@;
            let counted = s.series(k).len() > 0;
            let v = s.series(k)[s.series(k).len() - 1].value.bits;
            let by_text = t == "True"@ || t == "true"@ || t == "ARMED"@ || t == "1"@;
            let armed = if texted {
                by_text
            } else {
                counted && says_armed(v)
            };
            &&& b->text@ == "ARMED"@ <==> armed
            &&& b->text@ == "DISARMED"@ <==> (texted || counted) && !armed
            &&& b->text@ == "—"@ <==> !texted && !counted
        }),
{
    reveal_strlit("ARMED");
    reveal_strlit("DISARMED");
    reveal_strlit("—");
    assert("ARMED"@.len() == 5);
    assert("DISARMED"@.len() == 8);
    assert("—"@.len() == 1);
}

/// The chip of an armed state is green where it reads `ARMED` and gray where it reads
/// `DISARMED`, unless the panel's own colours say otherwise.
pub proof fn armed_chips_are_green(
    b: StatusBody,
    cell: Cell,
    s: TraceStore,
    number_text: Seq<char>,
)
    requires
        shows(b, cell, s, number_text),
        cell.kind == Some(StatusKind::ArmedBool),
        cell.color_map@ == Map::<Seq<char>, String>::empty(),
        cell.default_color is None,
    ensures
        b->text@ == "ARMED"@ ==> b->color == (Rgb { r: 0x2c, g: 0xa0, b: 0x2c }),
        b->text@ == "DISARMED"@ ==> b->color == (Rgb { r: 120, g: 120, b: 120 }),
        b->text@ == "—"@ ==> b->color == (Rgb { r: 170, g: 170, b: 170 }),
        b->text@ == "ARMED"@ || b->text@ == "DISARMED"@ || b->text@ == "—"@,
{
    reveal_strlit("ARMED");
    reveal_strlit("DISARMED");
    reveal_strlit("—");
    assert("ARMED"@.len() == 5);
    assert("DISARMED"@.len() == 8);
    assert("—"@.len() == 1);
}

/// The panel's own colours name an armed state `True`, and any other `False`.
pub proof fn armed_colors_are_named_true_and_false(
    b: StatusBody,
    cell: Cell,
    s: TraceStore,
    number_text: Seq<char>,
)
    requires
        shows(b, cell, s, number_text),
        cell.kind == Some(StatusKind::ArmedBool),
        cell.color_map@.contains_key("True"@),
        cell.color_map@.contains_key("False"@),
        crate::color::color_value(cell.color_map@["True"@]@) is Some,
        crate::color::color_value(cell.color_map@["False"@]@) is Some,
    ensures
        b->color == if b->text@ == "ARMED"@ {
            crate::color::color_value(cell.color_map@["True"@]@)->0
        } else {
            crate::color::color_value(cell.color_map@["False"@]@)->0
        },
{
    reveal_strlit("ARMED");
    reveal_strlit("DISARMED");
    reveal_strlit("—");
    assert("ARMED"@.len() == 5);
    assert("DISARMED"@.len() == 8);
    assert("—"@.len() == 1);
}

// ---------------------------------------------------------------- texts

/// A text panel shows the channel's latest text, else its latest number as printed, else
/// a dash; a badge shows the same, smaller. A panel that names no kind is a text panel.
pub proof fn text_chips_read_the_latest_text(
    b: StatusBody,
    cell: Cell,
    s: TraceStore,
    number_text: Seq<char>,
)
    requires
        shows(b, cell, s, number_text),
        cell.kind is None || cell.kind == Some(StatusKind::Text) || cell.kind == Some(
            StatusKind::Badge,
        ),
    ensures
        b is Chip,
        b->badge <==> cell.kind == Some(StatusKind::Badge),
        s.strings@.contains_key(cell.source@) ==> b->text@ == s.strings@[cell.source@]@,
        !s.strings@.contains_key(cell.source@) && s.series(cell.source@).len() > 0 ==> b->text@
            == number_text,
        !s.strings@.contains_key(cell.source@) && s.series(cell.source@).len() == 0 ==> b->text@
            == "—"@,
{
}

/// A text panel paints a text in the colour that its map gives that text, else in its own
/// colour, else in gray.
pub proof fn text_chips_are_painted_by_their_text(
    b: StatusBody,
    cell: Cell,
    s: TraceStore,
    number_text: Seq<char>,
)
    requires
        shows(b, cell, s, number_text),
        cell.kind is None || cell.kind == Some(StatusKind::Text) || cell.kind == Some(
            StatusKind::Badge,
        ),
    ensures
        ({
            let m = cell.color_map@;
            let own = crate::color::color_value(m[b->text@]@);
            let named = m.contains_key(b->text@) && own is Some;
            let base = match cell.default_color {
                Some(c) => crate::color::color_value(c@),
                None => None,
            };
            &&& named ==> b->color == own->0
            &&& !named && base is Some ==> b->color == base->0
            &&& !named && base is None ==> b->color == (Rgb { r: 170, g: 170, b: 170 })
        }),
{
}

// ---------------------------------------------------------------- GPS fix

/// A fix panel names the fix by its number: none at 0, two and three dimensions at 1 and
/// 2, differential at 3, floating RTK at 4, fixed RTK at 5 and 6, and a dash for all others.
pub proof fn fixes_are_named_by_their_number(
    b: StatusBody,
    cell: Cell,
    s: TraceStore,
    number_text: Seq<char>,
    n: int,
)
    requires
        shows(b, cell, s, number_text),
        cell.kind == Some(StatusKind::FixType),
        s.series(cell.source@).len() > 0,
        n == s.series(cell.source@)[s.series(cell.source@).len() - 1].value.rounded(),
    ensures
        b is Chip,
        !b->badge,
        b->text@ == "No fix"@ <==> n == 0,
        b->text@ == "2D"@ <==> n == 1,
        b->text@ == "3D"@ <==> n == 2,
        b->text@ == "DGPS"@ <==> n == 3,
        b->text@ == "RTK float"@ <==> n == 4,
        b->text@ == "RTK fixed"@ <==> n == 5 || n == 6,
        b->text@ == "—"@ <==> n < 0 || n > 6,
{
    reveal_strlit("No fix");
    reveal_strlit("2D");
    reveal_strlit("3D");
    reveal_strlit("DGPS");
    reveal_strlit("RTK float");
    reveal_strlit("RTK fixed");
    reveal_strlit("—");
    assert("No fix"@.len() == 6);
    assert("2D"@.len() == 2);
    assert("3D"@.len() == 2);
    assert("DGPS"@.len() == 4);
    assert("RTK float"@.len() == 9);
    assert("RTK fixed"@.len() == 9);
    assert("—"@.len() == 1);
    assert("2D"@[0] != "3D"@[0]);
    assert("RTK float"@[4] == 'f' && "RTK float"@[5] == 'l');
    assert("RTK fixed"@[5] == 'i');
}

/// A fix panel without data shows a dash.
pub proof fn fixes_without_data_show_a_dash(
    b: StatusBody,
    cell: Cell,
    s: TraceStore,
    number_text: Seq<char>,
)
    requires
        shows(b, cell, s, number_text),
        cell.kind == Some(StatusKind::FixType),
        s.series(cell.source@).len() == 0,
    ensures
        b is Chip,
        b->text@ == "—"@,
{
}

/// The better the fix, the colour: red without one, amber, green, blue and violet on the
/// way up, and green again for fixed RTK, unless the panel's own colours name its number.
pub proof fn fixes_are_painted_by_their_number(
    b: StatusBody,
    cell: Cell,
    s: TraceStore,
    number_text: Seq<char>,
    n: int,
)
    requires
        shows(b, cell, s, number_text),
        cell.kind == Some(StatusKind::FixType),
        s.series(cell.source@).len() > 0,
        n == s.series(cell.source@)[s.series(cell.source@).len() - 1].value.rounded(),
    ensures
        ({
            let m = cell.color_map@;
            let own = crate::color::color_value(m[dec_int(n)]@);
            let named = m.contains_key(dec_int(n)) && own is Some;
            &&& named ==> b->color == own->0
            &&& !named && n == 0 ==> b->color == (Rgb { r: 0xd6, g: 0x27, b: 0x28 })
            &&& !named && n == 1 ==> b->color == (Rgb { r: 0xe6, g: 0xa9, b: 0x00 })
            &&& !named && n == 2 ==> b->color == (Rgb { r: 0x2c, g: 0xa0, b: 0x2c })
            &&& !named && n == 3 ==> b->color == (Rgb { r: 0x1f, g: 0x77, b: 0xb4 })
            &&& !named && n == 4 ==> b->color == (Rgb { r: 0x94, g: 0x67, b: 0xbd })
            &&& !named && (n == 5 || n == 6) ==> b->color == (Rgb { r: 0x2c, g: 0xa0, b: 0x2c })
            &&& !named && n > 6 ==> b->color == (Rgb { r: 170, g: 170, b: 170 })
        }),
{
}

// ---------------------------------------------------------------- logs

/// The colour of a log line by its severity: red up to 3, amber at 4, blue at 5, gray
/// above.
pub proof fn severities_are_painted_by_their_number(sev: u8)
    ensures
        severity(sev) == (Rgb { r: 0xd6, g: 0x27, b: 0x28 }) <==> sev <= 3,
        severity(sev) == (Rgb { r: 0xe6, g: 0xa9, b: 0x00 }) <==> sev == 4,
        severity(sev) == (Rgb { r: 0x1f, g: 0x77, b: 0xb4 }) <==> sev == 5,
        severity(sev) == (Rgb { r: 170, g: 170, b: 170 }) <==> sev >= 6,
{
}

/// The first line shown is the newest entry, and each further line the entry before. A
/// text that fits stands whole; a longer one keeps its beginning and ends in an ellipsis.
pub proof fn logs_are_shown_newest_first(
    r: Seq<(String, Rgb)>,
    entries: Seq<TextLogEntry>,
    max_chars: int,
    max_lines: int,
    i: int,
)
    requires
        log_shown(r, entries, max_chars, max_lines),
        0 <= i < r.len(),
    ensures
        r.len() <= max_lines,
        r.len() <= entries.len(),
        r.len() == max_lines || r.len() == entries.len(),
        ({
            let e = entries[entries.len() - 1 - i];
            let t = r[i].0@;
            &&& r[i].1 == severity(e.severity)
            &&& e.text@.len() <= max_chars || max_chars <= 3 ==> t == e.text@
            &&& e.text@.len() > max_chars > 3 ==> t.len() == max_chars && t[max_chars - 1] == '…'
                && forall|c: int| 0 <= c < max_chars - 1 ==> #[trigger] t[c] == e.text@[c]
        }),
{
}

// ---------------------------------------------------------------- flags

/// Each flag stands under its name for one bit of the word: the first for the lowest, each
/// further one for twice as much.
pub proof fn flags_stand_for_their_bits(r: Seq<(&'static str, bool)>, flags: u32)
    requires
        decoded(r, flags),
    ensures
        r.len() == 12,
        r[0].0@ == "ATTITUDE"@ && (r[0].1 <==> flags % 2 == 1),
        r[1].0@ == "VELOCITY_HORIZ"@ && (r[1].1 <==> (flags / 2) % 2 == 1),
        r[2].0@ == "VELOCITY_VERT"@ && (r[2].1 <==> (flags / 4) % 2 == 1),
        r[3].0@ == "POS_HORIZ_REL"@ && (r[3].1 <==> (flags / 8) % 2 == 1),
        r[4].0@ == "POS_HORIZ_ABS"@ && (r[4].1 <==> (flags / 16) % 2 == 1),
        r[5].0@ == "POS_VERT_ABS"@ && (r[5].1 <==> (flags / 32) % 2 == 1),
        r[6].0@ == "POS_VERT_AGL"@ && (r[6].1 <==> (flags / 64) % 2 == 1),
        r[7].0@ == "CONST_POS_MODE"@ && (r[7].1 <==> (flags / 128) % 2 == 1),
        r[8].0@ == "PRED_POS_HORIZ_REL"@ && (r[8].1 <==> (flags / 256) % 2 == 1),
        r[9].0@ == "PRED_POS_HORIZ_ABS"@ && (r[9].1 <==> (flags / 512) % 2 == 1),
        r[10].0@ == "GPS_GLITCHING"@ && (r[10].1 <==> (flags / 1024) % 2 == 1),
        r[11].0@ == "GPS_QUALITY_GOOD"@ && (r[11].1 <==> (flags / 2048) % 2 == 1),
{
    assert((flags & (1u32 << 0u32) != 0) == (flags % 2 == 1)
        && (flags & (1u32 << 1u32) != 0) == ((flags / 2) % 2 == 1)
        && (flags & (1u32 << 2u32) != 0) == ((flags / 4) % 2 == 1)
        && (flags & (1u32 << 3u32) != 0) == ((flags / 8) % 2 == 1)
        && (flags & (1u32 << 4u32) != 0) == ((flags / 16) % 2 == 1)
        && (flags & (1u32 << 5u32) != 0) == ((flags / 32) % 2 == 1)
        && (flags & (1u32 << 6u32) != 0) == ((flags / 64) % 2 == 1)
        && (flags & (1u32 << 7u32) != 0) == ((flags / 128) % 2 == 1)
        && (flags & (1u32 << 8u32) != 0) == ((flags / 256) % 2 == 1)
        && (flags & (1u32 << 9u32) != 0) == ((flags / 512) % 2 == 1)
        && (flags & (1u32 << 10u32) != 0) == ((flags / 1024) % 2 == 1)
        && (flags & (1u32 << 11u32) != 0) == ((flags / 2048) % 2 == 1)) by (bit_vector);
}

/// An estimator panel takes its flags from the channel's latest number: its whole part, up
/// to the largest that fits, and none where the channel has no number, a negative one, or
/// one that is not finite.
pub proof fn flags_are_read_from_the_latest_number(
    b: StatusBody,
    cell: Cell,
    s: TraceStore,
    number_text: Seq<char>,
)
    requires
        shows(b, cell, s, number_text),
        cell.kind == Some(StatusKind::EkfFlags),
    ensures
        b is Flags,
        ({
            let p = s.series(cell.source@);
            let v = p[p.len() - 1].value;
            let plain = p.len() > 0 && v.bits < 0x7FF0_0000_0000_0000;
            &&& !plain ==> b->flags == 0
            &&& plain && v.whole() <= 0xFFFF_FFFF ==> b->flags == v.whole()
            &&& plain && v.whole() > 0xFFFF_FFFF ==> b->flags == 0xFFFF_FFFF
        }),
{
    let p = s.series(cell.source@);
    let v = p[p.len() - 1].value;
    if p.len() > 0 && v.bits == 0x8000_0000_0000_0000 {
        assert(v.size() == 0);
        assert(v.significand() == 0);
        assert(v.unit() == -1074);
        assert(0nat / vstd::arithmetic::power2::pow2(1074) == 0) by {
            vstd::arithmetic::power2::lemma_pow2_pos(1074);
        }
        assert(v.whole() == 0);
    }
}

// ---------------------------------------------------------------- presence

/// A panel has something to show where its channel has what the panel reads: a text or a
/// number for words and armed states, a number for fixes and flags, an entry for logs.
pub proof fn panels_have_a_status_where_their_channel_has_data(cell: Cell, s: TraceStore)
    ensures
        ({
            let k = cell.source@;
            let worded = cell.kind is None || cell.kind == Some(StatusKind::Text) || cell.kind
                == Some(StatusKind::Badge) || cell.kind == Some(StatusKind::ArmedBool);
            &&& worded ==> (has_status(cell, s) <==> s.strings@.contains_key(k) || s.series(k).len()
                > 0)
            &&& cell.kind == Some(StatusKind::FixType) || cell.kind == Some(StatusKind::EkfFlags)
                ==> (has_status(cell, s) <==> s.series(k).len() > 0)
            &&& cell.kind == Some(StatusKind::TextLog) ==> (has_status(cell, s) <==> s.log(k).len()
                > 0)
        }),
{
}

/// What a panel shows of a channel depends on nothing else in the store.
pub proof fn panels_read_their_own_channel(
    b: StatusBody,
    cell: Cell,
    s: TraceStore,
    u: TraceStore,
    number_text: Seq<char>,
)
    requires
        shows(b, cell, s, number_text),
        s.series(cell.source@) == u.series(cell.source@),
        s.strings@.contains_key(cell.source@) <==> u.strings@.contains_key(cell.source@),
        s.strings@.contains_key(cell.source@) ==> s.strings@[cell.source@]@
            == u.strings@[cell.source@]@,
    ensures
        shows(b, cell, u, number_text),
        status_color(cell, s, number_text) == status_color(cell, u, number_text),
{
}

/// The panels that plot can be zoomed and labelled; those of words and texts cannot.
pub proof fn panels_that_plot_can_be_zoomed()
    ensures
        zooms(Primitive::Scalar),
        zooms(Primitive::Vector),
        zooms(Primitive::Overlay),
        zooms(Primitive::Magnitude),
        zooms(Primitive::MagInterference),
        zooms(Primitive::Diff),
        zooms(Primitive::AttitudeRpy),
        !zooms(Primitive::Status),
        !zooms(Primitive::StatusBadge),
        !zooms(Primitive::InfoText),
{
}

} // verus!
