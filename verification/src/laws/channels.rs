//! Channels in the pickers: what kind each is by its name, how fresh, in which group, and
//! which a filter lets through.
use vstd::prelude::*;

use crate::color::Rgb;
use crate::keymap::KeyMap;
use crate::keys::{
    base_of, freshness, group_of, grouped, keys_in_group, known_from, lemma_filter_keeps,
    lemma_filter_members, listed, listed_keys, look, offered_by, primitive_for, status_kind_for,
    KeyFreshness, PickerTypeFilter, ValueShape, KEY_GROUPS, KNOWN_HVN_SITL_KEYS,
};
use crate::template::StatusKind;
use crate::text::first_of_unique;

verus! {

// ---------------------------------------------------------------- names

/// The base of a name ends where an index or a member begins.
pub proof fn bases_end_at_the_first_bracket_or_dot(b: Seq<char>, tail: Seq<char>)
    requires
        forall|i: int| 0 <= i < b.len() ==> b[i] != '[' && b[i] != '.',
        tail.len() > 0 ==> tail[0] == '[' || tail[0] == '.',
    ensures
        base_of(b + tail) == b,
{
    let s = b + tail;
    assert forall|i: int| 0 <= i < b.len() implies s[i] != '[' && s[i] != '.' by {
        assert(s[i] == b[i]);
    }
    if tail.len() > 0 {
        assert(s[b.len() as int] == tail[0]);
    }
    first_of_unique(s, '[', '.', b.len() as int);
    assert(s.take(b.len() as int) =~= b);
}

/// Each component of a channel is of the shape of the channel: an index makes no
/// difference to what is known of it.
pub proof fn components_are_known_by_their_channel(b: Seq<char>, tail: Seq<char>, i: int)
    requires
        forall|k: int| 0 <= k < b.len() ==> b[k] != '[',
        tail.len() > 0 ==> tail[0] == '[',
        0 <= i <= 170,
    ensures
        known_from(b + tail, i) == known_from(b, i),
    decreases 170 - i,
{
    lemma_unindexed(b, tail);
    lemma_unindexed(b, Seq::empty());
    assert(b + Seq::<char>::empty() =~= b);
    if i < 170 {
        components_are_known_by_their_channel(b, tail, i + 1);
    }
}

proof fn lemma_unindexed(b: Seq<char>, tail: Seq<char>)
    requires
        forall|k: int| 0 <= k < b.len() ==> b[k] != '[',
        tail.len() > 0 ==> tail[0] == '[',
    ensures
        crate::keys::unindexed(b + tail) == b,
{
    let s = b + tail;
    assert forall|i: int| 0 <= i < b.len() implies s[i] != '[' by {
        assert(s[i] == b[i]);
    }
    if tail.len() > 0 {
        assert(s[b.len() as int] == tail[0]);
    }
    first_of_unique(s, '[', '[', b.len() as int);
    assert(s.take(b.len() as int) =~= b);
}

/// Every channel of the table is known, by the first entry for it.
pub proof fn listed_channels_are_known(i: int)
    requires
        0 <= i < 170,
    ensures
        known_from(KNOWN_HVN_SITL_KEYS@[i].0@, 0) is Some,
{
    lemma_known(i, 0);
}

proof fn lemma_known(i: int, k: int)
    requires
        0 <= k <= i < 170,
    ensures
        known_from(KNOWN_HVN_SITL_KEYS@[i].0@, k) is Some,
    decreases i - k,
{
    if k < i {
        lemma_known(i, k + 1);
    }
}

/// Triples are plotted as vectors; other numbers, one or many, as scalars; texts, flags
/// and logs are shown as statuses.
pub proof fn shapes_have_their_panel(shape: ValueShape)
    ensures
        shape == ValueShape::Scalar ==> primitive_for(shape) == "scalar"@,
        shape == ValueShape::Vector(3) ==> primitive_for(shape) == "vector"@,
        shape is Vector && shape->Vector_0 != 3 ==> primitive_for(shape) == "scalar"@,
        shape == ValueShape::String ==> primitive_for(shape) == "status"@,
        shape == ValueShape::Bool ==> primitive_for(shape) == "status"@,
        shape == ValueShape::TextLog ==> primitive_for(shape) == "status"@,
{
}

/// The name of a channel says how its status is shown, whatever its shape: armed states,
/// fixes, message logs and estimator flags. For any other name its shape says so.
pub proof fn names_say_how_a_status_is_shown(key: Seq<char>, shape: ValueShape)
    ensures
        base_of(key) == "armed"@ || base_of(key) == "armed_bool"@ ==> status_kind_for(key, shape)
            == Some(StatusKind::ArmedBool),
        base_of(key) == "fix_type"@ ==> status_kind_for(key, shape) == Some(StatusKind::FixType),
        base_of(key) == "statustexts"@ ==> status_kind_for(key, shape) == Some(StatusKind::TextLog),
        base_of(key) == "ekf_flags"@ ==> status_kind_for(key, shape) == Some(StatusKind::EkfFlags),
        base_of(key) != "armed"@ && base_of(key) != "armed_bool"@ && base_of(key) != "fix_type"@
            && base_of(key) != "statustexts"@ && base_of(key) != "ekf_flags"@ ==> {
            &&& shape == ValueShape::String ==> status_kind_for(key, shape) == Some(StatusKind::Text)
            &&& shape == ValueShape::Bool ==> status_kind_for(key, shape) == Some(
                StatusKind::ArmedBool,
            )
            &&& shape == ValueShape::TextLog ==> status_kind_for(key, shape) == Some(
                StatusKind::TextLog,
            )
            &&& shape is Scalar || shape is Vector ==> status_kind_for(key, shape) is None
        },
{
    reveal_strlit("armed");
    reveal_strlit("armed_bool");
    reveal_strlit("fix_type");
    reveal_strlit("statustexts");
    reveal_strlit("ekf_flags");
    assert("armed"@.len() == 5);
    assert("armed_bool"@.len() == 10);
    assert("fix_type"@.len() == 8);
    assert("statustexts"@.len() == 11);
    assert("ekf_flags"@.len() == 9);
}

// ---------------------------------------------------------------- freshness

/// A channel is live up to three seconds after its last value and stale from then on. One
/// without a value is known by the table, else announced by a store, else neither.
pub proof fn channels_are_live_for_three_seconds(
    key: Seq<char>,
    seen: KeyMap<i64>,
    now: int,
    observed: bool,
)
    ensures
        ({
            let f = freshness(key, seen, now, observed);
            let had = seen@.contains_key(key);
            let age = now - seen@[key];
            &&& f == KeyFreshness::Live <==> had && age <= 3_000_000
            &&& f == KeyFreshness::Stale <==> had && age > 3_000_000
            &&& f == KeyFreshness::Custom <==> !had && observed && known_from(key, 0) is None
            &&& f == KeyFreshness::SchemaOnly <==> !had && !(observed && known_from(key, 0) is None)
        }),
{
}

/// Live channels are bright, stale ones dimmer, those without a value dimmer still and in
/// italics, and those that only a store knows amber.
pub proof fn freshness_can_be_seen()
    ensures
        look(KeyFreshness::Live) == (Rgb { r: 220, g: 220, b: 220 }, false),
        look(KeyFreshness::Stale) == (Rgb { r: 140, g: 140, b: 140 }, false),
        look(KeyFreshness::SchemaOnly) == (Rgb { r: 120, g: 120, b: 120 }, true),
        look(KeyFreshness::Custom) == (Rgb { r: 220, g: 180, b: 100 }, false),
{
}

// ---------------------------------------------------------------- filters

/// Texts, flags and logs are let through by the status filter and by no other, unless they
/// are named as a position, which the filter for space lets through.
pub proof fn filters_let_their_shape_through(f: PickerTypeFilter, key: Seq<char>, n: usize)
    requires
        !f.d3,
    ensures
        f.shows(key, Some(ValueShape::String)) <==> f.status,
        f.shows(key, Some(ValueShape::Bool)) <==> f.status,
        f.shows(key, Some(ValueShape::TextLog)) <==> f.status,
        !f.status ==> {
            &&& f.shows(key, Some(ValueShape::Scalar)) <==> f.scalar_2d
            &&& 2 <= n <= 10 ==> (f.shows(key, Some(ValueShape::Vector(n))) <==> f.vector_2d)
            &&& f.shows(key, Some(ValueShape::Vector(1))) <==> f.scalar_2d
        },
        !f.status && !f.scalar_2d && !f.vector_2d ==> !f.shows(key, None),
{
}

/// Names that stand for a status, and no others, are let through by the status filter alone
/// whatever their shape.
pub proof fn names_of_statuses_pass_the_status_filter(key: Seq<char>, shape: Option<ValueShape>)
    requires
        shape is None || shape == Some(ValueShape::Scalar),
    ensures
        ({
            let f = PickerTypeFilter { status: true, scalar_2d: false, vector_2d: false, d3: false };
            let b = base_of(key);
            f.shows(key, shape) <==> b == "armed"@ || b == "flight_mode"@ || b == "statustexts"@ || b
                == "ekf_flags"@ || b == "fix_type"@ || b.len() >= 4 && b.take(4) == "sys_"@
        }),
{
    reveal_strlit("sys_");
    assert("sys_"@.len() == 4);
}

/// Names that stand for a position, and no others, are let through by the filter for space
/// alone: north-east-down positions, latitudes, longitudes and altitudes.
pub proof fn names_of_positions_pass_the_space_filter(key: Seq<char>, shape: Option<ValueShape>)
    ensures
        ({
            let f = PickerTypeFilter { status: false, scalar_2d: false, vector_2d: false, d3: true };
            let b = base_of(key);
            let n = b.len() as int;
            f.shows(key, shape) <==> (key.len() >= 4 && key.take(4) == "pos_"@ && exists|i: int|
                0 <= i && i + 4 <= key.len() && #[trigger] key.subrange(i, i + 4) == "_ned"@) || (n
                >= 4 && (b.skip(n - 4) == "_lat"@ || b.skip(n - 4) == "_lng"@ || b.skip(n - 4)
                == "_alt"@))
        }),
{
    reveal_strlit("pos_");
    reveal_strlit("_ned");
    reveal_strlit("_lat");
    reveal_strlit("_lng");
    reveal_strlit("_alt");
    assert("pos_"@.len() == 4 && "_ned"@.len() == 4 && "_lat"@.len() == 4 && "_lng"@.len() == 4
        && "_alt"@.len() == 4);
    let p = "_ned"@;
    if exists|i: int| 0 <= i && i + 4 <= key.len() && #[trigger] key.subrange(i, i + 4) == p {
        let i = choose|i: int| 0 <= i && i + 4 <= key.len() && #[trigger] key.subrange(i, i + 4) == p;
        assert(crate::text::stands_at(key, p, i));
    }
    if crate::text::holds(key, p) {
        let i = choose|i: int| crate::text::stands_at(key, p, i);
        assert(key.subrange(i, i + 4) == p);
    }
}

/// What is listed passes the filter and is one of the channels, and there are at most 256.
/// Where no more pass, none that passes is left out.
pub proof fn lists_hold_what_passes(
    keys: Seq<Seq<char>>,
    filter: Option<PickerTypeFilter>,
    k: Seq<char>,
)
    ensures
        ({
            let l = listed_keys(keys, filter, 256);
            let f: PickerTypeFilter = filter->0;
            &&& l.len() <= 256
            &&& l.contains(k) ==> keys.contains(k) && (filter is Some ==> f.shows(
                k,
                known_from(k, 0),
            ))
            &&& l.len() < 256 && keys.contains(k) && (filter is None || f.shows(k, known_from(k, 0)))
                ==> l.contains(k)
        }),
{
    let g = |k: Seq<char>| listed(k, filter);
    let all = keys.filter(g);
    let l = listed_keys(keys, filter, 256);
    if l.contains(k) {
        let i = choose|i: int| 0 <= i < l.len() && l[i] == k;
        assert(all[i] == k);
        assert(all.contains(k));
        lemma_filter_members(keys, g, k);
    }
    if keys.contains(k) && g(k) {
        let i = choose|i: int| 0 <= i < keys.len() && keys[i] == k;
        lemma_filter_keeps(keys, g, i);
        assert(all.contains(k));
    }
}

// ---------------------------------------------------------------- groups

/// The group of a channel by its base name.
pub proof fn channels_are_grouped_by_their_base(key: Seq<char>)
    ensures
        ({
            let b = base_of(key);
            let name = KEY_GROUPS@[group_of(key)]@;
            let physics = b == "accel"@ || b == "gyro"@ || b == "mag_xyz"@ || b == "mag_clean_xyz"@
                || b == "wind_ned"@ || b == "baro_pressure"@ || b == "baro_temp"@ || b
                == "baro_alt"@ || b == "state_alt"@ || b == "quat_wxyz"@ || b == "euler"@ || b
                == "gps_alt"@ || b == "gps_vn"@;
            let autopilot = b == "ap_attitude"@ || b == "ap_raw_imu"@ || b == "ap_vfr_alt"@ || b
                == "ap_vel_ned"@;
            let position = b.len() >= 4 && b.take(4) == "pos_"@;
            let timing = b == "t"@ || b == "ts"@;
            &&& physics ==> name == "DT physics"@
            &&& !physics && autopilot ==> name == "AP MAVLink"@
            &&& !physics && !autopilot && position ==> name == "Position (NED)"@
            &&& !physics && !autopilot && !position && timing ==> name == "Timing"@
            &&& !physics && !autopilot && !position && !timing ==> name == "Other"@
        }),
{
    reveal_strlit("pos_");
    assert("pos_"@.len() == 4);
}

/// Each group that is shown has a channel, holds only channels of its own, and stands
/// before those that come later in the order of the groups. Every channel stands in the
/// group of its own name.
pub proof fn groups_hold_their_channels(keys: Seq<Seq<char>>, n: int)
    requires
        0 <= n <= 5,
    ensures
        ({
            let g = grouped(keys, n);
            &&& forall|j: int| 0 <= j < g.len() ==> (#[trigger] g[j]).1.len() > 0
            &&& forall|j: int, k: Seq<char>|
                0 <= j < g.len() && (#[trigger] g[j]).1.contains(k) ==> #[trigger] KEY_GROUPS@[group_of(
                    k,
                )]@ == g[j].0 && keys.contains(k) && group_of(k) < n
            &&& forall|i: int|
                0 <= i < keys.len() && group_of(#[trigger] keys[i]) < n ==> exists|j: int|
                    0 <= j < g.len() && (#[trigger] g[j]).1.contains(keys[i])
            &&& forall|i: int, j: int, a: Seq<char>, b: Seq<char>|
                #![trigger g[i].1.contains(a), g[j].1.contains(b)]
                0 <= i < j < g.len() && g[i].1.contains(a) && g[j].1.contains(b) ==> group_of(a)
                    < group_of(b)
        }),
    decreases n,
{
    if n > 0 {
        groups_hold_their_channels(keys, n - 1);
        let m = n - 1;
        let f = |k: Seq<char>| group_of(k) == m;
        let ks = keys_in_group(keys, m);
        let head = grouped(keys, m);
        let g = grouped(keys, n);
        assert forall|k: Seq<char>| #[trigger] ks.contains(k) implies keys.contains(k) && group_of(k)
            == m by {
            lemma_filter_members(keys, f, k);
        }
        assert forall|i: int| 0 <= i < keys.len() && group_of(#[trigger] keys[i]) < n implies exists|
            j: int,
        |
            0 <= j < g.len() && (#[trigger] g[j]).1.contains(keys[i]) by {
            if group_of(keys[i]) == m {
                lemma_filter_keeps(keys, f, i);
                assert(ks.contains(keys[i]));
                assert(g[g.len() - 1].1.contains(keys[i]));
            } else {
                let j = choose|j: int| 0 <= j < head.len() && (#[trigger] head[j]).1.contains(keys[i]);
                assert(g[j] == head[j]);
            }
        }
        assert forall|j: int, k: Seq<char>|
            0 <= j < g.len() && (#[trigger] g[j]).1.contains(k) implies #[trigger] KEY_GROUPS@[group_of(
            k,
        )]@ == g[j].0 && keys.contains(k) && group_of(k) < n by {
            if j < head.len() {
                assert(g[j] == head[j]);
                assert(head[j].1.contains(k));
                assert(KEY_GROUPS@[group_of(k)]@ == head[j].0);
            }
        }
        assert forall|i: int, j: int, a: Seq<char>, b: Seq<char>|
            #![trigger g[i].1.contains(a), g[j].1.contains(b)]
            0 <= i < j < g.len() && g[i].1.contains(a) && g[j].1.contains(b) implies group_of(a)
            < group_of(b) by {
            assert(g[i] == head[i]);
            assert(KEY_GROUPS@[group_of(a)]@ == head[i].0);
            if j < head.len() {
                assert(g[j] == head[j]);
                assert(head[i].1.contains(a) && head[j].1.contains(b));
            }
        }
    }
}

/// A component offers itself and its channel, which is what stands before its last index; a
/// name without an index offers itself alone.
pub proof fn components_offer_their_channel(b: Seq<char>, tail: Seq<char>, k: Seq<char>)
    requires
        b.len() > 0,
        forall|i: int| 0 <= i < tail.len() ==> tail[i] != '[',
    ensures
        offered_by(b + seq!['['] + tail, k) <==> k == b + seq!['['] + tail || k == b,
        offered_by(tail, k) <==> k == tail,
{
    let s = b + seq!['['] + tail;
    lemma_last_of(s, b.len() as int);
    assert(s.take(b.len() as int) =~= b);
    lemma_none_of(tail);
}

proof fn lemma_last_of(s: Seq<char>, i: int)
    requires
        0 <= i < s.len(),
        s[i] == '[',
        forall|k: int| i < k < s.len() ==> s[k] != '[',
    ensures
        crate::text::last_of(s, '[') == i,
    decreases s.len(),
{
    if i < s.len() - 1 {
        assert(s.last() != '[');
        lemma_last_of(s.drop_last(), i);
    }
}

proof fn lemma_none_of(s: Seq<char>)
    requires
        forall|k: int| 0 <= k < s.len() ==> s[k] != '[',
    ensures
        crate::text::last_of(s, '[') == -1,
    decreases s.len(),
{
    if s.len() > 0 {
        assert(s.last() != '[');
        lemma_none_of(s.drop_last());
    }
}

} // verus!
