//! The faults panel: sliders that disturb the sensors of a simulated drone, the
//! commands that they send, and when.
use vstd::prelude::*;

use crate::keymap::{ascending, KeyMap, KeySet};
use crate::num::{Num, Num32};
use crate::text::{before, cat2, dec, decimal, owned, prefix_before, same_text, texts};

verus! {

/// An argument of a command.
#[derive(Clone, Debug)]
pub enum ArgValue {
    /// A slider's number.
    Slider(Num32),
    /// A number.
    Number(Num),
    Int(i64),
    Text(String),
    /// The numbers of three sliders.
    Triple([Num32; 3]),
    /// A block with one number in it.
    Block { name: String, value: Num },
}

/// A command for the simulation.
#[derive(Clone, Debug)]
pub struct PendingCommand {
    pub feature: String,
    pub drone: String,
    pub args: KeyMap<ArgValue>,
    pub reset: bool,
    pub label: String,
}

/// How long after the last change a section is sent, in microseconds.
pub const DEBOUNCE_US: i64 = 50_000;

/// The sliders, and what is known of the drones that they can aim at.
#[derive(Clone, Debug)]
pub struct FaultsPanelState {
    pub visible: bool,
    /// The drone that commands are for, or `all`.
    pub drone: String,
    /// What is offered where nothing has been seen.
    pub drone_choices: Vec<String>,
    /// The drones seen so far; none where there is no telling.
    pub seen_drones: Option<Vec<String>>,
    /// Drones that the operator named.
    pub extras: Vec<String>,
    pub gps_sigma_p: Num32,
    pub gps_sigma_v: Num32,
    pub gps_bias_n: Num32,
    pub gps_bias_e: Num32,
    pub gps_bias_d: Num32,
    pub gps_sats_base: Num32,
    /// From -1 for automatic to 6 for fixed RTK.
    pub gps_fix_override: i32,
    pub gps_cep_pvt_h: Num32,
    pub gps_cep_pvt_v: Num32,
    pub gps_cep_rtk_h: Num32,
    pub gps_cep_rtk_v: Num32,
    pub imu_b_a_x: Num32,
    pub imu_b_a_y: Num32,
    pub imu_b_a_z: Num32,
    pub imu_b_g_x: Num32,
    pub imu_b_g_y: Num32,
    pub imu_b_g_z: Num32,
    pub imu_sigma_a_n: Num32,
    pub imu_sigma_g_n: Num32,
    pub mag_hi_x: Num32,
    pub mag_hi_y: Num32,
    pub mag_hi_z: Num32,
    pub mag_sigma_x: Num32,
    pub mag_sigma_y: Num32,
    pub mag_sigma_z: Num32,
    pub baro_bias_pa: Num32,
    pub baro_sigma_pa: Num32,
    /// When each section was last changed, as long as that has not been sent.
    pub gps_dirty_since: Option<i64>,
    pub imu_dirty_since: Option<i64>,
    pub mag_dirty_since: Option<i64>,
    pub baro_dirty_since: Option<i64>,
}

/// The words of the numbers that sliders start with.
pub const W_ZERO: u32 = 0;

pub const W_32: u32 = 0x4200_0000;

pub const W_1_5: u32 = 0x3FC0_0000;

pub const W_2: u32 = 0x4000_0000;

pub const W_0_01: u32 = 0x3C23_D70A;

pub const W_0_02: u32 = 0x3CA3_D70A;

/// The slider at zero.
pub open spec fn zero() -> Num32 {
    Num32 { bits: W_ZERO }
}

fn none() -> (r: Num32)
    ensures
        r == zero(),
{
    Num32 { bits: W_ZERO }
}

/// The drones that are offered where nothing has been seen: all of them together,
/// and ten by name.
pub fn default_drone_choices() -> (r: Vec<String>)
    ensures
        r.len() == 11,
        r@[0]@ == "all"@,
        forall|i: int| 1 <= i <= 10 ==> (#[trigger] r@[i])@ == "drone_"@ + dec(i as nat),
{
    let mut v: Vec<String> = Vec::new();
    v.push(owned("all"));
    let mut i: u64 = 1;
    while i <= 10
        invariant
            1 <= i <= 11,
            v.len() == i,
            v@[0]@ == "all"@,
            forall|k: int| 1 <= k < i ==> (#[trigger] v@[k])@ == "drone_"@ + dec(k as nat),
        decreases 11 - i,
    {
        let n = decimal(i);
        v.push(cat2("drone_", n.as_str()));
        i = i + 1;
    }
    v
}

/// The GPS sliders at their start.
pub open spec fn gps_at_rest(s: FaultsPanelState) -> FaultsPanelState {
    FaultsPanelState {
        gps_sigma_p: zero(),
        gps_sigma_v: zero(),
        gps_bias_n: zero(),
        gps_bias_e: zero(),
        gps_bias_d: zero(),
        gps_sats_base: (Num32 { bits: W_32 }),
        gps_fix_override: -1i32,
        gps_cep_pvt_h: (Num32 { bits: W_1_5 }),
        gps_cep_pvt_v: (Num32 { bits: W_2 }),
        gps_cep_rtk_h: (Num32 { bits: W_0_01 }),
        gps_cep_rtk_v: (Num32 { bits: W_0_02 }),
        gps_dirty_since: None,
        ..s
    }
}

/// The IMU sliders at their start.
pub open spec fn imu_at_rest(s: FaultsPanelState) -> FaultsPanelState {
    FaultsPanelState {
        imu_b_a_x: zero(),
        imu_b_a_y: zero(),
        imu_b_a_z: zero(),
        imu_b_g_x: zero(),
        imu_b_g_y: zero(),
        imu_b_g_z: zero(),
        imu_sigma_a_n: zero(),
        imu_sigma_g_n: zero(),
        imu_dirty_since: None,
        ..s
    }
}

/// The magnetometer sliders at their start.
pub open spec fn mag_at_rest(s: FaultsPanelState) -> FaultsPanelState {
    FaultsPanelState {
        mag_hi_x: zero(),
        mag_hi_y: zero(),
        mag_hi_z: zero(),
        mag_sigma_x: zero(),
        mag_sigma_y: zero(),
        mag_sigma_z: zero(),
        mag_dirty_since: None,
        ..s
    }
}

/// The barometer sliders at their start.
pub open spec fn baro_at_rest(s: FaultsPanelState) -> FaultsPanelState {
    FaultsPanelState {
        baro_bias_pa: zero(),
        baro_sigma_pa: zero(),
        baro_dirty_since: None,
        ..s
    }
}

impl FaultsPanelState {
    /// The panel at the start of the program: on screen where it was asked for and
    /// commands can be sent, and aimed at the drone that was named, which is then
    /// offered too.
    pub fn start(asked: bool, can_send: bool, seen: Option<Vec<String>>, named: Option<String>) -> (r:
        FaultsPanelState)
        ensures
            r.visible == (asked && can_send),
            r.seen_drones == seen,
            match named {
                Some(n) => r.drone@ == n@ && texts(r.extras@) == seq![n@],
                None => r.drone@ == "all"@ && r.extras@ == Seq::<String>::empty(),
            },
            r.drone_choices.len() == 11,
            r.drone_choices@[0]@ == "all"@,
            forall|i: int|
                1 <= i <= 10 ==> (#[trigger] r.drone_choices@[i])@ == "drone_"@ + dec(i as nat),
            r == baro_at_rest(mag_at_rest(imu_at_rest(gps_at_rest(r)))),
    {
        let mut s = FaultsPanelState::default();
        s.visible = asked && can_send;
        s.seen_drones = seen;
        match named {
            Some(n) => {
                s.extras.push(n.clone());
                s.drone = n;
                proof {
                    assert(texts(s.extras@) =~= seq![n@]);
                }
            },
            None => {},
        }
        s
    }
}

impl Default for FaultsPanelState {
    /// Hidden, aimed at all drones, with all sliders at their start.
    fn default() -> (r: FaultsPanelState)
        ensures
            !r.visible,
            r.drone@ == "all"@,
            r.drone_choices.len() == 11,
            r.drone_choices@[0]@ == "all"@,
            forall|i: int|
                1 <= i <= 10 ==> (#[trigger] r.drone_choices@[i])@ == "drone_"@ + dec(i as nat),
            r.seen_drones is None,
            r.extras@ == Seq::<String>::empty(),
            r == baro_at_rest(mag_at_rest(imu_at_rest(gps_at_rest(r)))),
    {
        FaultsPanelState {
            visible: false,
            drone: owned("all"),
            drone_choices: default_drone_choices(),
            seen_drones: None,
            extras: Vec::new(),
            gps_sigma_p: none(),
            gps_sigma_v: none(),
            gps_bias_n: none(),
            gps_bias_e: none(),
            gps_bias_d: none(),
            gps_sats_base: Num32 { bits: W_32 },
            gps_fix_override: -1,
            gps_cep_pvt_h: Num32 { bits: W_1_5 },
            gps_cep_pvt_v: Num32 { bits: W_2 },
            gps_cep_rtk_h: Num32 { bits: W_0_01 },
            gps_cep_rtk_v: Num32 { bits: W_0_02 },
            imu_b_a_x: none(),
            imu_b_a_y: none(),
            imu_b_a_z: none(),
            imu_b_g_x: none(),
            imu_b_g_y: none(),
            imu_b_g_z: none(),
            imu_sigma_a_n: none(),
            imu_sigma_g_n: none(),
            mag_hi_x: none(),
            mag_hi_y: none(),
            mag_hi_z: none(),
            mag_sigma_x: none(),
            mag_sigma_y: none(),
            mag_sigma_z: none(),
            baro_bias_pa: none(),
            baro_sigma_pa: none(),
            gps_dirty_since: None,
            imu_dirty_since: None,
            mag_dirty_since: None,
            baro_dirty_since: None,
        }
    }
}

// ---------------------------------------------------------------- choices

/// `base`, followed by the items that are not in it yet.
pub open spec fn with_new(base: Seq<Seq<char>>, items: Seq<Seq<char>>) -> Seq<Seq<char>>
    decreases items.len(),
{
    if items.len() == 0 {
        base
    } else {
        let head = with_new(base, items.drop_last());
        if head.contains(items.last()) {
            head
        } else {
            head.push(items.last())
        }
    }
}

/// Adding what is new keeps what was there in front, repeats nothing, and leaves
/// nothing out.
pub proof fn with_new_adds_once(base: Seq<Seq<char>>, items: Seq<Seq<char>>)
    requires
        base.no_duplicates(),
    ensures
        with_new(base, items).no_duplicates(),
        base.len() <= with_new(base, items).len(),
        with_new(base, items).take(base.len() as int) == base,
        forall|k: Seq<char>| #[trigger]
            with_new(base, items).contains(k) <==> base.contains(k) || items.contains(k),
    decreases items.len(),
{
    let r = with_new(base, items);
    if items.len() == 0 {
        assert(r.take(base.len() as int) =~= base);
    } else {
        let t = items.drop_last();
        with_new_adds_once(base, t);
        let head = with_new(base, t);
        assert(r.take(base.len() as int) =~= head.take(base.len() as int));
        assert forall|k: Seq<char>| #[trigger] r.contains(k) <==> base.contains(k) || items.contains(
            k,
        ) by {
            if items.contains(k) {
                let i = choose|i: int| 0 <= i < items.len() && items[i] == k;
                if i < t.len() {
                    assert(t[i] == k);
                    assert(head.contains(k));
                }
            }
            if t.contains(k) {
                let i = choose|i: int| 0 <= i < t.len() && t[i] == k;
                assert(items[i] == k);
            }
            if head.contains(k) {
                let i = choose|i: int| 0 <= i < head.len() && head[i] == k;
                assert(r[i] == k);
            }
            if r.contains(k) && k != items.last() {
                let i = choose|i: int| 0 <= i < r.len() && r[i] == k;
                assert(head[i] == k);
            }
            if k == items.last() {
                assert(items[items.len() - 1] == k);
                if !head.contains(k) {
                    assert(r[r.len() - 1] == k);
                }
            }
        }
    }
}

/// Add the items that are not in a list yet.
pub fn add_new(out: &mut Vec<String>, items: &Vec<String>)
    ensures
        texts(final(out)@) == with_new(texts(old(out)@), texts(items@)),
{
    let ghost base = texts(out@);
    let ghost all = texts(items@);
    let mut i: usize = 0;
    proof {
        assert(all.take(0) =~= Seq::empty());
    }
    while i < items.len()
        invariant
            i <= items.len(),
            all == texts(items@),
            texts(out@) == with_new(base, all.take(i as int)),
        decreases items.len() - i,
    {
        proof {
            assert(all.take(i + 1).drop_last() =~= all.take(i as int));
            assert(all.take(i + 1).last() == items@[i as int]@);
        }
        if !is_member(out.as_slice(), items[i].as_str()) {
            let ghost was = out@;
            out.push(items[i].clone());
            proof {
                assert(texts(out@) =~= texts(was).push(items@[i as int]@));
            }
        }
        i = i + 1;
    }
    proof {
        assert(all.take(items.len() as int) =~= all);
    }
}

/// Is a text among those of a list?
pub fn is_member(v: &[String], s: &str) -> (r: bool)
    ensures
        r == texts(v@).contains(s@),
{
    let mut i: usize = 0;
    while i < v.len()
        invariant
            i <= v.len(),
            forall|k: int| 0 <= k < i ==> (#[trigger] texts(v@)[k]) != s@,
        decreases v.len() - i,
    {
        if same_text(v[i].as_str(), s) {
            proof {
                assert(texts(v@)[i as int] == s@);
            }
            return true;
        }
        i = i + 1;
    }
    proof {
        if texts(v@).contains(s@) {
            let k = choose|k: int| 0 <= k < texts(v@).len() && texts(v@)[k] == s@;
            assert(texts(v@)[k] != s@);
        }
    }
    false
}

/// The texts of a list in order, each once.
pub fn sorted_distinct(v: &Vec<String>) -> (r: Vec<String>)
    ensures
        ascending(texts(r@)),
        forall|k: Seq<char>| #[trigger] texts(r@).contains(k) <==> texts(v@).contains(k),
{
    let mut all: KeySet = KeyMap::new();
    let mut i: usize = 0;
    let ghost vt = texts(v@);
    while i < v.len()
        invariant
            i <= v.len(),
            vt == texts(v@),
            all.wf(),
            forall|k: Seq<char>| #[trigger]
                all@.contains_key(k) <==> exists|j: int| 0 <= j < i && #[trigger] vt[j] == k,
        decreases v.len() - i,
    {
        let ghost was = all@;
        all.insert(v[i].clone(), ());
        proof {
            assert(vt[i as int] == v@[i as int]@);
            assert forall|k: Seq<char>| #[trigger] all@.contains_key(k) <==> exists|j: int|
                0 <= j < i + 1 && #[trigger] vt[j] == k by {
                if was.contains_key(k) {
                    let j = choose|j: int| 0 <= j < i && #[trigger] vt[j] == k;
                    assert(vt[j] == k);
                }
                if k == vt[i as int] {
                    assert(all@.contains_key(k));
                }
            }
        }
        i = i + 1;
    }
    let r = all.keys();
    proof {
        assert forall|k: Seq<char>| #[trigger] texts(r@).contains(k) <==> vt.contains(k) by {
            if all@.contains_key(k) {
                let j = choose|j: int| 0 <= j < vt.len() && #[trigger] vt[j] == k;
                assert(vt.contains(k));
            }
            if vt.contains(k) {
                let j = choose|j: int| 0 <= j < vt.len() && vt[j] == k;
                assert(all@.contains_key(k));
            }
        }
    }
    r
}

/// Is `s` the drones seen so far, in order?
pub open spec fn seen_sorted(s: Seq<Seq<char>>, seen: Option<Vec<String>>) -> bool {
    ascending(s) && forall|k: Seq<char>| #[trigger]
        s.contains(k) <==> seen is Some && texts(seen->0@).contains(k)
}

/// All drones together, then those seen in order, then those that the operator
/// named, none twice.
pub open spec fn choices(seen: Seq<Seq<char>>, extras: Seq<Seq<char>>) -> Seq<Seq<char>> {
    with_new(with_new(seq!["all"@], seen), extras)
}

impl FaultsPanelState {
    /// The drones that the panel offers: all together, those seen in order, those
    /// that the operator named, none twice. Where there is no telling what was seen
    /// and nothing was named, the default choices.
    pub fn current_choices(&self) -> (r: Vec<String>)
        ensures
            exists|s: Seq<Seq<char>>|
                #![trigger seen_sorted(s, self.seen_drones)]
                seen_sorted(s, self.seen_drones) && texts(r@) == if self.seen_drones is None
                    && self.extras.len() == 0 {
                    texts(self.drone_choices@)
                } else {
                    choices(s, texts(self.extras@))
                },
    {
        let mut out: Vec<String> = Vec::new();
        out.push(owned("all"));
        proof {
            assert(texts(out@) =~= seq!["all"@]);
        }
        let seen: Vec<String> = match &self.seen_drones {
            Some(v) => sorted_distinct(v),
            None => Vec::new(),
        };
        let ghost s = texts(seen@);
        proof {
            if self.seen_drones is None {
                assert(s =~= Seq::empty());
            }
            assert(seen_sorted(s, self.seen_drones));
        }
        add_new(&mut out, &seen);
        add_new(&mut out, &self.extras);
        if self.extras.len() == 0 && self.seen_drones.is_none() {
            let mut v: Vec<String> = Vec::new();
            let mut i: usize = 0;
            while i < self.drone_choices.len()
                invariant
                    i <= self.drone_choices.len(),
                    texts(v@) =~= texts(self.drone_choices@).take(i as int),
                decreases self.drone_choices.len() - i,
            {
                let ghost was = v@;
                v.push(self.drone_choices[i].clone());
                proof {
                    let all = texts(self.drone_choices@);
                    assert(all[i as int] == self.drone_choices@[i as int]@);
                    assert(texts(v@) =~= texts(was).push(all[i as int]));
                    assert(all.take(i + 1) =~= all.take(i as int).push(all[i as int]));
                }
                i = i + 1;
            }
            proof {
                assert(texts(v@) =~= texts(self.drone_choices@));
            }
            return v;
        }
        out
    }
}

/// The choices start with all drones together and hold every drone seen and every
/// one named, none of them twice.
pub proof fn choices_are_complete(seen: Seq<Seq<char>>, extras: Seq<Seq<char>>)
    ensures
        choices(seen, extras).len() > 0,
        choices(seen, extras)[0] == "all"@,
        choices(seen, extras).no_duplicates(),
        forall|k: Seq<char>| #[trigger]
            choices(seen, extras).contains(k) <==> k == "all"@ || seen.contains(k)
                || extras.contains(k),
{
    let base = seq!["all"@];
    assert(base.no_duplicates());
    with_new_adds_once(base, seen);
    let mid = with_new(base, seen);
    with_new_adds_once(mid, extras);
    let r = choices(seen, extras);
    assert(r.take(mid.len() as int)[0] == mid.take(1)[0]);
    assert forall|k: Seq<char>| #[trigger] r.contains(k) <==> k == "all"@ || seen.contains(k)
        || extras.contains(k) by {
        assert(base.contains(k) <==> k == "all"@) by {
            if k == "all"@ {
                assert(base[0] == k);
            }
        }
        assert(mid.contains(k) <==> base.contains(k) || seen.contains(k));
    }
}

// ---------------------------------------------------------------- commands

/// Does a map hold this slider's number under a name?
pub open spec fn has_slider(m: KeyMap<ArgValue>, k: Seq<char>, v: Num32) -> bool {
    m@.contains_key(k) && m@[k] == ArgValue::Slider(v)
}

/// Does a map hold these three sliders' numbers under a name?
pub open spec fn has_triple(m: KeyMap<ArgValue>, k: Seq<char>, x: Num32, y: Num32, z: Num32) -> bool {
    m@.contains_key(k) && match m@[k] {
        ArgValue::Triple(t) => t@ == seq![x, y, z],
        _ => false,
    }
}

/// Does a map hold this text under a name?
pub open spec fn has_text(m: KeyMap<ArgValue>, k: Seq<char>, t: Seq<char>) -> bool {
    m@.contains_key(k) && match m@[k] {
        ArgValue::Text(s) => s@ == t,
        _ => false,
    }
}

/// Are these the GPS parameters?
pub open spec fn is_gps(m: KeyMap<ArgValue>, s: FaultsPanelState) -> bool {
    &&& m.wf()
    &&& m@.dom() == set![
        "sigma_p"@,
        "sigma_v"@,
        "_e"@,
        "sats_base"@,
        "fix_override"@,
        "cep_pvt_h"@,
        "cep_pvt_v"@,
        "cep_rtk_h"@,
        "cep_rtk_v"@,
    ]
    &&& has_slider(m, "sigma_p"@, s.gps_sigma_p)
    &&& has_slider(m, "sigma_v"@, s.gps_sigma_v)
    &&& has_triple(m, "_e"@, s.gps_bias_n, s.gps_bias_e, s.gps_bias_d)
    &&& has_slider(m, "sats_base"@, s.gps_sats_base)
    &&& m@["fix_override"@] == ArgValue::Int(s.gps_fix_override as i64)
    &&& has_slider(m, "cep_pvt_h"@, s.gps_cep_pvt_h)
    &&& has_slider(m, "cep_pvt_v"@, s.gps_cep_pvt_v)
    &&& has_slider(m, "cep_rtk_h"@, s.gps_cep_rtk_h)
    &&& has_slider(m, "cep_rtk_v"@, s.gps_cep_rtk_v)
}

/// Are these the IMU parameters?
pub open spec fn is_imu(m: KeyMap<ArgValue>, s: FaultsPanelState) -> bool {
    &&& m.wf()
    &&& m@.dom() == set!["b_a"@, "b_g"@, "sigma_a_n"@, "sigma_g_n"@]
    &&& has_triple(m, "b_a"@, s.imu_b_a_x, s.imu_b_a_y, s.imu_b_a_z)
    &&& has_triple(m, "b_g"@, s.imu_b_g_x, s.imu_b_g_y, s.imu_b_g_z)
    &&& has_slider(m, "sigma_a_n"@, s.imu_sigma_a_n)
    &&& has_slider(m, "sigma_g_n"@, s.imu_sigma_g_n)
}

/// Are these the magnetometer parameters?
pub open spec fn is_mag(m: KeyMap<ArgValue>, s: FaultsPanelState) -> bool {
    &&& m.wf()
    &&& m@.dom() == set!["hard_iron"@, "sigma"@]
    &&& has_triple(m, "hard_iron"@, s.mag_hi_x, s.mag_hi_y, s.mag_hi_z)
    &&& has_triple(m, "sigma"@, s.mag_sigma_x, s.mag_sigma_y, s.mag_sigma_z)
}

/// Are these the barometer parameters?
pub open spec fn is_baro(m: KeyMap<ArgValue>, s: FaultsPanelState) -> bool {
    &&& m.wf()
    &&& m@.dom() == set!["bias_pa"@, "sigma_pa"@]
    &&& has_slider(m, "bias_pa"@, s.baro_bias_pa)
    &&& has_slider(m, "sigma_pa"@, s.baro_sigma_pa)
}

fn triple(x: Num32, y: Num32, z: Num32) -> (r: ArgValue)
    ensures
        match r {
            ArgValue::Triple(t) => t@ == seq![x, y, z],
            _ => false,
        },
{
    let t: [Num32; 3] = [x, y, z];
    proof {
        assert(t@ =~= seq![x, y, z]);
    }
    ArgValue::Triple(t)
}

impl FaultsPanelState {
    /// The parameters of the GPS section.
    pub fn gps_params(&self) -> (m: KeyMap<ArgValue>)
        ensures
            is_gps(m, *self),
    {
        let mut m: KeyMap<ArgValue> = KeyMap::new();
        proof {
            reveal_strlit("sigma_p");
            reveal_strlit("sigma_v");
            reveal_strlit("_e");
            reveal_strlit("sats_base");
            reveal_strlit("fix_override");
            reveal_strlit("cep_pvt_h");
            reveal_strlit("cep_pvt_v");
            reveal_strlit("cep_rtk_h");
            reveal_strlit("cep_rtk_v");
        }
        m.insert(owned("sigma_p"), ArgValue::Slider(self.gps_sigma_p));
        m.insert(owned("sigma_v"), ArgValue::Slider(self.gps_sigma_v));
        m.insert(owned("_e"), triple(self.gps_bias_n, self.gps_bias_e, self.gps_bias_d));
        m.insert(owned("sats_base"), ArgValue::Slider(self.gps_sats_base));
        m.insert(owned("fix_override"), ArgValue::Int(self.gps_fix_override as i64));
        m.insert(owned("cep_pvt_h"), ArgValue::Slider(self.gps_cep_pvt_h));
        m.insert(owned("cep_pvt_v"), ArgValue::Slider(self.gps_cep_pvt_v));
        m.insert(owned("cep_rtk_h"), ArgValue::Slider(self.gps_cep_rtk_h));
        m.insert(owned("cep_rtk_v"), ArgValue::Slider(self.gps_cep_rtk_v));
        proof {
            let (p, v, h, w) = ("cep_pvt_h"@, "cep_pvt_v"@, "cep_rtk_h"@, "cep_rtk_v"@);
            assert(p[8] != v[8] && h[8] != w[8] && p[4] != h[4] && p[4] != w[4] && v[4] != h[4] && v[4]
                != w[4]);
            assert("sigma_p"@[6] != "sigma_v"@[6]);
            assert("sats_base"@[0] != p[0]);
            assert(m@.dom() =~= set![
                "sigma_p"@,
                "sigma_v"@,
                "_e"@,
                "sats_base"@,
                "fix_override"@,
                "cep_pvt_h"@,
                "cep_pvt_v"@,
                "cep_rtk_h"@,
                "cep_rtk_v"@,
            ]);
        }
        m
    }

    /// The parameters of the IMU section.
    pub fn imu_params(&self) -> (m: KeyMap<ArgValue>)
        ensures
            is_imu(m, *self),
            m@["b_a"@] is Triple,
            m@["b_a"@]->Triple_0@ == seq![self.imu_b_a_x, self.imu_b_a_y, self.imu_b_a_z],
            m@["b_g"@] is Triple,
            m@["b_g"@]->Triple_0@ == seq![self.imu_b_g_x, self.imu_b_g_y, self.imu_b_g_z],
    {
        let mut m: KeyMap<ArgValue> = KeyMap::new();
        proof {
            reveal_strlit("b_a");
            reveal_strlit("b_g");
            reveal_strlit("sigma_a_n");
            reveal_strlit("sigma_g_n");
        }
        m.insert(owned("b_a"), triple(self.imu_b_a_x, self.imu_b_a_y, self.imu_b_a_z));
        m.insert(owned("b_g"), triple(self.imu_b_g_x, self.imu_b_g_y, self.imu_b_g_z));
        m.insert(owned("sigma_a_n"), ArgValue::Slider(self.imu_sigma_a_n));
        m.insert(owned("sigma_g_n"), ArgValue::Slider(self.imu_sigma_g_n));
        proof {
            assert("b_a"@.len() == 3 && "b_g"@.len() == 3 && "sigma_a_n"@.len() == 9
                && "sigma_g_n"@.len() == 9);
            assert("b_a"@[2] != "b_g"@[2]);
            assert("sigma_a_n"@[6] != "sigma_g_n"@[6]);
            assert(m@.dom() =~= set!["b_a"@, "b_g"@, "sigma_a_n"@, "sigma_g_n"@]);
        }
        m
    }

    /// The parameters of the magnetometer section.
    pub fn mag_params(&self) -> (m: KeyMap<ArgValue>)
        ensures
            is_mag(m, *self),
    {
        let mut m: KeyMap<ArgValue> = KeyMap::new();
        proof {
            reveal_strlit("hard_iron");
            reveal_strlit("sigma");
        }
        m.insert(owned("hard_iron"), triple(self.mag_hi_x, self.mag_hi_y, self.mag_hi_z));
        m.insert(owned("sigma"), triple(self.mag_sigma_x, self.mag_sigma_y, self.mag_sigma_z));
        proof {
            assert("hard_iron"@.len() != "sigma"@.len());
            assert(m@.dom() =~= set!["hard_iron"@, "sigma"@]);
        }
        m
    }

    /// The parameters of the barometer section.
    pub fn baro_params(&self) -> (m: KeyMap<ArgValue>)
        ensures
            is_baro(m, *self),
    {
        let mut m: KeyMap<ArgValue> = KeyMap::new();
        proof {
            reveal_strlit("bias_pa");
            reveal_strlit("sigma_pa");
        }
        m.insert(owned("bias_pa"), ArgValue::Slider(self.baro_bias_pa));
        m.insert(owned("sigma_pa"), ArgValue::Slider(self.baro_sigma_pa));
        proof {
            assert("bias_pa"@.len() != "sigma_pa"@.len());
            assert(m@.dom() =~= set!["bias_pa"@, "sigma_pa"@]);
        }
        m
    }
}

/// The sections of the panel.
#[derive(Clone, Copy, Debug, PartialEq, Eq, Structural)]
pub enum Section {
    Gps,
    Imu,
    Mag,
    Baro,
}

/// The name of a section.
pub open spec fn section_name(s: Section) -> Seq<char> {
    match s {
        Section::Gps => "gps"@,
        Section::Imu => "imu"@,
        Section::Mag => "mag"@,
        Section::Baro => "baro"@,
    }
}

/// The section that a slider's name belongs to: what stands before its first dot.
pub open spec fn section_of(target: Seq<char>) -> Option<Section> {
    let p = before(target, '.', '.');
    if p == "gps"@ {
        Some(Section::Gps)
    } else if p == "imu"@ {
        Some(Section::Imu)
    } else if p == "mag"@ {
        Some(Section::Mag)
    } else if p == "baro"@ {
        Some(Section::Baro)
    } else {
        None
    }
}

/// The state with a section's time of change set.
pub open spec fn with_dirty(s: FaultsPanelState, section: Section, t: Option<i64>) -> FaultsPanelState {
    match section {
        Section::Gps => FaultsPanelState { gps_dirty_since: t, ..s },
        Section::Imu => FaultsPanelState { imu_dirty_since: t, ..s },
        Section::Mag => FaultsPanelState { mag_dirty_since: t, ..s },
        Section::Baro => FaultsPanelState { baro_dirty_since: t, ..s },
    }
}

/// When a section was last changed.
pub open spec fn dirty_of(s: FaultsPanelState, section: Section) -> Option<i64> {
    match section {
        Section::Gps => s.gps_dirty_since,
        Section::Imu => s.imu_dirty_since,
        Section::Mag => s.mag_dirty_since,
        Section::Baro => s.baro_dirty_since,
    }
}

/// Is it time to send a section that was changed at `since`?
pub open spec fn due(since: Option<i64>, now: i64) -> bool {
    since is Some && now - since->0 >= DEBOUNCE_US
}

/// Are these the parameters of a section?
pub open spec fn is_params(m: KeyMap<ArgValue>, s: FaultsPanelState, section: Section) -> bool {
    match section {
        Section::Gps => is_gps(m, s),
        Section::Imu => is_imu(m, s),
        Section::Mag => is_mag(m, s),
        Section::Baro => is_baro(m, s),
    }
}

/// Is it the command that sends a section?
pub open spec fn is_set_command(c: PendingCommand, s: FaultsPanelState, section: Section) -> bool {
    &&& c.feature@ == section_name(section)
    &&& c.drone@ == s.drone@
    &&& is_params(c.args, s, section)
    &&& !c.reset
    &&& c.label@ == "set_"@ + section_name(section)
}

/// Is `next` the panel after all sections were sent that were due, and `after` what
/// was to be sent with their commands behind it, in the order GPS, IMU, magnetometer,
/// barometer?
pub open spec fn flushed(
    s: FaultsPanelState,
    next: FaultsPanelState,
    now: i64,
    before: Seq<PendingCommand>,
    after: Seq<PendingCommand>,
) -> bool {
    let g: int = if due(s.gps_dirty_since, now) { 1 } else { 0 };
    let i: int = if due(s.imu_dirty_since, now) { 1 } else { 0 };
    let m: int = if due(s.mag_dirty_since, now) { 1 } else { 0 };
    let b: int = if due(s.baro_dirty_since, now) { 1 } else { 0 };
    let n = before.len() as int;
    &&& after.len() == n + g + i + m + b
    &&& after.take(n) == before
    &&& g == 1 ==> is_set_command(after[n], s, Section::Gps)
    &&& i == 1 ==> is_set_command(after[n + g], s, Section::Imu)
    &&& m == 1 ==> is_set_command(after[n + g + i], s, Section::Mag)
    &&& b == 1 ==> is_set_command(after[n + g + i + m], s, Section::Baro)
    &&& next == (FaultsPanelState {
        gps_dirty_since: if g == 1 { None } else { s.gps_dirty_since },
        imu_dirty_since: if i == 1 { None } else { s.imu_dirty_since },
        mag_dirty_since: if m == 1 { None } else { s.mag_dirty_since },
        baro_dirty_since: if b == 1 { None } else { s.baro_dirty_since },
        ..s
    })
}

/// A change is sent once: after the sections that were due have been sent, none is due
/// at the same time or before.
pub proof fn changes_are_sent_once(
    s: FaultsPanelState,
    next: FaultsPanelState,
    again: FaultsPanelState,
    now: i64,
    at: i64,
    a: Seq<PendingCommand>,
    b: Seq<PendingCommand>,
    c: Seq<PendingCommand>,
)
    requires
        flushed(s, next, now, a, b),
        flushed(next, again, at, b, c),
        at <= now,
    ensures
        c == b,
        again == next,
{
    assert(c.take(b.len() as int) =~= c);
}

/// A change is sent in the end: a section that was changed is due once it has rested.
pub proof fn changes_are_sent_in_the_end(
    s: FaultsPanelState,
    next: FaultsPanelState,
    section: Section,
    now: i64,
    a: Seq<PendingCommand>,
    b: Seq<PendingCommand>,
)
    requires
        flushed(s, next, now, a, b),
        dirty_of(s, section) is Some,
        now - dirty_of(s, section)->0 >= DEBOUNCE_US,
    ensures
        dirty_of(next, section) is None,
        exists|k: int| a.len() <= k < b.len() && is_set_command(#[trigger] b[k], s, section),
{
    let g: int = if due(s.gps_dirty_since, now) { 1 } else { 0 };
    let i: int = if due(s.imu_dirty_since, now) { 1 } else { 0 };
    let m: int = if due(s.mag_dirty_since, now) { 1 } else { 0 };
    let n = a.len() as int;
    match section {
        Section::Gps => assert(is_set_command(b[n], s, section)),
        Section::Imu => assert(is_set_command(b[n + g], s, section)),
        Section::Mag => assert(is_set_command(b[n + g + i], s, section)),
        Section::Baro => assert(is_set_command(b[n + g + i + m], s, section)),
    }
}

impl FaultsPanelState {
    /// Note that a slider of a section was moved at `now`.
    pub fn touch(&mut self, section: Section, now: i64)
        ensures
            *final(self) == with_dirty(*old(self), section, Some(now)),
    {
        match section {
            Section::Gps => {
                self.gps_dirty_since = Some(now);
            },
            Section::Imu => {
                self.imu_dirty_since = Some(now);
            },
            Section::Mag => {
                self.mag_dirty_since = Some(now);
            },
            Section::Baro => {
                self.baro_dirty_since = Some(now);
            },
        }
    }

    /// Note that a slider was moved from outside the panel: its section is due at
    /// once. A name of no section changes nothing.
    pub fn mark_external_change(&mut self, target: &str)
        ensures
            *final(self) == match section_of(target@) {
                Some(s) => with_dirty(*old(self), s, Some(i64::MIN)),
                None => *old(self),
            },
    {
        let p = prefix_before(target, '.', '.');
        if same_text(p, "gps") {
            self.touch(Section::Gps, i64::MIN);
        } else if same_text(p, "imu") {
            self.touch(Section::Imu, i64::MIN);
        } else if same_text(p, "mag") {
            self.touch(Section::Mag, i64::MIN);
        } else if same_text(p, "baro") {
            self.touch(Section::Baro, i64::MIN);
        }
    }

    /// Send a section, if it was changed and has rested long enough.
    pub fn flush_if_due(&mut self, section: Section, now: i64, out: &mut Vec<PendingCommand>)
        ensures
            due(dirty_of(*old(self), section), now) ==> {
                &&& *final(self) == with_dirty(*old(self), section, None)
                &&& final(out).len() == old(out).len() + 1
                &&& final(out)@ == old(out)@.push(final(out)@.last())
                &&& is_set_command(final(out)@.last(), *old(self), section)
            },
            !due(dirty_of(*old(self), section), now) ==> *final(self) == *old(self) && final(out)@
                == old(out)@,
    {
        let since: Option<i64> = match section {
            Section::Gps => self.gps_dirty_since,
            Section::Imu => self.imu_dirty_since,
            Section::Mag => self.mag_dirty_since,
            Section::Baro => self.baro_dirty_since,
        };
        match since {
            Some(t) => {
                let rested: i128 = (now as i128) - (t as i128);
                if rested >= DEBOUNCE_US as i128 {
                    let (name, args) = match section {
                        Section::Gps => ("gps", self.gps_params()),
                        Section::Imu => ("imu", self.imu_params()),
                        Section::Mag => ("mag", self.mag_params()),
                        Section::Baro => ("baro", self.baro_params()),
                    };
                    let cmd = PendingCommand {
                        feature: owned(name),
                        drone: self.drone.clone(),
                        args,
                        reset: false,
                        label: cat2("set_", name),
                    };
                    out.push(cmd);
                    match section {
                        Section::Gps => {
                            self.gps_dirty_since = None;
                        },
                        Section::Imu => {
                            self.imu_dirty_since = None;
                        },
                        Section::Mag => {
                            self.mag_dirty_since = None;
                        },
                        Section::Baro => {
                            self.baro_dirty_since = None;
                        },
                    }
                }
            },
            None => {},
        }
    }

    /// Send every section that was changed and has rested long enough: GPS, IMU,
    /// magnetometer, barometer, in this order.
    pub fn flush(&mut self, now: i64, out: &mut Vec<PendingCommand>)
        ensures
            flushed(*old(self), *final(self), now, old(out)@, final(out)@),
    {
        let ghost n = out.len() as int;
        let ghost o0 = out@;
        self.flush_if_due(Section::Gps, now, out);
        self.flush_if_due(Section::Imu, now, out);
        self.flush_if_due(Section::Mag, now, out);
        self.flush_if_due(Section::Baro, now, out);
        proof {
            assert(out@.take(n) =~= o0);
        }
    }
}

// ---------------------------------------------------------------- one-shot commands

/// Is it a fault that holds one sensor parameter?
pub open spec fn is_fault(
    c: PendingCommand,
    drone: Seq<char>,
    target: Seq<char>,
    param: Seq<char>,
    profile: Seq<char>,
    mode: Seq<char>,
    duration: u64,
    block: Seq<char>,
    value: u64,
    axis: Option<i64>,
    label: Seq<char>,
) -> bool {
    &&& c.feature@ == "fault"@
    &&& c.drone@ == drone
    &&& !c.reset
    &&& c.label@ == label
    &&& c.args.wf()
    &&& c.args@.dom() == if axis is Some {
        set!["target"@, "param"@, "profile"@, "mode"@, "t_duration"@, "params"@, "axis"@]
    } else {
        set!["target"@, "param"@, "profile"@, "mode"@, "t_duration"@, "params"@]
    }
    &&& has_text(c.args, "target"@, target)
    &&& has_text(c.args, "param"@, param)
    &&& has_text(c.args, "profile"@, profile)
    &&& has_text(c.args, "mode"@, mode)
    &&& c.args@["t_duration"@] == ArgValue::Number(Num { bits: duration })
    &&& match c.args@["params"@] {
        ArgValue::Block { name, value: v } => name@ == block && v.bits == value,
        _ => false,
    }
    &&& axis is Some ==> c.args@["axis"@] == ArgValue::Int(axis->0)
}

/// The words of the numbers that faults carry.
pub const WIDE_10: u64 = 0x4024_0000_0000_0000;

pub const WIDE_5: u64 = 0x4014_0000_0000_0000;

pub const WIDE_1000: u64 = 0x408F_4000_0000_0000;

fn fault(
    drone: &str,
    target: &str,
    param: &str,
    profile: &str,
    mode: &str,
    duration: u64,
    block: &str,
    value: u64,
    axis: Option<i64>,
    label: &str,
) -> (c: PendingCommand)
    ensures
        is_fault(
            c,
            drone@,
            target@,
            param@,
            profile@,
            mode@,
            duration,
            block@,
            value,
            axis,
            label@,
        ),
{
    let mut args: KeyMap<ArgValue> = KeyMap::new();
    proof {
        reveal_strlit("target");
        reveal_strlit("param");
        reveal_strlit("profile");
        reveal_strlit("mode");
        reveal_strlit("t_duration");
        reveal_strlit("params");
        reveal_strlit("axis");
        assert("target"@.len() == 6 && "param"@.len() == 5 && "profile"@.len() == 7 && "mode"@.len()
            == 4 && "t_duration"@.len() == 10 && "params"@.len() == 6 && "axis"@.len() == 4);
        assert("target"@[0] != "params"@[0]);
        assert("mode"@[0] != "axis"@[0]);
    }
    args.insert(owned("target"), ArgValue::Text(owned(target)));
    args.insert(owned("param"), ArgValue::Text(owned(param)));
    args.insert(owned("profile"), ArgValue::Text(owned(profile)));
    args.insert(owned("mode"), ArgValue::Text(owned(mode)));
    args.insert(owned("t_duration"), ArgValue::Number(Num { bits: duration }));
    args.insert(
        owned("params"),
        ArgValue::Block { name: owned(block), value: Num { bits: value } },
    );
    match axis {
        Some(a) => {
            args.insert(owned("axis"), ArgValue::Int(a));
        },
        None => {},
    }
    proof {
        if axis is Some {
            assert(args@.dom() =~= set![
                "target"@,
                "param"@,
                "profile"@,
                "mode"@,
                "t_duration"@,
                "params"@,
                "axis"@,
            ]);
        } else {
            assert(args@.dom() =~= set![
                "target"@,
                "param"@,
                "profile"@,
                "mode"@,
                "t_duration"@,
                "params"@,
            ]);
        }
    }
    PendingCommand {
        feature: owned("fault"),
        drone: owned(drone),
        args,
        reset: false,
        label: owned(label),
    }
}

/// Is `c` the command that takes all satellites away for ten seconds?
pub open spec fn is_gps_dropout(c: PendingCommand, drone: Seq<char>) -> bool {
    is_fault(
        c,
        drone,
        "gps"@,
        "sats_base"@,
        "dropout"@,
        "set"@,
        WIDE_10,
        "value"@,
        0,
        None,
        "gps_dropout"@,
    )
}

/// No satellites for ten seconds.
pub fn gps_dropout_cmd(drone: &str) -> (c: PendingCommand)
    ensures
        is_gps_dropout(c, drone@),
{
    fault(drone, "gps", "sats_base", "dropout", "set", WIDE_10, "value", 0, None, "gps_dropout")
}

/// Is `c` the command that freezes the accelerometer noise for ten seconds?
pub open spec fn is_imu_freeze(c: PendingCommand, drone: Seq<char>) -> bool {
    is_fault(
        c,
        drone,
        "imu"@,
        "sigma_a_n"@,
        "dropout"@,
        "set"@,
        WIDE_10,
        "value"@,
        0,
        None,
        "imu_freeze"@,
    )
}

/// No accelerometer noise for ten seconds.
pub fn imu_freeze_cmd(drone: &str) -> (c: PendingCommand)
    ensures
        is_imu_freeze(c, drone@),
{
    fault(drone, "imu", "sigma_a_n", "dropout", "set", WIDE_10, "value", 0, None, "imu_freeze")
}

/// Is `c` the command that adds a step to the magnetometer for five seconds?
pub open spec fn is_mag_spike(c: PendingCommand, drone: Seq<char>) -> bool {
    is_fault(
        c,
        drone,
        "mag"@,
        "hard_iron"@,
        "step"@,
        "add"@,
        WIDE_5,
        "amp"@,
        WIDE_1000,
        Some(0i64),
        "mag_spike"@,
    )
}

/// A step of a thousand on the first magnetometer axis for five seconds.
pub fn mag_spike_cmd(drone: &str) -> (c: PendingCommand)
    ensures
        is_mag_spike(c, drone@),
{
    fault(
        drone,
        "mag",
        "hard_iron",
        "step",
        "add",
        WIDE_5,
        "amp",
        WIDE_1000,
        Some(0),
        "mag_spike",
    )
}

/// Is it the command that puts a section back?
pub open spec fn is_reset(c: PendingCommand, feature: Seq<char>, drone: Seq<char>) -> bool {
    &&& c.feature@ == feature
    &&& c.drone@ == drone
    &&& c.args.wf()
    &&& c.args@ == Map::<Seq<char>, ArgValue>::empty()
    &&& c.reset
    &&& c.label@ == "reset_"@ + feature
}

/// The command that puts a section back to what it started with.
pub fn reset_cmd(feature: &str, drone: &str) -> (c: PendingCommand)
    ensures
        is_reset(c, feature@, drone@),
{
    PendingCommand {
        feature: owned(feature),
        drone: owned(drone),
        args: KeyMap::new(),
        reset: true,
        label: cat2("reset_", feature),
    }
}

/// The sliders of a section at their start, and all others as they are.
pub open spec fn at_rest(s: FaultsPanelState, section: Section) -> FaultsPanelState {
    match section {
        Section::Gps => gps_at_rest(s),
        Section::Imu => imu_at_rest(s),
        Section::Mag => mag_at_rest(s),
        Section::Baro => baro_at_rest(s),
    }
}

impl FaultsPanelState {
    /// Put the sliders of a section back. What was changed in it is not sent any
    /// more; the command puts the simulation back too.
    pub fn reset_section(&mut self, section: Section) -> (c: PendingCommand)
        ensures
            *final(self) == at_rest(*old(self), section),
            is_reset(c, section_name(section), old(self).drone@),
    {
        match section {
            Section::Gps => {
                self.gps_sigma_p = none();
                self.gps_sigma_v = none();
                self.gps_bias_n = none();
                self.gps_bias_e = none();
                self.gps_bias_d = none();
                self.gps_sats_base = Num32 { bits: W_32 };
                self.gps_fix_override = -1;
                self.gps_cep_pvt_h = Num32 { bits: W_1_5 };
                self.gps_cep_pvt_v = Num32 { bits: W_2 };
                self.gps_cep_rtk_h = Num32 { bits: W_0_01 };
                self.gps_cep_rtk_v = Num32 { bits: W_0_02 };
                self.gps_dirty_since = None;
                reset_cmd("gps", self.drone.as_str())
            },
            Section::Imu => {
                self.imu_b_a_x = none();
                self.imu_b_a_y = none();
                self.imu_b_a_z = none();
                self.imu_b_g_x = none();
                self.imu_b_g_y = none();
                self.imu_b_g_z = none();
                self.imu_sigma_a_n = none();
                self.imu_sigma_g_n = none();
                self.imu_dirty_since = None;
                reset_cmd("imu", self.drone.as_str())
            },
            Section::Mag => {
                self.mag_hi_x = none();
                self.mag_hi_y = none();
                self.mag_hi_z = none();
                self.mag_sigma_x = none();
                self.mag_sigma_y = none();
                self.mag_sigma_z = none();
                self.mag_dirty_since = None;
                reset_cmd("mag", self.drone.as_str())
            },
            Section::Baro => {
                self.baro_bias_pa = none();
                self.baro_sigma_pa = none();
                self.baro_dirty_since = None;
                reset_cmd("baro", self.drone.as_str())
            },
        }
    }
}

/// The words for a forced GPS fix.
pub open spec fn fix_words(v: int) -> Seq<char> {
    if v == -1 {
        "auto"@
    } else if v == 0 || v == 1 {
        "no fix"@
    } else if v == 2 {
        "2D fix"@
    } else if v == 3 {
        "3D fix"@
    } else if v == 4 {
        "DGPS"@
    } else if v == 5 {
        "RTK Float"@
    } else if v == 6 {
        "RTK Fixed"@
    } else {
        "?"@
    }
}

/// The words for a forced GPS fix.
pub fn fix_override_label(v: i32) -> (r: &'static str)
    ensures
        r@ == fix_words(v as int),
{
    if v == -1 {
        "auto"
    } else if v == 0 || v == 1 {
        "no fix"
    } else if v == 2 {
        "2D fix"
    } else if v == 3 {
        "3D fix"
    } else if v == 4 {
        "DGPS"
    } else if v == 5 {
        "RTK Float"
    } else if v == 6 {
        "RTK Fixed"
    } else {
        "?"
    }
}

} // verus!
