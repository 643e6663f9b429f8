//! Signal generators that drive the sliders of the faults panel: their life cycle,
//! their random numbers, and the sliders that they can drive. The waveforms are
//! left to the caller, which gets the time and the random draws.
use vstd::prelude::*;
use vstd::string::*;

use crate::faults::{section_of, with_dirty, FaultsPanelState};
use crate::num::{Num, Num32};
use crate::text::{owned, same_text};

verus! {

/// The shapes of a signal.
#[derive(Clone, Copy, Debug, PartialEq, Eq, Hash, Structural)]
pub enum Waveform {
    Sine,
    Square,
    Sawtooth,
    /// Steps of chance, kept within five amplitudes.
    RandomWalk,
    /// Independent chance.
    WhiteNoise,
}

/// The name of a shape.
pub open spec fn wave_name(w: Waveform) -> Seq<char> {
    match w {
        Waveform::Sine => "Sine"@,
        Waveform::Square => "Square"@,
        Waveform::Sawtooth => "Sawtooth"@,
        Waveform::RandomWalk => "Random walk"@,
        Waveform::WhiteNoise => "White noise"@,
    }
}

impl Waveform {
    /// The name of the shape.
    pub fn label(self) -> (r: &'static str)
        ensures
            r@ == wave_name(self),
    {
        match self {
            Waveform::Sine => "Sine",
            Waveform::Square => "Square",
            Waveform::Sawtooth => "Sawtooth",
            Waveform::RandomWalk => "Random walk",
            Waveform::WhiteNoise => "White noise",
        }
    }

    /// All shapes.
    pub fn all() -> (r: [Waveform; 5])
        ensures
            r@ == seq![
                Waveform::Sine,
                Waveform::Square,
                Waveform::Sawtooth,
                Waveform::RandomWalk,
                Waveform::WhiteNoise,
            ],
    {
        let r = [
            Waveform::Sine,
            Waveform::Square,
            Waveform::Sawtooth,
            Waveform::RandomWalk,
            Waveform::WhiteNoise,
        ];
        proof {
            assert(r@ =~= seq![
                Waveform::Sine,
                Waveform::Square,
                Waveform::Sawtooth,
                Waveform::RandomWalk,
                Waveform::WhiteNoise,
            ]);
        }
        r
    }
}

/// Every shape is among those listed, and no two have the same name.
pub proof fn names_tell_the_shapes_apart(a: Waveform, b: Waveform)
    ensures
        wave_name(a) == wave_name(b) ==> a == b,
{
    reveal_strlit("Sine");
    reveal_strlit("Square");
    reveal_strlit("Sawtooth");
    reveal_strlit("Random walk");
    reveal_strlit("White noise");
    assert(wave_name(Waveform::Sine).len() == 4);
    assert(wave_name(Waveform::Square).len() == 6);
    assert(wave_name(Waveform::Sawtooth).len() == 8);
    assert(wave_name(Waveform::RandomWalk)[0] != wave_name(Waveform::WhiteNoise)[0]);
    assert(wave_name(Waveform::RandomWalk).len() == 11);
    assert(wave_name(Waveform::WhiteNoise).len() == 11);
}

// ---------------------------------------------------------------- random numbers

/// The hash of bytes: 64-bit FNV-1a.
pub open spec fn fnv(bytes: Seq<u8>) -> u64
    decreases bytes.len(),
{
    if bytes.len() == 0 {
        0xcbf2_9ce4_8422_2325
    } else {
        (((fnv(bytes.drop_last()) ^ (bytes.last() as u64)) * 0x100_0000_01b3) % 0x1_0000_0000_0000_0000)
            as u64
    }
}

/// A seed from a name: its hash, made odd so that it is not zero.
pub fn hash_seed(s: &str) -> (r: u64)
    ensures
        r == fnv(s.spec_bytes()) | 1,
        r != 0,
{
    let b = s.as_bytes();
    let mut h: u64 = 0xcbf2_9ce4_8422_2325;
    let mut i: usize = 0;
    while i < b.len()
        invariant
            i <= b.len(),
            h == fnv(b@.take(i as int)),
        decreases b.len() - i,
    {
        proof {
            assert(b@.take(i + 1).drop_last() =~= b@.take(i as int));
        }
        let x: u64 = h ^ (b[i] as u64);
        h = x.wrapping_mul(0x100_0000_01b3);
        i = i + 1;
    }
    proof {
        assert(b@.take(b.len() as int) =~= b@);
        assert(h | 1 != 0) by (bit_vector);
    }
    h | 1
}

/// The next state of the random number generator: xorshift.
pub open spec fn shifted(x: u64) -> u64 {
    let a = x ^ (x >> 12);
    let b = a ^ (a << 25);
    b ^ (b >> 27)
}

/// A state that is not zero never leads to zero.
pub proof fn shifting_never_ends(x: u64)
    requires
        x != 0,
    ensures
        shifted(x) != 0,
{
    let a = x ^ (x >> 12);
    assert(x != 0 ==> (x ^ (x >> 12)) != 0) by (bit_vector);
    let b = a ^ (a << 25);
    assert(a != 0 ==> (a ^ (a << 25)) != 0) by (bit_vector);
    assert(b != 0 ==> (b ^ (b >> 27)) != 0) by (bit_vector);
}

/// The 53 bits that a state yields: they stand for a number from 0 up to 1, in
/// units of two to the power -53.
pub open spec fn yielded(x: u64) -> u64 {
    (((x * 0x2545_F491_4F6C_DD1D) % 0x1_0000_0000_0000_0000) as u64) >> 11
}

// ---------------------------------------------------------------- generators

/// One generator.
#[derive(Clone, Debug)]
pub struct Generator {
    /// The slider that it drives.
    pub target: String,
    pub waveform: Waveform,
    pub amplitude: Num,
    pub period_s: Num,
    pub centre: Num,
    /// When it was started, in milliseconds; none before that.
    pub t_start_ms: Option<u64>,
    /// Where the random walk has got to.
    pub random_walk_state: Num,
    pub running: bool,
    pub rng_state: u64,
    pub last_value: Option<Num>,
}

/// What a tick has to be computed from.
#[derive(Clone, Copy, Debug, PartialEq, Eq)]
pub struct Tick {
    pub waveform: Waveform,
    /// Milliseconds since the start.
    pub elapsed_ms: u64,
    /// Two random draws of 53 bits, for the shapes of chance.
    pub draws: Option<(u64, u64)>,
}

/// Does a shape take random draws?
pub open spec fn by_chance(w: Waveform) -> bool {
    w == Waveform::RandomWalk || w == Waveform::WhiteNoise
}

/// Is it a generator that has not been started: a sine of amplitude 0.1 and two
/// seconds' period around zero, with random numbers of its slider's own?
pub open spec fn unstarted(g: Generator, target: &str) -> bool {
    &&& g.target@ == target@
    &&& g.waveform == Waveform::Sine
    &&& g.amplitude.bits == 0x3FB9_9999_9999_999A
    &&& g.period_s.bits == 0x4000_0000_0000_0000
    &&& g.centre.bits == 0
    &&& g.t_start_ms is None
    &&& g.random_walk_state.bits == 0
    &&& !g.running
    &&& g.rng_state == fnv(target.spec_bytes()) | 1
    &&& g.last_value is None
}

/// Is `next` the generator `g` after a tick at `now`, and `r` what the tick yields?
pub open spec fn ticked(g: Generator, next: Generator, now: u64, r: Option<Tick>) -> bool {
    &&& !g.running ==> r is None && next == g
    &&& g.running ==> {
        let start = match g.t_start_ms {
            Some(t) => t,
            None => now,
        };
        let x1 = shifted(g.rng_state);
        let x2 = shifted(x1);
        let chance = by_chance(g.waveform);
        &&& r is Some
        &&& r->0.waveform == g.waveform
        &&& r->0.elapsed_ms == if now >= start { now - start } else { 0 }
        &&& r->0.draws == if chance {
            Some((yielded(x1), yielded(x2)))
        } else {
            None
        }
        &&& next == (Generator {
            t_start_ms: Some(start),
            rng_state: if chance {
                x2
            } else {
                g.rng_state
            },
            ..g
        })
    }
}

/// The button that a generator offers.
pub open spec fn offered(g: Generator) -> GenButton {
    if g.running {
        GenButton::Pause
    } else if g.t_start_ms is Some {
        GenButton::Resume
    } else {
        GenButton::Start
    }
}

/// A generator after its button was pressed at `now`.
pub open spec fn pressed(g: Generator, now: u64) -> Generator {
    if g.running {
        Generator { running: false, ..g }
    } else if g.t_start_ms is Some {
        Generator { running: true, ..g }
    } else {
        Generator {
            t_start_ms: Some(now),
            random_walk_state: (Num { bits: 0 }),
            running: true,
            ..g
        }
    }
}

impl Generator {
    /// The random state is not zero.
    pub open spec fn wf(self) -> bool {
        self.rng_state != 0
    }

    /// A generator that has not been started: a sine of amplitude 0.1 and two
    /// seconds' period around zero.
    pub fn new(target: &str) -> (r: Generator)
        ensures
            r.wf(),
            unstarted(r, target),
    {
        Generator {
            target: owned(target),
            waveform: Waveform::Sine,
            amplitude: Num { bits: 0x3FB9_9999_9999_999A },
            period_s: Num { bits: 0x4000_0000_0000_0000 },
            centre: Num { bits: 0 },
            t_start_ms: None,
            random_walk_state: Num { bits: 0 },
            running: false,
            rng_state: hash_seed(target),
            last_value: None,
        }
    }

    /// Start, or start again from `now_ms`.
    pub fn start(&mut self, now_ms: u64)
        ensures
            *final(self) == (Generator {
                t_start_ms: Some(now_ms),
                random_walk_state: (Num { bits: 0 }),
                running: true,
                ..*old(self)
            }),
    {
        self.t_start_ms = Some(now_ms);
        self.random_walk_state = Num { bits: 0 };
        self.running = true;
    }

    /// Pause; the start stays, so that the phase goes on as if there had been none.
    pub fn pause(&mut self)
        ensures
            *final(self) == (Generator { running: false, ..*old(self) }),
    {
        self.running = false;
    }

    /// One random draw of 53 bits.
    fn next_uniform(&mut self) -> (r: u64)
        requires
            old(self).wf(),
        ensures
            final(self).wf(),
            *final(self) == (Generator { rng_state: shifted(old(self).rng_state), ..*old(self) }),
            r == yielded(shifted(old(self).rng_state)),
            r < 0x20_0000_0000_0000,
    {
        let mut x: u64 = self.rng_state;
        proof {
            shifting_never_ends(x);
        }
        x = x ^ (x >> 12);
        x = x ^ (x << 25);
        x = x ^ (x >> 27);
        self.rng_state = x;
        let mixed: u64 = x.wrapping_mul(0x2545_F491_4F6C_DD1D);
        proof {
            assert((mixed >> 11) < 0x20_0000_0000_0000) by (bit_vector);
        }
        mixed >> 11
    }

    /// What the value at `now_ms` has to be computed from; none while the generator
    /// does not run. A generator that runs without a start starts now.
    pub fn tick(&mut self, now_ms: u64) -> (r: Option<Tick>)
        requires
            old(self).wf(),
        ensures
            final(self).wf(),
            ticked(*old(self), *final(self), now_ms, r),
    {
        if !self.running {
            return None;
        }
        let start: u64 = match self.t_start_ms {
            Some(t) => t,
            None => now_ms,
        };
        self.t_start_ms = Some(start);
        let elapsed_ms: u64 = if now_ms >= start {
            now_ms - start
        } else {
            0
        };
        let chance = match self.waveform {
            Waveform::RandomWalk => true,
            Waveform::WhiteNoise => true,
            _ => false,
        };
        let draws: Option<(u64, u64)> = if chance {
            let a: u64 = self.next_uniform();
            let b: u64 = self.next_uniform();
            Some((a, b))
        } else {
            None
        };
        Some(Tick { waveform: self.waveform, elapsed_ms, draws })
    }

    /// What the button of a generator's row does.
    pub fn button(&self) -> (r: GenButton)
        ensures
            r == offered(*self),
    {
        if self.running {
            GenButton::Pause
        } else if self.t_start_ms.is_some() {
            GenButton::Resume
        } else {
            GenButton::Start
        }
    }

    /// Press the button: pause, go on where it was, or start.
    pub fn press(&mut self, now_ms: u64)
        ensures
            *final(self) == pressed(*old(self), now_ms),
    {
        if self.running {
            self.pause();
        } else if self.t_start_ms.is_none() {
            self.start(now_ms);
        } else {
            self.running = true;
        }
    }
}

/// What the button of a generator's row does.
#[derive(Clone, Copy, Debug, PartialEq, Eq, Structural)]
pub enum GenButton {
    Pause,
    Resume,
    Start,
}

/// Pausing and going on changes nothing but the running: phase and chance stay.
pub proof fn pause_and_resume_keep_the_phase(g: Generator, paused: Generator, resumed: Generator)
    requires
        g.running,
        g.t_start_ms is Some,
        paused == (Generator { running: false, ..g }),
        resumed == (Generator { running: true, ..paused }),
    ensures
        resumed == g,
{
}

// ---------------------------------------------------------------- sliders

/// The sliders that a generator can drive.
pub const SLIDER_TARGETS: [&'static str; 21] = [
    "gps.sigma_p",
    "gps.sigma_v",
    "gps.bias_n",
    "gps.bias_e",
    "gps.bias_d",
    "imu.b_a.x",
    "imu.b_a.y",
    "imu.b_a.z",
    "imu.b_g.x",
    "imu.b_g.y",
    "imu.b_g.z",
    "imu.sigma_a_n",
    "imu.sigma_g_n",
    "mag.hi.x",
    "mag.hi.y",
    "mag.hi.z",
    "mag.sigma.x",
    "mag.sigma.y",
    "mag.sigma.z",
    "baro.bias_pa",
    "baro.sigma_pa",
];

/// The state with one slider set; a name of no slider changes nothing.
pub open spec fn with_slider(s: FaultsPanelState, t: Seq<char>, v: Num32) -> FaultsPanelState {
    if t == "gps.sigma_p"@ {
        FaultsPanelState { gps_sigma_p: v, ..s }
    } else if t == "gps.sigma_v"@ {
        FaultsPanelState { gps_sigma_v: v, ..s }
    } else if t == "gps.bias_n"@ {
        FaultsPanelState { gps_bias_n: v, ..s }
    } else if t == "gps.bias_e"@ {
        FaultsPanelState { gps_bias_e: v, ..s }
    } else if t == "gps.bias_d"@ {
        FaultsPanelState { gps_bias_d: v, ..s }
    } else if t == "imu.b_a.x"@ {
        FaultsPanelState { imu_b_a_x: v, ..s }
    } else if t == "imu.b_a.y"@ {
        FaultsPanelState { imu_b_a_y: v, ..s }
    } else if t == "imu.b_a.z"@ {
        FaultsPanelState { imu_b_a_z: v, ..s }
    } else if t == "imu.b_g.x"@ {
        FaultsPanelState { imu_b_g_x: v, ..s }
    } else if t == "imu.b_g.y"@ {
        FaultsPanelState { imu_b_g_y: v, ..s }
    } else if t == "imu.b_g.z"@ {
        FaultsPanelState { imu_b_g_z: v, ..s }
    } else if t == "imu.sigma_a_n"@ {
        FaultsPanelState { imu_sigma_a_n: v, ..s }
    } else if t == "imu.sigma_g_n"@ {
        FaultsPanelState { imu_sigma_g_n: v, ..s }
    } else if t == "mag.hi.x"@ {
        FaultsPanelState { mag_hi_x: v, ..s }
    } else if t == "mag.hi.y"@ {
        FaultsPanelState { mag_hi_y: v, ..s }
    } else if t == "mag.hi.z"@ {
        FaultsPanelState { mag_hi_z: v, ..s }
    } else if t == "mag.sigma.x"@ {
        FaultsPanelState { mag_sigma_x: v, ..s }
    } else if t == "mag.sigma.y"@ {
        FaultsPanelState { mag_sigma_y: v, ..s }
    } else if t == "mag.sigma.z"@ {
        FaultsPanelState { mag_sigma_z: v, ..s }
    } else if t == "baro.bias_pa"@ {
        FaultsPanelState { baro_bias_pa: v, ..s }
    } else if t == "baro.sigma_pa"@ {
        FaultsPanelState { baro_sigma_pa: v, ..s }
    } else {
        s
    }
}

/// The number of a slider; none for a name of no slider.
pub open spec fn slider(s: FaultsPanelState, t: Seq<char>) -> Option<Num32> {
    if t == "gps.sigma_p"@ {
        Some(s.gps_sigma_p)
    } else if t == "gps.sigma_v"@ {
        Some(s.gps_sigma_v)
    } else if t == "gps.bias_n"@ {
        Some(s.gps_bias_n)
    } else if t == "gps.bias_e"@ {
        Some(s.gps_bias_e)
    } else if t == "gps.bias_d"@ {
        Some(s.gps_bias_d)
    } else if t == "imu.b_a.x"@ {
        Some(s.imu_b_a_x)
    } else if t == "imu.b_a.y"@ {
        Some(s.imu_b_a_y)
    } else if t == "imu.b_a.z"@ {
        Some(s.imu_b_a_z)
    } else if t == "imu.b_g.x"@ {
        Some(s.imu_b_g_x)
    } else if t == "imu.b_g.y"@ {
        Some(s.imu_b_g_y)
    } else if t == "imu.b_g.z"@ {
        Some(s.imu_b_g_z)
    } else if t == "imu.sigma_a_n"@ {
        Some(s.imu_sigma_a_n)
    } else if t == "imu.sigma_g_n"@ {
        Some(s.imu_sigma_g_n)
    } else if t == "mag.hi.x"@ {
        Some(s.mag_hi_x)
    } else if t == "mag.hi.y"@ {
        Some(s.mag_hi_y)
    } else if t == "mag.hi.z"@ {
        Some(s.mag_hi_z)
    } else if t == "mag.sigma.x"@ {
        Some(s.mag_sigma_x)
    } else if t == "mag.sigma.y"@ {
        Some(s.mag_sigma_y)
    } else if t == "mag.sigma.z"@ {
        Some(s.mag_sigma_z)
    } else if t == "baro.bias_pa"@ {
        Some(s.baro_bias_pa)
    } else if t == "baro.sigma_pa"@ {
        Some(s.baro_sigma_pa)
    } else {
        None
    }
}

/// Every slider on offer can be driven: what is written to it is what it then holds.
pub proof fn offered_sliders_can_be_driven(s: FaultsPanelState, i: int, v: Num32)
    requires
        0 <= i < 21,
    ensures
        slider(with_slider(s, SLIDER_TARGETS@[i]@, v), SLIDER_TARGETS@[i]@) == Some(v),
{
    let t = SLIDER_TARGETS@[i]@;
    assert(slider(s, t) is Some);
}

/// Driving one slider leaves all others as they are.
pub proof fn driving_leaves_other_sliders(s: FaultsPanelState, t: Seq<char>, u: Seq<char>, v: Num32)
    requires
        t != u,
    ensures
        slider(with_slider(s, t, v), u) == slider(s, u),
{
}

/// The state after a slider was driven: the slider is set, and its section is due.
pub open spec fn driven(s: FaultsPanelState, t: Seq<char>, v: Num32) -> FaultsPanelState {
    match section_of(t) {
        Some(sec) => with_dirty(with_slider(s, t, v), sec, Some(i64::MIN)),
        None => with_slider(s, t, v),
    }
}

/// Set a slider by name and make its section due. A name of no slider sets none.
pub fn apply_to_faults(target: &str, value: Num32, s: &mut FaultsPanelState)
    ensures
        *final(s) == driven(*old(s), target@, value),
{
    if same_text(target, "gps.sigma_p") {
        s.gps_sigma_p = value;
    } else if same_text(target, "gps.sigma_v") {
        s.gps_sigma_v = value;
    } else if same_text(target, "gps.bias_n") {
        s.gps_bias_n = value;
    } else if same_text(target, "gps.bias_e") {
        s.gps_bias_e = value;
    } else if same_text(target, "gps.bias_d") {
        s.gps_bias_d = value;
    } else if same_text(target, "imu.b_a.x") {
        s.imu_b_a_x = value;
    } else if same_text(target, "imu.b_a.y") {
        s.imu_b_a_y = value;
    } else if same_text(target, "imu.b_a.z") {
        s.imu_b_a_z = value;
    } else if same_text(target, "imu.b_g.x") {
        s.imu_b_g_x = value;
    } else if same_text(target, "imu.b_g.y") {
        s.imu_b_g_y = value;
    } else if same_text(target, "imu.b_g.z") {
        s.imu_b_g_z = value;
    } else if same_text(target, "imu.sigma_a_n") {
        s.imu_sigma_a_n = value;
    } else if same_text(target, "imu.sigma_g_n") {
        s.imu_sigma_g_n = value;
    } else if same_text(target, "mag.hi.x") {
        s.mag_hi_x = value;
    } else if same_text(target, "mag.hi.y") {
        s.mag_hi_y = value;
    } else if same_text(target, "mag.hi.z") {
        s.mag_hi_z = value;
    } else if same_text(target, "mag.sigma.x") {
        s.mag_sigma_x = value;
    } else if same_text(target, "mag.sigma.y") {
        s.mag_sigma_y = value;
    } else if same_text(target, "mag.sigma.z") {
        s.mag_sigma_z = value;
    } else if same_text(target, "baro.bias_pa") {
        s.baro_bias_pa = value;
    } else if same_text(target, "baro.sigma_pa") {
        s.baro_sigma_pa = value;
    }
    s.mark_external_change(target);
}

// ---------------------------------------------------------------- the panel

/// The generators panel.
#[derive(Clone, Debug)]
pub struct GeneratorPanelState {
    pub visible: bool,
    pub rows: Vec<Generator>,
}

impl Default for GeneratorPanelState {
    fn default() -> (r: GeneratorPanelState)
        ensures
            !r.visible,
            r.rows@ == Seq::<Generator>::empty(),
    {
        GeneratorPanelState { visible: false, rows: Vec::new() }
    }
}

/// Generators after one of them was given the value that its tick yields.
pub open spec fn valued(rows: Seq<Generator>, i: int, walk: Num, value: Num) -> Seq<Generator> {
    rows.update(
        i,
        (Generator { random_walk_state: walk, last_value: Some(value), ..rows[i] }),
    )
}

impl GeneratorPanelState {
    /// Each generator is in order.
    pub open spec fn wf(self) -> bool {
        forall|i: int| 0 <= i < self.rows.len() ==> (#[trigger] self.rows@[i]).wf()
    }

    /// Add a generator for the first slider.
    pub fn add(&mut self)
        requires
            old(self).wf(),
        ensures
            final(self).wf(),
            final(self).visible == old(self).visible,
            final(self).rows.len() == old(self).rows.len() + 1,
            final(self).rows@.drop_last() == old(self).rows@,
            unstarted(final(self).rows@.last(), SLIDER_TARGETS@[0]),
    {
        let t: &'static str = SLIDER_TARGETS[0];
        let g = Generator::new(t);
        let ghost before = self.rows@;
        self.rows.push(g);
        proof {
            assert(self.rows@.drop_last() =~= before);
        }
    }

    /// Take a generator out, if there is one at `idx`.
    pub fn remove(&mut self, idx: usize)
        requires
            old(self).wf(),
        ensures
            final(self).wf(),
            final(self).visible == old(self).visible,
            final(self).rows@ == if idx < old(self).rows.len() {
                old(self).rows@.remove(idx as int)
            } else {
                old(self).rows@
            },
    {
        if idx < self.rows.len() {
            let _gone = self.rows.remove(idx);
        }
    }

    /// The number of generators that run.
    pub fn running_count(&self) -> (n: usize)
        ensures
            n == self.rows@.filter(|g: Generator| g.running).len(),
    {
        let ghost f = |g: Generator| g.running;
        let mut n: usize = 0;
        let mut i: usize = 0;
        proof {
            reveal(Seq::filter);
            assert(self.rows@.take(0).filter(f) =~= Seq::empty());
        }
        while i < self.rows.len()
            invariant
                i <= self.rows.len(),
                f == (|g: Generator| g.running),
                n == self.rows@.take(i as int).filter(f).len(),
                n <= i,
            decreases self.rows.len() - i,
        {
            proof {
                reveal(Seq::filter);
                assert(self.rows@.take(i + 1).drop_last() =~= self.rows@.take(i as int));
                assert(self.rows@.take(i + 1).last() == self.rows@[i as int]);
            }
            if self.rows[i].running {
                n = n + 1;
            }
            i = i + 1;
        }
        proof {
            assert(self.rows@.take(self.rows.len() as int) =~= self.rows@);
        }
        n
    }

    /// Keep the value that was computed for generator `i`, and drive its slider.
    /// `walk` is where its random walk has got to; `single` is the value as a
    /// slider holds it.
    pub fn apply_tick(
        &mut self,
        i: usize,
        walk: Num,
        value: Num,
        single: Num32,
        faults: &mut FaultsPanelState,
    )
        requires
            old(self).wf(),
            i < old(self).rows.len(),
        ensures
            final(self).wf(),
            final(self).visible == old(self).visible,
            final(self).rows@ == valued(old(self).rows@, i as int, walk, value),
            *final(faults) == driven(*old(faults), old(self).rows@[i as int].target@, single),
    {
        let ghost before = self.rows@;
        self.rows[i].random_walk_state = walk;
        self.rows[i].last_value = Some(value);
        apply_to_faults(self.rows[i].target.as_str(), single, faults);
        proof {
            assert(self.rows@ =~= before.update(
                i as int,
                (Generator {
                    random_walk_state: walk,
                    last_value: Some(value),
                    ..before[i as int]
                }),
            ));
        }
    }
}

} // verus!
