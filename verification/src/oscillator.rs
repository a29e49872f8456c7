//! The oscillator: an endless stereo stream of samples, drawn one at a time.
//!
//! The phase is counted in millionths of a sample period, so a turn of the
//! wave is `sample_rate * 1_000_000` units long and a step at frequency `f`
//! adds exactly `f` units. Nothing is rounded and the phase never drifts.
//!
//! The shape of the wave is the caller's: each step asks a function for the
//! value of the wave at `phase` units into a turn of `turn` units, in
//! millionths of full scale.

use vstd::prelude::*;
use crate::mapper::ToneParameters;
use crate::shared::{made_with, SharedParameters};
use std::sync::Mutex;
use crate::units::{clamp_spec, distance_spec, scale_spec, scale_within, ONE};
use vstd::arithmetic::div_mod::{
    lemma_add_mod_noop, lemma_fundamental_div_mod, lemma_mod_bound, lemma_mod_pos_bound,
    lemma_small_mod,
};

verus! {

/// No sample leaves the oscillator above this magnitude.
pub const PEAK: i64 = 800_000;

/// Channels of the stream: each rendered value goes out once per channel.
pub const CHANNELS: u16 = 2;

/// What the oscillator holds between two samples.
pub struct OscillatorState {
    /// Units into the current turn.
    pub phase: int,
    /// Samples per second and channel.
    pub sample_rate: int,
    /// The value still owed to the second channel of the frame in progress.
    pub held: Option<i64>,
}

/// The length of one turn of the wave, in phase units.
pub open spec fn turn_of(sample_rate: int) -> int {
    sample_rate * ONE
}

/// The phase one sample after `phase` at `frequency`. A frequency of zero or
/// below leaves the phase where it is.
pub open spec fn advance_spec(phase: int, frequency: int, turn: int) -> int {
    if frequency <= 0 {
        phase
    } else {
        (phase + frequency) % turn
    }
}

/// The sample made of the wave's value under `params`: silence at a frequency
/// of zero or below, else the value times the amplitude, limited to the peak.
pub open spec fn shape_spec(wave_value: int, params: ToneParameters) -> int {
    if params.frequency <= 0 {
        0
    } else {
        clamp_spec(scale_spec(wave_value, params.amplitude as int), -PEAK, PEAK as int)
    }
}

/// The oscillator after one step under `params`.
pub open spec fn step_spec(before: OscillatorState, params: ToneParameters) -> OscillatorState {
    OscillatorState {
        phase: advance_spec(before.phase, params.frequency as int, turn_of(before.sample_rate)),
        sample_rate: before.sample_rate,
        held: before.held,
    }
}

impl OscillatorState {
    /// The rate is positive, the phase lies within one turn, and a held value
    /// is within the peak.
    pub open spec fn valid(self) -> bool {
        &&& self.sample_rate > 0
        &&& 0 <= self.phase < turn_of(self.sample_rate)
        &&& self.held matches Some(sample) ==> -PEAK <= sample <= PEAK
    }

    /// This state with `held` in place of its held value.
    pub open spec fn with_held(self, held: Option<i64>) -> OscillatorState {
        OscillatorState { held, ..self }
    }
}

/// Whether a step under `params` leads from `before` to `after` and yields
/// `sample`, the wave being `wave`: the phase moves on, and the sample is
/// silence at a frequency of zero or below, else shaped from a value that the
/// wave gives at the new phase.
pub open spec fn renders<F: Fn(u64, u64) -> i64>(
    before: OscillatorState,
    params: ToneParameters,
    wave: &F,
    after: OscillatorState,
    sample: i64,
) -> bool {
    &&& after == step_spec(before, params)
    &&& params.frequency <= 0 ==> sample == 0
    &&& params.frequency > 0 ==> exists|value: i64|
        #[trigger] wave.ensures((after.phase as u64, turn_of(after.sample_rate) as u64), value)
            && sample == shape_spec(value as int, params)
}

/// Makes the sample of one wave value: see [`shape_spec`].
pub fn shape(wave_value: i64, params: ToneParameters) -> (sample: i64)
    ensures
        sample == shape_spec(wave_value as int, params),
        -PEAK <= sample <= PEAK,
{
    if params.frequency <= 0 {
        0
    } else {
        scale_within(wave_value, params.amplitude, -PEAK, PEAK)
    }
}

/// The render engine. It owns the phase; the tone comes from the shared cell.
pub struct ThereminSource {
    state: SharedParameters,
    sample_rate: u32,
    phase: u64,
    held: Option<i64>,
}

impl View for ThereminSource {
    type V = OscillatorState;

    closed spec fn view(&self) -> OscillatorState {
        OscillatorState {
            phase: self.phase as int,
            sample_rate: self.sample_rate as int,
            held: self.held,
        }
    }
}

impl ThereminSource {
    #[verifier::type_invariant]
    closed spec fn wf(self) -> bool {
        self@.valid()
    }

    /// The cell that this source reads its tone from.
    pub closed spec fn cell(&self) -> Mutex<ToneParameters> {
        self.state.cell()
    }

    /// A source at phase zero whose cell holds the given tone.
    pub fn new(amplitude: i64, frequency: i64, sample_rate: u32) -> (source: Self)
        requires
            sample_rate > 0,
        ensures
            source@ == (OscillatorState { phase: 0, sample_rate: sample_rate as int, held: None }),
            made_with(source.cell()) == (ToneParameters { frequency, amplitude }),
    {
        let state = SharedParameters::new(ToneParameters { frequency, amplitude });
        ThereminSource { state, sample_rate, phase: 0, held: None }
    }

    /// A handle to the cell this source reads its tone from.
    pub fn state(&self) -> (handle: SharedParameters)
        ensures
            handle.cell() == self.cell(),
    {
        self.state.handle()
    }

    /// Samples per second and channel.
    pub fn sample_rate(&self) -> (r: u32)
        ensures
            r == self@.sample_rate,
            r > 0,
    {
        proof {
            use_type_invariant(self);
        }
        self.sample_rate
    }

    /// The stream is stereo.
    pub fn channels(&self) -> (r: u16)
        ensures
            r == CHANNELS,
    {
        CHANNELS
    }

    /// The stream has no frame boundary ahead: its format never changes.
    pub fn current_frame_len(&self) -> (r: Option<usize>)
        ensures
            r.is_none(),
    {
        None
    }

    /// The stream has no end.
    pub fn total_duration(&self) -> (r: Option<std::time::Duration>)
        ensures
            r.is_none(),
    {
        None
    }

    /// Units into the current turn.
    pub fn phase(&self) -> (r: u64)
        ensures
            r == self@.phase,
            self@.valid(),
    {
        proof {
            use_type_invariant(self);
        }
        self.phase
    }

    /// The length of a turn in phase units.
    pub fn turn(&self) -> (r: u64)
        ensures
            r == turn_of(self@.sample_rate),
            r > 0,
    {
        proof {
            use_type_invariant(self);
        }
        self.sample_rate as u64 * 1_000_000
    }

    /// Moves the phase on by one sample at `frequency`.
    fn advance(&mut self, frequency: i64)
        ensures
            final(self)@ == (OscillatorState {
                phase: advance_spec(
                    old(self)@.phase,
                    frequency as int,
                    turn_of(old(self)@.sample_rate),
                ),
                ..old(self)@
            }),
            final(self)@.valid(),
    {
        proof {
            use_type_invariant(&*self);
        }
        if frequency > 0 {
            let turn: u128 = self.sample_rate as u128 * 1_000_000;
            let sum: u128 = self.phase as u128 + frequency as u128;
            self.phase = (sum % turn) as u64;
        }
    }

    /// One step under `params`: the phase moves on, then the wave is asked for
    /// its value there and the sample is shaped from it. At a frequency of
    /// zero or below the wave is not asked and the sample is silence. The
    /// amplitude has no part in where the phase goes.
    pub fn render<F: Fn(u64, u64) -> i64>(&mut self, params: ToneParameters, wave: &F) -> (sample:
        i64)
        requires
            forall|phase: u64, turn: u64| phase < turn ==> wave.requires((phase, turn)),
        ensures
            renders(old(self)@, params, wave, final(self)@, sample),
            final(self)@.valid(),
            -PEAK <= sample <= PEAK,
    {
        self.advance(params.frequency);
        if params.frequency <= 0 {
            0
        } else {
            let phase: u64 = self.phase();
            let turn: u64 = self.turn();
            let value: i64 = wave(phase, turn);
            assert(wave.ensures((self@.phase as u64, turn_of(self@.sample_rate) as u64), value));
            shape(value, params)
        }
    }

    /// One step under the tone that the cell holds at this moment, read once.
    pub fn generate_sample<F: Fn(u64, u64) -> i64>(&mut self, wave: &F) -> (sample: i64)
        requires
            forall|phase: u64, turn: u64| phase < turn ==> wave.requires((phase, turn)),
        ensures
            exists|params: ToneParameters|
                #[trigger] renders(old(self)@, params, wave, final(self)@, sample),
            final(self)@.valid(),
            -PEAK <= sample <= PEAK,
    {
        let params = self.state.read();
        self.render(params, wave)
    }

    /// The next value of the interleaved stream. Every rendered sample goes
    /// out twice, once per channel: the first call of a frame renders it, the
    /// second repeats it. The stream never ends.
    pub fn next<F: Fn(u64, u64) -> i64>(&mut self, wave: &F) -> (r: Option<i64>)
        requires
            forall|phase: u64, turn: u64| phase < turn ==> wave.requires((phase, turn)),
        ensures
            r.is_some(),
            -PEAK <= r.unwrap() <= PEAK,
            old(self)@.held.is_some() ==> r == old(self)@.held && final(self)@ == old(
                self,
            )@.with_held(None),
            old(self)@.held.is_none() ==> exists|params: ToneParameters|
                #[trigger] renders(
                    old(self)@,
                    params,
                    wave,
                    final(self)@.with_held(None),
                    r.unwrap(),
                ) && final(self)@.held == r,
            final(self)@.valid(),
    {
        proof {
            use_type_invariant(&*self);
        }
        match self.held {
            Some(sample) => {
                self.held = None;
                Some(sample)
            },
            None => {
                let sample = self.generate_sample(wave);
                self.held = Some(sample);
                Some(sample)
            },
        }
    }
}

/// A source at phase zero that plays the given tone until its cell is written.
pub fn gerar_som_teremin(amplitude: i64, frequencia: i64, sample_rate: u32) -> (source:
    ThereminSource)
    requires
        sample_rate > 0,
    ensures
        source@ == (OscillatorState { phase: 0, sample_rate: sample_rate as int, held: None }),
        made_with(source.cell()) == (ToneParameters { frequency: frequencia, amplitude }),
{
    ThereminSource::new(amplitude, frequencia, sample_rate)
}

/// The oscillator after one step under each of `tones`, first to last.
pub open spec fn run_spec(start: OscillatorState, tones: Seq<ToneParameters>) -> OscillatorState
    decreases tones.len(),
{
    if tones.len() == 0 {
        start
    } else {
        step_spec(run_spec(start, tones.drop_last()), tones.last())
    }
}

/// The phase units that the steps `tones` cover: the sum of their
/// frequencies, those of zero or below counting nothing.
pub open spec fn travel(tones: Seq<ToneParameters>) -> int
    decreases tones.len(),
{
    if tones.len() == 0 {
        0
    } else {
        travel(tones.drop_last()) + if tones.last().frequency > 0 {
            tones.last().frequency as int
        } else {
            0
        }
    }
}

/// Every sample lies within the peak, whatever the wave gives and whatever
/// the tone is.
pub proof fn sample_is_bounded(wave_value: int, params: ToneParameters)
    ensures
        -PEAK <= shape_spec(wave_value, params) <= PEAK,
{
}

/// An amplitude of zero gives silence, and a step under it moves the phase
/// exactly as a step under any other amplitude does.
pub proof fn silence_keeps_the_phase(
    before: OscillatorState,
    frequency: i64,
    amplitude: i64,
    wave_value: int,
)
    ensures
        shape_spec(wave_value, ToneParameters { frequency, amplitude: 0 }) == 0,
        step_spec(before, ToneParameters { frequency, amplitude: 0 }) == step_spec(
            before,
            ToneParameters { frequency, amplitude },
        ),
{
    assert(wave_value * 0 == 0);
}

/// Shaping adds no jump of its own. Under one tone whose amplitude lies
/// between 0 and 1, two samples differ by less than the difference of the
/// wave's two values times the amplitude, plus one millionth for rounding:
/// so by no more than the wave itself moves over the phase between them.
pub proof fn shape_adds_no_jump(one: int, other: int, params: ToneParameters)
    requires
        0 <= params.amplitude <= ONE,
    ensures
        distance_spec(shape_spec(one, params), shape_spec(other, params)) * ONE < distance_spec(
            one,
            other,
        ) * params.amplitude + ONE,
        distance_spec(shape_spec(one, params), shape_spec(other, params)) <= distance_spec(
            one,
            other,
        ),
{
    let a = params.amplitude as int;
    let q1 = scale_spec(one, a);
    let q2 = scale_spec(other, a);
    lemma_fundamental_div_mod(one * a, ONE as int);
    lemma_fundamental_div_mod(other * a, ONE as int);
    lemma_mod_bound(one * a, ONE as int);
    lemma_mod_bound(other * a, ONE as int);
    assert((one - other) * a == one * a - other * a) by (nonlinear_arith);
    assert((other - one) * a == other * a - one * a) by (nonlinear_arith);
    assert(distance_spec(q1, q2) * ONE < distance_spec(one, other) * a + ONE);
    assert(distance_spec(one, other) * a <= distance_spec(one, other) * ONE) by (nonlinear_arith)
        requires
            0 <= a <= ONE,
            distance_spec(one, other) >= 0,
    ;
}

/// Phase continuity. Across any sequence of tones the phase is the phase at
/// the start plus the frequencies stepped through, less whole turns. Each
/// step therefore moves the phase by the frequency of that step and by
/// nothing else: no change of tone sets it back, and the amplitudes have no
/// part in it.
pub proof fn phase_is_continuous(start: OscillatorState, tones: Seq<ToneParameters>)
    requires
        start.valid(),
    ensures
        run_spec(start, tones).valid(),
        run_spec(start, tones).sample_rate == start.sample_rate,
        run_spec(start, tones).held == start.held,
        travel(tones) >= 0,
        run_spec(start, tones).phase == (start.phase + travel(tones)) % turn_of(start.sample_rate),
    decreases tones.len(),
{
    let turn = turn_of(start.sample_rate);
    if tones.len() == 0 {
        lemma_small_mod(start.phase as nat, turn as nat);
    } else {
        let earlier = tones.drop_last();
        let frequency = tones.last().frequency as int;
        phase_is_continuous(start, earlier);
        if frequency > 0 {
            lemma_add_mod_noop(start.phase + travel(earlier), frequency, turn);
            lemma_small_mod(run_spec(start, earlier).phase as nat, turn as nat);
            lemma_add_mod_noop(run_spec(start, earlier).phase, frequency, turn);
            lemma_mod_pos_bound(run_spec(start, earlier).phase + frequency, turn);
        }
    }
}

/// Two runs from one state through tones of the same frequencies end at the
/// same phase, however their amplitudes differ.
pub proof fn phase_ignores_amplitude(
    start: OscillatorState,
    one: Seq<ToneParameters>,
    other: Seq<ToneParameters>,
)
    requires
        one.len() == other.len(),
        forall|i: int| 0 <= i < one.len() ==> one[i].frequency == other[i].frequency,
    ensures
        run_spec(start, one).phase == run_spec(start, other).phase,
        run_spec(start, one).sample_rate == run_spec(start, other).sample_rate,
    decreases one.len(),
{
    if one.len() > 0 {
        phase_ignores_amplitude(start, one.drop_last(), other.drop_last());
    }
}

} // verus!
