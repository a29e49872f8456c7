//! The position-to-tone mapper: a normalized position picks an amplitude by
//! its `x` and a note of a ten-note pentatonic scale by its `y`.

use vstd::prelude::*;
use crate::units::ONE;

verus! {

/// Width of one bin: the range from -1 to 1 is cut into ten of them.
pub const BIN_WIDTH: i64 = 200_000;

/// Amplitude step from one bin to the next.
pub const AMPLITUDE_STEP: i64 = 100_000;

/// Amplitude for a coordinate that lies in no bin.
pub const FALLBACK_AMPLITUDE: i64 = 500_000;

/// Frequency for a coordinate that lies in no bin.
pub const FALLBACK_FREQUENCY: i64 = 440_000_000;

/// The scale, lowest note first: C3 D3 E3 G3 A3 C4 D4 E4 G4 A4, in hertz.
pub const NOTES: [i64; 10] = [
    130_810_000,
    146_830_000,
    164_810_000,
    196_000_000,
    220_000_000,
    261_630_000,
    293_660_000,
    329_630_000,
    392_000_000,
    440_000_000,
];

/// A position on the control surface. When `detected` is false the
/// coordinates carry no reading and the last tone is to be held.
#[derive(Clone, Copy, Debug, PartialEq, Eq, Structural)]
pub struct NormalizedPosition {
    pub x: i64,
    pub y: i64,
    pub detected: bool,
}

/// The pair that drives the oscillator.
#[derive(Clone, Copy, Debug, PartialEq, Eq, Structural)]
pub struct ToneParameters {
    pub frequency: i64,
    pub amplitude: i64,
}

/// Whether a coordinate lies in the mapped range, both ends included.
pub open spec fn in_range(v: int) -> bool {
    -ONE <= v <= ONE
}

impl NormalizedPosition {
    /// Both coordinates lie in the mapped range.
    pub open spec fn valid(self) -> bool {
        in_range(self.x as int) && in_range(self.y as int)
    }
}

impl ToneParameters {
    /// The frequency is above zero and the amplitude lies between 0 and 1.
    pub open spec fn valid(self) -> bool {
        self.frequency > 0 && 0 <= self.amplitude <= ONE
    }
}

/// The bin of a coordinate in range: bin `k` starts at `-1 + 0.2 * k`
/// and ends before the start of bin `k + 1`; the last bin also holds 1.
pub open spec fn bin_of(v: int) -> int
    recommends
        in_range(v),
{
    if v == ONE {
        9
    } else {
        (v + ONE) / (BIN_WIDTH as int)
    }
}

/// The frequency of note `k` of the scale.
pub open spec fn note(k: int) -> int
    recommends
        0 <= k < 10,
{
    NOTES[k] as int
}

/// The amplitude of bin `k`: `(k + 1) / 10`.
pub open spec fn amplitude_step(k: int) -> int {
    (k + 1) * AMPLITUDE_STEP
}

/// The amplitude chosen by `x`.
pub open spec fn amplitude_of(x: int) -> int {
    if in_range(x) {
        amplitude_step(bin_of(x))
    } else {
        FALLBACK_AMPLITUDE as int
    }
}

/// The frequency chosen by `y`.
pub open spec fn frequency_of(y: int) -> int {
    if in_range(y) {
        note(bin_of(y))
    } else {
        FALLBACK_FREQUENCY as int
    }
}

/// The tone of a position.
pub open spec fn tone_of(x: int, y: int) -> ToneParameters {
    ToneParameters { frequency: frequency_of(y) as i64, amplitude: amplitude_of(x) as i64 }
}

/// The bin of a coordinate, or `None` for one outside the range.
pub fn bin_index(v: i64) -> (r: Option<usize>)
    ensures
        in_range(v as int) ==> r == Some(bin_of(v as int) as usize) && 0 <= bin_of(v as int) < 10,
        !in_range(v as int) ==> r.is_none(),
{
    if -1_000_000 <= v && v < -800_000 {
        Some(0)
    } else if -800_000 <= v && v < -600_000 {
        Some(1)
    } else if -600_000 <= v && v < -400_000 {
        Some(2)
    } else if -400_000 <= v && v < -200_000 {
        Some(3)
    } else if -200_000 <= v && v < 0 {
        Some(4)
    } else if 0 <= v && v < 200_000 {
        Some(5)
    } else if 200_000 <= v && v < 400_000 {
        Some(6)
    } else if 400_000 <= v && v < 600_000 {
        Some(7)
    } else if 600_000 <= v && v < 800_000 {
        Some(8)
    } else if 800_000 <= v && v <= 1_000_000 {
        Some(9)
    } else {
        None
    }
}

/// Maps the point `(x, y)` to `(frequency, amplitude)`.
pub fn normalizar_valores_pentatonica(ponto: (i64, i64)) -> (r: (i64, i64))
    ensures
        r.0 == frequency_of(ponto.1 as int),
        r.1 == amplitude_of(ponto.0 as int),
{
    let amplitude: i64 = match bin_index(ponto.0) {
        Some(k) => (k as i64 + 1) * AMPLITUDE_STEP,
        None => FALLBACK_AMPLITUDE,
    };
    let frequencia: i64 = match bin_index(ponto.1) {
        Some(k) => NOTES[k],
        None => FALLBACK_FREQUENCY,
    };
    (frequencia, amplitude)
}

/// Where bin `k` starts: `-1 + 0.2 * k`.
pub open spec fn bin_start(k: int) -> int {
    k * BIN_WIDTH - ONE
}

/// The bins partition the range: a coordinate in range lies in bin `k`
/// exactly if it is at least the start of bin `k` and less than the start
/// of bin `k + 1`, the upper end of the range going to the last bin.
pub proof fn bin_boundaries(v: int, k: int)
    requires
        in_range(v),
        0 <= k < 10,
    ensures
        0 <= bin_of(v) < 10,
        bin_of(v) == k <==> (bin_start(k) <= v < bin_start(k + 1) || (k == 9 && v == ONE)),
{
}

/// A coordinate further right or further up never lies in a lower bin.
pub proof fn bin_is_monotonic(v: int, w: int)
    requires
        in_range(v),
        in_range(w),
        v <= w,
    ensures
        bin_of(v) <= bin_of(w),
{
}

/// Whatever the position, the mapper gives a frequency above zero and an
/// amplitude between 0 and 1: in range a note and a step, elsewhere the
/// fallback.
pub proof fn mapped_tone_is_valid(x: int, y: int)
    ensures
        tone_of(x, y).valid(),
        tone_of(x, y).frequency == frequency_of(y),
        tone_of(x, y).amplitude == amplitude_of(x),
{
}

/// For every `x` in range the amplitude is one of the ten steps
/// 0.1, 0.2, ..., 1.0, and it is step `k + 1` exactly on bin `k`.
pub proof fn amplitude_is_a_step(x: int)
    requires
        in_range(x),
    ensures
        exists|k: int| 0 <= k < 10 && amplitude_of(x) == #[trigger] amplitude_step(k),
        forall|k: int|
            0 <= k < 10 ==> (amplitude_of(x) == #[trigger] amplitude_step(k) <==> bin_of(x) == k),
        AMPLITUDE_STEP <= amplitude_of(x) <= ONE,
{
    let k = bin_of(x);
    assert(0 <= k < 10 && amplitude_of(x) == amplitude_step(k));
}

/// The amplitude never falls as `x` grows within the range.
pub proof fn amplitude_is_monotonic(x1: int, x2: int)
    requires
        in_range(x1),
        in_range(x2),
        x1 <= x2,
    ensures
        amplitude_of(x1) <= amplitude_of(x2),
{
}

/// The scale rises strictly from each note to the next.
pub proof fn notes_rise(j: int, k: int)
    requires
        0 <= j < k < 10,
    ensures
        0 < note(j) < note(k),
{
}

/// For every `y` in range the frequency is one of the ten notes of the
/// scale: note `k` exactly on bin `k`.
pub proof fn frequency_is_a_note(y: int)
    requires
        in_range(y),
    ensures
        exists|k: int| 0 <= k < 10 && frequency_of(y) == #[trigger] note(k),
        forall|k: int| 0 <= k < 10 ==> (frequency_of(y) == #[trigger] note(k) <==> bin_of(y) == k),
{
    let b = bin_of(y);
    assert(0 <= b < 10 && frequency_of(y) == note(b));
    assert forall|k: int| 0 <= k < 10 implies (frequency_of(y) == #[trigger] note(k) <==> b
        == k) by {
        if k < b {
            notes_rise(k, b);
        } else if b < k {
            notes_rise(b, k);
        }
    }
}

/// The frequency never falls as `y` grows within the range.
pub proof fn frequency_is_monotonic(y1: int, y2: int)
    requires
        in_range(y1),
        in_range(y2),
        y1 <= y2,
    ensures
        frequency_of(y1) <= frequency_of(y2),
{
    let j = bin_of(y1);
    let k = bin_of(y2);
    if j < k {
        notes_rise(j, k);
    }
}

} // verus!
