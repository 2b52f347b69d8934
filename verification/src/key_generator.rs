use vstd::prelude::*;

use crate::instrument::Key;
use crate::pcm::{
    sample_count, spec_div_trunc, spec_sample_count, PCMParameters, AMPLITUDE_UNIT, PCM,
};
use crate::util::{Duration, Frequency};

verus! {

/// Generates new keys to add to an instrument.
pub trait KeyGenerator {
    /// Generates a new key for an instrument. The produced PCM is always
    /// mono, holds one sample for every sample period of the requested
    /// duration, and is normalized: no sample exceeds one amplitude unit
    /// in magnitude.
    ///
    /// `duration` is the longest time this key will be held for, which
    /// matters to generators of non-loopable sounds; `frequency` is the
    /// pitch the key must produce, in millihertz.
    fn gen(&mut self, sample_rate: u32, frequency: Frequency, duration: Duration) -> (r: Key)
        requires
            spec_sample_count(duration@ as int, sample_rate as int) <= usize::MAX,
        ensures
            r.audio.parameters == (PCMParameters { sample_rate, nb_channels: 1 }),
            r.audio.loop_info@.len() == 0,
            r.audio.samples@.len() == spec_sample_count(duration@ as int, sample_rate as int),
            forall|i: int|
                0 <= i < r.audio.samples@.len() ==> -AMPLITUDE_UNIT <= #[trigger] r.audio.samples@[i]
                    <= AMPLITUDE_UNIT,
            r.frequency@ == frequency@,
    ;
}

/// Where sample `i` of a wave of the given frequency (in millihertz) sits
/// inside the wave's period, at the given sample rate: a fraction of the
/// period, counted in thousandth-of-a-cycle-per-sample-rate units, between
/// `0` and `1000 * sample_rate`.
pub open spec fn spec_phase(i: int, frequency: int, sample_rate: int) -> int {
    (i * frequency) % (1000 * sample_rate)
}

/// Sample `i` of a square wave: full positive amplitude through the first
/// half of each period, full negative amplitude through the second.
pub open spec fn spec_square_sample(i: int, frequency: int, sample_rate: int) -> int {
    if 2 * spec_phase(i, frequency, sample_rate) < 1000 * sample_rate {
        AMPLITUDE_UNIT as int
    } else {
        -(AMPLITUDE_UNIT as int)
    }
}

/// Sample `i` of a sawtooth wave: a straight ramp from full positive down
/// to full negative amplitude across each period.
pub open spec fn spec_sawtooth_sample(i: int, frequency: int, sample_rate: int) -> int {
    let d = 1000 * sample_rate;
    let ph = spec_phase(i, frequency, sample_rate);
    spec_div_trunc((d - 2 * ph) * AMPLITUDE_UNIT, d)
}

/// Sample `i` of a triangle wave: a ramp up across the first quarter of
/// each period, down across the middle two quarters, and up again across
/// the last.
pub open spec fn spec_triangle_sample(i: int, frequency: int, sample_rate: int) -> int {
    let d = 1000 * sample_rate;
    let ph = spec_phase(i, frequency, sample_rate);
    if 4 * ph < d {
        spec_div_trunc(4 * ph * AMPLITUDE_UNIT, d)
    } else if 4 * ph < 3 * d {
        spec_div_trunc((2 * d - 4 * ph) * AMPLITUDE_UNIT, d)
    } else {
        spec_div_trunc((4 * ph - 4 * d) * AMPLITUDE_UNIT, d)
    }
}

/// Computes `a`·AMPLITUDE_UNIT/`d` for a fraction `a`/`d` of at most one:
/// the scaled amplitude never exceeds one unit.
fn unit_scale(a: u64, d: u64) -> (q: u128)
    requires
        0 < d,
        a <= d,
    ensures
        q == (a as int * AMPLITUDE_UNIT) / (d as int),
        0 <= q <= AMPLITUDE_UNIT,
{
    proof {
        assert(a as int * AMPLITUDE_UNIT <= AMPLITUDE_UNIT * (d as int)) by (nonlinear_arith)
            requires
                0 <= a <= d,
                d <= u64::MAX,
        ;
        crate::pcm::lemma_div_bound(a as int * AMPLITUDE_UNIT, d as int, AMPLITUDE_UNIT as int);
    }
    (a as u128) * (AMPLITUDE_UNIT as u128) / (d as u128)
}

/// Computes the phase of sample `i`.
fn phase(i: usize, frequency: u64, sample_rate: u32) -> (ph: u64)
    requires
        sample_rate > 0,
    ensures
        ph == spec_phase(i as int, frequency as int, sample_rate as int),
        ph < 1000 * sample_rate,
{
    let d: u128 = 1000u128 * sample_rate as u128;
    proof {
        assert(i as int * frequency as int <= u128::MAX) by (nonlinear_arith)
            requires
                0 <= i <= u64::MAX,
                0 <= frequency <= u64::MAX,
        ;
        vstd::arithmetic::div_mod::lemma_mod_bound(
            i as int * frequency as int,
            1000 * sample_rate as int,
        );
    }
    let ph = (i as u128 * frequency as u128) % d;
    ph as u64
}

/// Example implementation of a key generator that creates square wave
/// signals.
#[derive(Clone, Copy, Debug)]
pub struct SquareWaveGenerator {}

/// The samples of a square wave of the given frequency covering the given
/// duration; each sample follows [`spec_square_sample`] exactly.
pub fn square_wave_samples(sample_rate: u32, frequency: Frequency, duration: Duration) -> (v: Vec<
    i128,
>)
    requires
        spec_sample_count(duration@ as int, sample_rate as int) <= usize::MAX,
    ensures
        v@.len() == spec_sample_count(duration@ as int, sample_rate as int),
        forall|i: int|
            0 <= i < v@.len() ==> #[trigger] v@[i] == spec_square_sample(
                i,
                frequency@ as int,
                sample_rate as int,
            ),
        forall|i: int| 0 <= i < v@.len() ==> -AMPLITUDE_UNIT <= #[trigger] v@[i] <= AMPLITUDE_UNIT,
{
    let count = sample_count(duration, sample_rate);
    proof {
        if sample_rate == 0 {
            assert(duration@ as int * (sample_rate as int) == 0) by (nonlinear_arith)
                requires
                    sample_rate as int == 0,
            ;
        }
    }
    let f = frequency.get();
    let mut v: Vec<i128> = Vec::new();
    let mut i: usize = 0;
    while i < count
        invariant
            i <= count,
            sample_rate > 0 || count == 0,
            v@.len() == i,
            forall|k: int|
                0 <= k < i ==> #[trigger] v@[k] == spec_square_sample(
                    k,
                    f as int,
                    sample_rate as int,
                ),
            f == frequency@,
        decreases count - i,
    {
        let ph = phase(i, f, sample_rate);
        if 2 * (ph as u128) < 1000 * (sample_rate as u128) {
            v.push(AMPLITUDE_UNIT);
        } else {
            v.push(-AMPLITUDE_UNIT);
        }
        i = i + 1;
    }
    v
}

impl KeyGenerator for SquareWaveGenerator {
    fn gen(&mut self, sample_rate: u32, frequency: Frequency, duration: Duration) -> (r: Key) {
        Key {
            audio: PCM {
                parameters: PCMParameters { sample_rate, nb_channels: 1 },
                loop_info: Vec::new(),
                samples: square_wave_samples(sample_rate, frequency, duration),
            },
            frequency,
        }
    }
}

/// Example implementation of a key generator that creates sawtooth wave
/// signals.
#[derive(Clone, Copy, Debug)]
pub struct SawtoothWaveGenerator {}

/// The samples of a sawtooth wave of the given frequency covering the
/// given duration; each sample follows [`spec_sawtooth_sample`] exactly.
pub fn sawtooth_wave_samples(sample_rate: u32, frequency: Frequency, duration: Duration) -> (v:
    Vec<i128>)
    requires
        spec_sample_count(duration@ as int, sample_rate as int) <= usize::MAX,
    ensures
        v@.len() == spec_sample_count(duration@ as int, sample_rate as int),
        forall|i: int|
            0 <= i < v@.len() ==> #[trigger] v@[i] == spec_sawtooth_sample(
                i,
                frequency@ as int,
                sample_rate as int,
            ),
        forall|i: int| 0 <= i < v@.len() ==> -AMPLITUDE_UNIT <= #[trigger] v@[i] <= AMPLITUDE_UNIT,
{
    let count = sample_count(duration, sample_rate);
    proof {
        if sample_rate == 0 {
            assert(duration@ as int * (sample_rate as int) == 0) by (nonlinear_arith)
                requires
                    sample_rate as int == 0,
            ;
        }
    }
    let f = frequency.get();
    let mut v: Vec<i128> = Vec::new();
    let mut i: usize = 0;
    while i < count
        invariant
            i <= count,
            sample_rate > 0 || count == 0,
            v@.len() == i,
            forall|k: int|
                0 <= k < i ==> #[trigger] v@[k] == spec_sawtooth_sample(
                    k,
                    f as int,
                    sample_rate as int,
                ),
            forall|k: int| 0 <= k < i ==> -AMPLITUDE_UNIT <= #[trigger] v@[k] <= AMPLITUDE_UNIT,
            f == frequency@,
        decreases count - i,
    {
        let ph = phase(i, f, sample_rate);
        let d: u64 = 1000 * (sample_rate as u64);
        let s: i128 = if 2 * ph <= d {
            unit_scale(d - 2 * ph, d) as i128
        } else {
            -(unit_scale(2 * ph - d, d) as i128)
        };
        v.push(s);
        i = i + 1;
    }
    v
}

impl KeyGenerator for SawtoothWaveGenerator {
    fn gen(&mut self, sample_rate: u32, frequency: Frequency, duration: Duration) -> (r: Key) {
        Key {
            audio: PCM {
                parameters: PCMParameters { sample_rate, nb_channels: 1 },
                loop_info: Vec::new(),
                samples: sawtooth_wave_samples(sample_rate, frequency, duration),
            },
            frequency,
        }
    }
}

/// Example implementation of a key generator that creates triangle wave
/// signals.
#[derive(Clone, Copy, Debug)]
pub struct TriangleWaveGenerator {}

/// The samples of a triangle wave of the given frequency covering the
/// given duration; each sample follows [`spec_triangle_sample`] exactly.
pub fn triangle_wave_samples(sample_rate: u32, frequency: Frequency, duration: Duration) -> (v:
    Vec<i128>)
    requires
        spec_sample_count(duration@ as int, sample_rate as int) <= usize::MAX,
    ensures
        v@.len() == spec_sample_count(duration@ as int, sample_rate as int),
        forall|i: int|
            0 <= i < v@.len() ==> #[trigger] v@[i] == spec_triangle_sample(
                i,
                frequency@ as int,
                sample_rate as int,
            ),
        forall|i: int| 0 <= i < v@.len() ==> -AMPLITUDE_UNIT <= #[trigger] v@[i] <= AMPLITUDE_UNIT,
{
    let count = sample_count(duration, sample_rate);
    proof {
        if sample_rate == 0 {
            assert(duration@ as int * (sample_rate as int) == 0) by (nonlinear_arith)
                requires
                    sample_rate as int == 0,
            ;
        }
    }
    let f = frequency.get();
    let mut v: Vec<i128> = Vec::new();
    let mut i: usize = 0;
    while i < count
        invariant
            i <= count,
            sample_rate > 0 || count == 0,
            v@.len() == i,
            forall|k: int|
                0 <= k < i ==> #[trigger] v@[k] == spec_triangle_sample(
                    k,
                    f as int,
                    sample_rate as int,
                ),
            forall|k: int| 0 <= k < i ==> -AMPLITUDE_UNIT <= #[trigger] v@[k] <= AMPLITUDE_UNIT,
            f == frequency@,
        decreases count - i,
    {
        let ph = phase(i, f, sample_rate);
        let d: u64 = 1000 * (sample_rate as u64);
        let four_ph: u64 = 4 * ph;
        let s: i128 = if four_ph < d {
            unit_scale(four_ph, d) as i128
        } else if four_ph < 3 * d {
            if four_ph <= 2 * d {
                unit_scale(2 * d - four_ph, d) as i128
            } else {
                -(unit_scale(four_ph - 2 * d, d) as i128)
            }
        } else {
            -(unit_scale(4 * d - four_ph, d) as i128)
        };
        v.push(s);
        i = i + 1;
    }
    v
}

impl KeyGenerator for TriangleWaveGenerator {
    fn gen(&mut self, sample_rate: u32, frequency: Frequency, duration: Duration) -> (r: Key) {
        Key {
            audio: PCM {
                parameters: PCMParameters { sample_rate, nb_channels: 1 },
                loop_info: Vec::new(),
                samples: triangle_wave_samples(sample_rate, frequency, duration),
            },
            frequency,
        }
    }
}

/// A key generator that generates plain uniform white noise.
#[derive(Clone, Copy, Debug)]
pub struct NoiseGenerator {}

/// Relies on rand::random: draws one value from the thread-local random
/// number generator.
#[verifier::external_body]
fn random_u64() -> u64 {
    rand::random()
}

/// Maps one random draw onto the amplitude range: whatever was drawn, the
/// resulting noise sample stays within one amplitude unit of silence.
fn noise_sample_from(r: u64) -> (s: i128)
    ensures
        -AMPLITUDE_UNIT <= s <= AMPLITUDE_UNIT,
{
    ((r % 65537) as i128) - AMPLITUDE_UNIT
}

/// Uniform noise covering the given duration: every sample is within one
/// amplitude unit of silence, whatever the generator drew.
pub fn noise_samples(sample_rate: u32, duration: Duration) -> (v: Vec<i128>)
    requires
        spec_sample_count(duration@ as int, sample_rate as int) <= usize::MAX,
    ensures
        v@.len() == spec_sample_count(duration@ as int, sample_rate as int),
        forall|i: int| 0 <= i < v@.len() ==> -AMPLITUDE_UNIT <= #[trigger] v@[i] <= AMPLITUDE_UNIT,
{
    let count = sample_count(duration, sample_rate);
    let mut v: Vec<i128> = Vec::new();
    let mut i: usize = 0;
    while i < count
        invariant
            i <= count,
            v@.len() == i,
            forall|k: int| 0 <= k < i ==> -AMPLITUDE_UNIT <= #[trigger] v@[k] <= AMPLITUDE_UNIT,
        decreases count - i,
    {
        let draw = random_u64();
        v.push(noise_sample_from(draw));
        i = i + 1;
    }
    v
}

impl KeyGenerator for NoiseGenerator {
    fn gen(&mut self, sample_rate: u32, frequency: Frequency, duration: Duration) -> (r: Key) {
        Key {
            audio: PCM {
                parameters: PCMParameters { sample_rate, nb_channels: 1 },
                loop_info: Vec::new(),
                samples: noise_samples(sample_rate, duration),
            },
            frequency,
        }
    }
}

} // verus!
