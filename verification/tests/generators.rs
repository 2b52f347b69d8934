use wavesynth::key_generator::{
    noise_samples, sawtooth_wave_samples, square_wave_samples, triangle_wave_samples,
    KeyGenerator, NoiseGenerator,
};
use wavesynth::pcm::AMPLITUDE_UNIT;
use wavesynth::util::Time;

fn one_second() -> Time {
    Time::new(1_000_000).unwrap()
}

// 1 kHz at 8000 samples per second: each period is exactly 8 samples.
fn khz() -> Time {
    Time::from_ticks(1_000_000)
}

#[test]
fn square_wave_alternates_half_periods() {
    let v = square_wave_samples(8000, khz(), one_second());
    assert_eq!(v.len(), 8000);
    for i in 0..8000usize {
        if i % 8 < 4 {
            assert_eq!(v[i], AMPLITUDE_UNIT);
        } else {
            assert_eq!(v[i], -AMPLITUDE_UNIT);
        }
    }
}

#[test]
fn sawtooth_wave_ramps_down_across_period() {
    let v = sawtooth_wave_samples(8000, khz(), one_second());
    assert_eq!(v.len(), 8000);
    // Starts at full swing and descends linearly across the period.
    assert_eq!(v[0], AMPLITUDE_UNIT);
    assert_eq!(v[1], 24576);
    assert_eq!(v[2], 16384);
    assert_eq!(v[4], 0);
    assert_eq!(v[6], -16384);
    assert_eq!(v[8], AMPLITUDE_UNIT);
}

#[test]
fn triangle_wave_ramps_across_quarters() {
    let v = triangle_wave_samples(8000, khz(), one_second());
    assert_eq!(v.len(), 8000);
    assert_eq!(v[0], 0);
    assert_eq!(v[1], 16384);
    assert_eq!(v[2], AMPLITUDE_UNIT);
    assert_eq!(v[3], 16384);
    assert_eq!(v[4], 0);
    assert_eq!(v[5], -16384);
    assert_eq!(v[6], -AMPLITUDE_UNIT);
    assert_eq!(v[7], -16384);
    assert_eq!(v[8], 0);
}

#[test]
fn zero_frequency_square_wave_is_constant() {
    let v = square_wave_samples(8000, Time::from_ticks(0), one_second());
    assert_eq!(v.len(), 8000);
    for s in v {
        assert_eq!(s, AMPLITUDE_UNIT);
    }
}

#[test]
fn noise_stays_normalized() {
    let v = noise_samples(8000, one_second());
    assert_eq!(v.len(), 8000);
    for s in v {
        assert!(-AMPLITUDE_UNIT <= s && s <= AMPLITUDE_UNIT);
    }
}

#[test]
fn noise_generator_produces_mono_key() {
    let mut g = NoiseGenerator {};
    let key = g.gen(1000, Time::from_ticks(440_000), Time::new(500_000).unwrap());
    assert_eq!(key.audio.parameters.nb_channels, 1);
    assert_eq!(key.audio.parameters.sample_rate, 1000);
    assert_eq!(key.audio.samples.len(), 500);
    assert_eq!(key.frequency.get(), 440_000);
    for s in key.audio.samples {
        assert!(-AMPLITUDE_UNIT <= s && s <= AMPLITUDE_UNIT);
    }
}

#[test]
fn generators_round_sample_counts() {
    // Half a sample period rounds up.
    let v = square_wave_samples(1000, khz(), Time::new(1_500).unwrap());
    assert_eq!(v.len(), 2);
    let v = square_wave_samples(1000, khz(), Time::new(1_499).unwrap());
    assert_eq!(v.len(), 1);
    let v = square_wave_samples(0, khz(), one_second());
    assert_eq!(v.len(), 0);
}

#[test]
fn falloff_silences_tail_and_keeps_short_fragments() {
    // A fragment longer than the window: the tail ramps linearly to
    // exact silence.
    let mut long: Vec<i128> = vec![AMPLITUDE_UNIT; 150];
    wavesynth::apply_falloff(&mut long);
    assert_eq!(long.len(), 150);
    assert_eq!(long[49], AMPLITUDE_UNIT);
    assert_eq!(long[50], AMPLITUDE_UNIT);
    assert_eq!(long[149], 0);
    assert_eq!(long[100], AMPLITUDE_UNIT * (150 - 1 - 100) / 99);
    // A fragment no longer than the window stays untouched.
    let mut short: Vec<i128> = vec![-AMPLITUDE_UNIT; 100];
    wavesynth::apply_falloff(&mut short);
    assert_eq!(short, vec![-AMPLITUDE_UNIT; 100]);
}
