use std::collections::HashMap;
use wavesynth::error::SynthesizerError;
use wavesynth::instrument::Instrument;
use wavesynth::key_generator::SquareWaveGenerator;
use wavesynth::pcm::{PCMParameters, AMPLITUDE_UNIT, PCM};
use wavesynth::sequence::{Note, Sequence, Velocity};
use wavesynth::util::{Time, TimeSpan, Volume, FORCE_UNIT};
use wavesynth::wave::{SampleType, Wave};
use wavesynth::Synthesizer;

fn span_us(start: i64, end: i64) -> TimeSpan {
    TimeSpan::new(Time::new(start).unwrap(), Time::new(end).unwrap()).unwrap()
}

fn constant_synthesizer(seq: Sequence) -> Synthesizer<SquareWaveGenerator, Vec<Time>> {
    // Frequency identifier 0 resolves to zero millihertz; a square wave of
    // frequency zero never leaves its first half period, so every key
    // sample is exactly one amplitude unit.
    let mut inst = HashMap::new();
    inst.insert(
        0usize,
        Instrument {
            keys: HashMap::new(),
            key_gen: SquareWaveGenerator {},
            loopable: true,
        },
    );
    Synthesizer {
        seq,
        inst,
        f_lu: vec![Time::from_ticks(0)],
        params: PCMParameters { sample_rate: 8000, nb_channels: 1 },
    }
}

fn le16(bytes: &[u8], at: usize) -> u32 {
    bytes[at] as u32 + ((bytes[at + 1] as u32) << 8)
}

fn le32(bytes: &[u8], at: usize) -> u32 {
    bytes[at] as u32 + ((bytes[at + 1] as u32) << 8) + ((bytes[at + 2] as u32) << 16)
        + ((bytes[at + 3] as u32) << 24)
}

#[test]
fn run_renders_one_constant_note_end_to_end() {
    // One note, instrument 0, frequency id 0, spanning the first second.
    let mut seq = Sequence::new();
    seq.add_note(Note {
        t_span: span_us(0, 1_000_000),
        vel: Velocity { on: None, off: None },
        f_id: 0,
        i_id: 0,
    });
    let mut synth = constant_synthesizer(seq);
    let pcm = synth.run().unwrap();
    assert_eq!(pcm.parameters.sample_rate, 8000);
    assert_eq!(pcm.parameters.nb_channels, 1);
    assert_eq!(pcm.samples.len(), 8000);
    // Full amplitude everywhere but the anti-click tail, which ramps to
    // exact silence.
    for t in 0..7900usize {
        assert_eq!(pcm.samples[t], AMPLITUDE_UNIT);
    }
    for t in 7900..8000usize {
        let ramp = (7999 - t) as i128;
        assert_eq!(pcm.samples[t], AMPLITUDE_UNIT * ramp / 99);
    }
    assert_eq!(pcm.samples[7999], 0);

    // Serializing with 16-bit signed samples: 44 header bytes plus two
    // bytes per sample, with the canonical RIFF fields.
    let wave = Wave { pcm, sample_type: SampleType::Signed16 };
    let bytes = wave.write().unwrap();
    assert_eq!(bytes.len(), 44 + 16000);
    assert_eq!(&bytes[0..4], &b"RIFF"[..]);
    assert_eq!(le32(&bytes, 4), 16036);
    assert_eq!(&bytes[8..12], &b"WAVE"[..]);
    assert_eq!(&bytes[12..16], &b"fmt "[..]);
    assert_eq!(le32(&bytes, 16), 16);
    assert_eq!(le16(&bytes, 20), 1);
    assert_eq!(le16(&bytes, 22), 1);
    assert_eq!(le32(&bytes, 24), 8000);
    assert_eq!(le32(&bytes, 28), 16000);
    assert_eq!(le16(&bytes, 32), 2);
    assert_eq!(le16(&bytes, 34), 16);
    assert_eq!(&bytes[36..40], &b"data"[..]);
    assert_eq!(le32(&bytes, 40), 16000);
    // The loudest sample maps to full scale.
    assert_eq!(le16(&bytes, 44), 32767);
    // The silenced last sample maps to level zero.
    assert_eq!(le16(&bytes, 44 + 2 * 7999), 0);
}

#[test]
fn run_superposes_overlapping_notes() {
    // Two overlapping notes on the same instrument and frequency, one at
    // half force, one at full force.
    let mut seq = Sequence::new();
    seq.add_note(Note {
        t_span: span_us(0, 1_000_000),
        vel: Velocity { on: Some(Volume::new(16384).unwrap()), off: None },
        f_id: 0,
        i_id: 0,
    });
    seq.add_note(Note {
        t_span: span_us(500_000, 1_500_000),
        vel: Velocity { on: None, off: None },
        f_id: 0,
        i_id: 0,
    });
    let mut synth = constant_synthesizer(seq);
    let pcm = synth.run().unwrap();
    assert_eq!(pcm.samples.len(), 12000);
    // Before the overlap: only the half-force note sounds.
    assert_eq!(pcm.samples[1000], AMPLITUDE_UNIT / 2);
    // Inside the overlap each sample is the sum of both contributions,
    // each scaled by its own gain.
    assert_eq!(pcm.samples[6000], AMPLITUDE_UNIT / 2 + AMPLITUDE_UNIT);
    // After the first note ends: only the full-force note sounds.
    assert_eq!(pcm.samples[9000], AMPLITUDE_UNIT);
}

#[test]
fn run_rejects_empty_sequence() {
    let mut synth = constant_synthesizer(Sequence::new());
    match synth.run() {
        Err(SynthesizerError::EmptySequence(_)) => {},
        other => panic!("expected an empty-sequence failure, got {:?}", other.map(|_| ())),
    }
}

#[test]
fn run_rejects_unknown_instrument() {
    let mut seq = Sequence::new();
    seq.add_note(Note {
        t_span: span_us(0, 1_000_000),
        vel: Velocity { on: None, off: None },
        f_id: 0,
        i_id: 9,
    });
    let mut synth = constant_synthesizer(seq);
    match synth.run() {
        Err(SynthesizerError::NoInstrument(e)) => assert_eq!(e.i_id, 9),
        other => panic!("expected a missing instrument, got {:?}", other.map(|_| ())),
    }
}

#[test]
fn run_rejects_unknown_frequency() {
    let mut seq = Sequence::new();
    seq.add_note(Note {
        t_span: span_us(0, 1_000_000),
        vel: Velocity { on: None, off: None },
        f_id: 5,
        i_id: 0,
    });
    let mut synth = constant_synthesizer(seq);
    match synth.run() {
        Err(SynthesizerError::NoFrequencyForID(e)) => assert_eq!(e.id, 5),
        other => panic!("expected a lookup failure, got {:?}", other.map(|_| ())),
    }
}

#[test]
fn get_extreme_finds_peak_magnitude() {
    let pcm = PCM {
        parameters: PCMParameters { sample_rate: 8000, nb_channels: 1 },
        loop_info: Vec::new(),
        samples: vec![5, -90, 40],
    };
    assert_eq!(pcm.get_extreme().unwrap(), 90);
    let empty = PCM {
        parameters: PCMParameters { sample_rate: 8000, nb_channels: 1 },
        loop_info: Vec::new(),
        samples: Vec::new(),
    };
    assert!(empty.get_extreme().is_err());
}

#[test]
fn write_rejects_empty_stream() {
    let wave = Wave {
        pcm: PCM {
            parameters: PCMParameters { sample_rate: 8000, nb_channels: 1 },
            loop_info: Vec::new(),
            samples: Vec::new(),
        },
        sample_type: SampleType::Unsigned8,
    };
    assert!(wave.write().is_err());
}

#[test]
fn sample_types_expose_size_and_max() {
    assert_eq!(SampleType::Unsigned8.get_sample_size(), 1);
    assert_eq!(SampleType::Signed16.get_sample_size(), 2);
    assert_eq!(SampleType::Signed32.get_sample_size(), 4);
    assert_eq!(SampleType::Unsigned8.get_max_value(), 255);
    assert_eq!(SampleType::Signed16.get_max_value(), 32767);
    assert_eq!(SampleType::Signed32.get_max_value(), 2147483647);
}

fn encode_decode(samples: Vec<i128>, st: SampleType) -> Vec<f64> {
    let peak = {
        let mut p: i128 = 0;
        for s in &samples {
            if s.abs() > p {
                p = s.abs();
            }
        }
        p
    };
    let wave = Wave {
        pcm: PCM {
            parameters: PCMParameters { sample_rate: 8000, nb_channels: 1 },
            loop_info: Vec::new(),
            samples: samples.clone(),
        },
        sample_type: st,
    };
    let bytes = wave.write().unwrap();
    let data = &bytes[44..];
    let mut decoded = Vec::new();
    for i in 0..samples.len() {
        let x = match st {
            SampleType::Unsigned8 => (data[i] as f64) / 255.0 * 2.0 - 1.0,
            SampleType::Signed16 => {
                let w = le16(data, 2 * i) as u16 as i16;
                (w as f64) / 32767.0
            },
            SampleType::Signed32 => {
                let w = le32(data, 4 * i) as i32;
                (w as f64) / 2147483647.0
            },
        };
        // Undo the peak normalization to recover the amplitude.
        decoded.push(x * peak as f64);
    }
    decoded
}

#[test]
fn quantization_round_trips_within_one_step() {
    // A stream with one known peak: decoding recovers every sample to
    // within one quantization step of the original amplitude.
    let samples: Vec<i128> = vec![777, -AMPLITUDE_UNIT, AMPLITUDE_UNIT, 0, -12345, 30000];
    let peak = AMPLITUDE_UNIT as f64;
    for (st, levels) in [
        (SampleType::Unsigned8, 127.5),
        (SampleType::Signed16, 32767.0),
        (SampleType::Signed32, 2147483647.0),
    ] {
        let decoded = encode_decode(samples.clone(), st);
        let step = peak / levels;
        for (orig, dec) in samples.iter().zip(decoded.iter()) {
            assert!(
                (*orig as f64 - dec).abs() <= step,
                "{:?}: {} decoded as {} (step {})",
                st,
                orig,
                dec,
                step
            );
        }
    }
}

#[test]
fn force_unit_is_half_amplitude_scale() {
    assert_eq!(FORCE_UNIT as i128, AMPLITUDE_UNIT);
}
