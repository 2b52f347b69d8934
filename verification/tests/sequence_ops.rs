use wavesynth::error::SynthesizerError;
use wavesynth::instrument::Instrument;
use wavesynth::key_generator::SquareWaveGenerator;
use wavesynth::sequence::{Note, Sequence, Velocity};
use wavesynth::util::{Time, TimeSpan};

fn span(start_s: u64, end_s: u64) -> TimeSpan {
    let s = Time::new((start_s * 1_000_000) as i64).unwrap();
    let e = Time::new((end_s * 1_000_000) as i64).unwrap();
    TimeSpan::new(s, e).unwrap()
}

fn note(start_s: u64, end_s: u64, f_id: usize, i_id: usize) -> Note {
    Note { t_span: span(start_s, end_s), vel: Velocity { on: None, off: None }, f_id, i_id }
}

#[test]
fn empty_sequence_has_no_duration() {
    let seq = Sequence::new();
    assert!(seq.calc_music_duration().is_err());
}

#[test]
fn music_duration_is_latest_end() {
    // Notes ending at 2, 5 and 3 seconds: the duration is 5 seconds.
    let mut seq = Sequence::new();
    seq.add_note(note(0, 2, 0, 0));
    seq.add_note(note(1, 5, 0, 0));
    seq.add_note(note(2, 3, 0, 0));
    assert_eq!(seq.calc_music_duration().unwrap().get(), 5_000_000);
}

#[test]
fn sort_by_time_orders_notes_chronologically() {
    let mut seq = Sequence::new();
    seq.add_note(note(4, 6, 1, 0));
    seq.add_note(note(1, 2, 2, 0));
    seq.add_note(note(3, 9, 3, 0));
    seq.sort_by_time();
    let starts: Vec<u64> = seq.notes.iter().map(|n| n.t_span.start_at().get()).collect();
    assert_eq!(starts, vec![1_000_000, 3_000_000, 4_000_000]);
    let ids: Vec<usize> = seq.notes.iter().map(|n| n.f_id).collect();
    assert_eq!(ids, vec![2, 3, 1]);
}

#[test]
fn list_freq_by_inst_keeps_longest_duration() {
    let mut seq = Sequence::new();
    seq.add_note(note(0, 2, 10, 1));
    seq.add_note(note(0, 7, 10, 1));
    seq.add_note(note(1, 4, 10, 1));
    seq.add_note(note(0, 3, 11, 1));
    seq.add_note(note(0, 1, 10, 2));
    let list = seq.list_freq_by_inst();
    assert_eq!(list.len(), 2);
    let (i_id, freqs) = &list[0];
    assert_eq!(*i_id, 1);
    assert_eq!(freqs.len(), 2);
    assert_eq!(freqs[0].0, 10);
    // Frequency 10 on instrument 1 must be synthesized for its longest
    // demand: 7 seconds.
    assert_eq!(freqs[0].1.get(), 7_000_000);
    assert_eq!(freqs[1].0, 11);
    assert_eq!(freqs[1].1.get(), 3_000_000);
    let (i_id, freqs) = &list[1];
    assert_eq!(*i_id, 2);
    assert_eq!(freqs.len(), 1);
    assert_eq!(freqs[0].1.get(), 1_000_000);
}

#[test]
fn get_volume_fans_out_press_velocity() {
    let mut n = note(0, 1, 0, 0);
    n.vel.on = Some(wavesynth::util::Volume::new(12000).unwrap());
    let vols = n.get_volume(3);
    assert_eq!(vols.len(), 3);
    for v in vols {
        assert_eq!(v.get(), 12000);
    }
    let silent_default = note(0, 1, 0, 0).get_volume(2);
    assert_eq!(silent_default.len(), 2);
    for v in silent_default {
        assert_eq!(v.get(), wavesynth::util::FORCE_UNIT);
    }
}

#[test]
fn gen_sound_without_key_fails() {
    let inst: Instrument<SquareWaveGenerator> = Instrument {
        keys: std::collections::HashMap::new(),
        key_gen: SquareWaveGenerator {},
        loopable: true,
    };
    let d = Time::new(1_000_000).unwrap();
    match inst.gen_sound(42, d) {
        Err(SynthesizerError::NoKeyInInstrument(e)) => assert_eq!(e.f_id, 42),
        other => panic!("expected a missing key, got {:?}", other.map(|_| ())),
    }
}

#[test]
fn gen_keys_caches_and_gen_sound_loops() {
    let mut inst: Instrument<SquareWaveGenerator> = Instrument {
        keys: std::collections::HashMap::new(),
        key_gen: SquareWaveGenerator {},
        loopable: true,
    };
    // 1 kHz at 8000 samples per second: the period is 8 samples.
    let table = vec![Time::from_ticks(1_000_000)];
    let demand = vec![(0usize, Time::new(1_000_000).unwrap())];
    inst.gen_keys(8000, &demand, &table).unwrap();
    assert!(inst.keys.contains_key(&0));
    assert_eq!(inst.keys[&0].audio.samples.len(), 8000);
    let sound = inst.gen_sound(0, Time::new(2_000_000).unwrap()).unwrap();
    assert_eq!(sound.samples.len(), 16000);
    // The rendition wraps the key buffer at its last sample.
    let key = &inst.keys[&0].audio.samples;
    for j in 0..16000usize {
        assert_eq!(sound.samples[j], key[j % (key.len() - 1)]);
    }
}

#[test]
fn gen_keys_fails_on_unknown_frequency() {
    let mut inst: Instrument<SquareWaveGenerator> = Instrument {
        keys: std::collections::HashMap::new(),
        key_gen: SquareWaveGenerator {},
        loopable: true,
    };
    let table: Vec<Time> = vec![];
    let demand = vec![(3usize, Time::new(1_000_000).unwrap())];
    match inst.gen_keys(8000, &demand, &table) {
        Err(SynthesizerError::NoFrequencyForID(e)) => assert_eq!(e.id, 3),
        other => panic!("expected a lookup failure, got {:?}", other),
    }
}
