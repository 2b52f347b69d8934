use wavesynth::error::SynthesizerError;
use wavesynth::frequency_lookup::{FrequencyLookup, MIDIFrequencyLookup};
use wavesynth::util::{Time, TimeSpan, Volume, FORCE_UNIT, TICKS_PER_SECOND};

#[test]
fn time_new_accepts_non_negative() {
    let t = Time::new(0).unwrap();
    assert_eq!(t.get(), 0);
    let t = Time::new(5_000_000).unwrap();
    assert_eq!(t.get(), 5_000_000);
    let t = Time::new(i64::MAX).unwrap();
    assert_eq!(t.get(), i64::MAX as u64);
}

#[test]
fn time_new_rejects_negative() {
    let e = Time::new(-1).unwrap_err();
    assert_eq!(e.value, -1);
    let e = Time::new(i64::MIN).unwrap_err();
    assert_eq!(e.value, i64::MIN as i128);
}

#[test]
fn time_compare_orders_ticks() {
    let a = Time::new(1).unwrap();
    let b = Time::new(2).unwrap();
    assert_eq!(a.compare(b), std::cmp::Ordering::Less);
    assert_eq!(b.compare(a), std::cmp::Ordering::Greater);
    assert_eq!(a.compare(a), std::cmp::Ordering::Equal);
}

#[test]
fn timespan_new_derives_duration() {
    let s = Time::new(1_000_000).unwrap();
    let e = Time::new(3_500_000).unwrap();
    let ts = TimeSpan::new(s, e).unwrap();
    assert_eq!(ts.start_at().get(), 1_000_000);
    assert_eq!(ts.end_at().get(), 3_500_000);
    assert_eq!(ts.duration().get(), 2_500_000);
}

#[test]
fn timespan_new_rejects_inverted_or_empty() {
    let s = Time::new(2_000_000).unwrap();
    let e = Time::new(1_000_000).unwrap();
    assert!(TimeSpan::new(s, e).is_err());
    assert!(TimeSpan::new(s, s).is_err());
}

#[test]
fn timespan_new_rel_round_trip() {
    // The end point of a relative span is exactly start plus duration.
    let s = Time::new(1_250_000).unwrap();
    let d = Time::new(2_000_000).unwrap();
    let ts = TimeSpan::new_rel(s, d).unwrap();
    assert_eq!(ts.end_at().get(), s.get() + d.get());
    assert_eq!(ts.duration().get(), 2_000_000);
}

#[test]
fn timespan_new_rel_rejects_zero_duration() {
    let s = Time::new(1_000_000).unwrap();
    let zero = Time::new(0).unwrap();
    assert!(TimeSpan::new_rel(s, zero).is_err());
}

#[test]
fn timespan_new_rel_rejects_unrepresentable_end() {
    let s = Time::from_ticks(u64::MAX);
    let d = Time::new(1).unwrap();
    assert!(TimeSpan::new_rel(s, d).is_err());
}

#[test]
fn volume_accepts_unit_range() {
    assert_eq!(Volume::new(0).unwrap().get(), 0);
    assert_eq!(Volume::new(12345).unwrap().get(), 12345);
    assert_eq!(Volume::new(FORCE_UNIT as i64).unwrap().get(), FORCE_UNIT);
    assert_eq!(Volume::full().get(), FORCE_UNIT);
}

#[test]
fn volume_rejects_outside_unit_range() {
    let e = Volume::new(-1).unwrap_err();
    assert_eq!(e.value, -1);
    let e = Volume::new(FORCE_UNIT as i64 + 1).unwrap_err();
    assert_eq!(e.value, FORCE_UNIT as i64 + 1);
}

#[test]
fn ticks_per_second_is_microseconds() {
    assert_eq!(TICKS_PER_SECOND, 1_000_000);
}

#[test]
fn midi_lookup_hits_reference_pitches() {
    let lu = MIDIFrequencyLookup {};
    // Key 69 is the 440 Hz reference; each octave doubles.
    assert_eq!(lu.get_freq(69).unwrap().get(), 440_000);
    assert_eq!(lu.get_freq(81).unwrap().get(), 880_000);
    assert_eq!(lu.get_freq(57).unwrap().get(), 220_000);
    assert_eq!(lu.get_freq(9).unwrap().get(), 13_750);
}

#[test]
fn midi_lookup_rejects_unrepresentable_keys() {
    let lu = MIDIFrequencyLookup {};
    match lu.get_freq(100_000) {
        Err(SynthesizerError::NoFrequencyForID(e)) => assert_eq!(e.id, 100_000),
        other => panic!("expected a lookup failure, got {:?}", other),
    }
}

#[test]
fn vec_lookup_resolves_by_index() {
    let table = vec![Time::from_ticks(440_000), Time::from_ticks(880_000)];
    assert_eq!(table.get_freq(1).unwrap().get(), 880_000);
    match table.get_freq(2) {
        Err(SynthesizerError::NoFrequencyForID(e)) => assert_eq!(e.id, 2),
        other => panic!("expected a lookup failure, got {:?}", other),
    }
}

#[test]
fn hashmap_lookup_resolves_by_key() {
    let mut table = std::collections::HashMap::new();
    table.insert(7usize, Time::from_ticks(123_000));
    assert_eq!(table.get_freq(7).unwrap().get(), 123_000);
    assert!(table.get_freq(8).is_err());
}
