use vstd::prelude::*;

use crate::error::{NoFrequencyForIDError, SynthesizerError};
use crate::util::{Frequency, Time};
use std::collections::HashMap;

verus! {

/// Provides a frequency value from a frequency identifier. The core only
/// depends on this capability, never on a concrete implementation: a table,
/// a mapping, or a formula all fit.
pub trait FrequencyLookup {
    /// The frequency this lookup gives for `id`, in millihertz, or nothing
    /// when the lookup has no mapping for it.
    spec fn spec_freq(&self, id: usize) -> Option<u64>;

    /// Does the link between the identifier and the frequency value; fails
    /// exactly on the identifiers this lookup has no mapping for.
    fn get_freq(&self, id: usize) -> (r: Result<Frequency, SynthesizerError>)
        ensures
            match r {
                Ok(f) => self.spec_freq(id) == Some(f@),
                Err(e) => self.spec_freq(id) is None,
            },
    ;
}

impl FrequencyLookup for Vec<Frequency> {
    open spec fn spec_freq(&self, id: usize) -> Option<u64> {
        if id < self@.len() {
            Some(self@[id as int]@)
        } else {
            None
        }
    }

    fn get_freq(&self, id: usize) -> (r: Result<Frequency, SynthesizerError>) {
        if id < self.len() {
            Ok(self[id])
        } else {
            Err(SynthesizerError::NoFrequencyForID(NoFrequencyForIDError { id }))
        }
    }
}

impl FrequencyLookup for HashMap<usize, Frequency> {
    open spec fn spec_freq(&self, id: usize) -> Option<u64> {
        if self@.contains_key(id) {
            Some(self@[id]@)
        } else {
            None
        }
    }

    fn get_freq(&self, id: usize) -> (r: Result<Frequency, SynthesizerError>) {
        broadcast use vstd::std_specs::hash::group_hash_axioms;

        match self.get(&id) {
            Some(f) => Ok(*f),
            None => Err(SynthesizerError::NoFrequencyForID(NoFrequencyForIDError { id })),
        }
    }
}

/// The frequency of semitone `m` (between 0 and 11) of the lowest octave of
/// the equal-tempered scale used by [`MIDIFrequencyLookup`], in millihertz.
/// Semitone 9 of octave 5 is the reference pitch of 440 hertz.
pub open spec fn spec_midi_base(m: int) -> u64 {
    if m == 0 {
        8176
    } else if m == 1 {
        8662
    } else if m == 2 {
        9177
    } else if m == 3 {
        9723
    } else if m == 4 {
        10301
    } else if m == 5 {
        10913
    } else if m == 6 {
        11562
    } else if m == 7 {
        12250
    } else if m == 8 {
        12978
    } else if m == 9 {
        13750
    } else if m == 10 {
        14568
    } else {
        15434
    }
}

/// The frequency of MIDI-style key `id` in millihertz: the base semitone of
/// `id` doubled once per octave, or nothing when the doubled value no
/// longer fits the frequency scalar.
pub open spec fn spec_midi_freq(id: usize) -> Option<u64> {
    let oct = id as int / 12;
    let base = spec_midi_base(id as int % 12) as u128;
    if oct < 64 && (base << (oct as u128)) <= u64::MAX {
        Some((base << (oct as u128)) as u64)
    } else {
        None
    }
}

/// Example implementation of FrequencyLookup for MIDI-style key numbers:
/// each octave doubles the pitch, and key 69 resolves to 440 hertz.
#[derive(Clone, Copy, Debug)]
pub struct MIDIFrequencyLookup {}

impl FrequencyLookup for MIDIFrequencyLookup {
    open spec fn spec_freq(&self, id: usize) -> Option<u64> {
        spec_midi_freq(id)
    }

    fn get_freq(&self, id: usize) -> (r: Result<Frequency, SynthesizerError>) {
        let oct = id / 12;
        let base = midi_base(id % 12);
        if oct >= 64 {
            return Err(SynthesizerError::NoFrequencyForID(NoFrequencyForIDError { id }));
        }
        let v: u128 = (base as u128) << oct;
        if v > u64::MAX as u128 {
            Err(SynthesizerError::NoFrequencyForID(NoFrequencyForIDError { id }))
        } else {
            Ok(Time::from_ticks(v as u64))
        }
    }
}

/// The base semitone table behind [`spec_midi_base`], in executable form.
fn midi_base(m: usize) -> (r: u64)
    requires
        m < 12,
    ensures
        r == spec_midi_base(m as int),
{
    if m == 0 {
        8176
    } else if m == 1 {
        8662
    } else if m == 2 {
        9177
    } else if m == 3 {
        9723
    } else if m == 4 {
        10301
    } else if m == 5 {
        10913
    } else if m == 6 {
        11562
    } else if m == 7 {
        12250
    } else if m == 8 {
        12978
    } else if m == 9 {
        13750
    } else if m == 10 {
        14568
    } else {
        15434
    }
}

} // verus!
