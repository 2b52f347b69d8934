use vstd::prelude::*;

verus! {

/// The main error type: everything that can fail while running the synthesizer.
#[derive(Clone, Copy, Debug, PartialEq, Eq, Structural)]
pub enum SynthesizerError {
    TimeInvalid(TimeInvalidError),
    NoFrequencyForID(NoFrequencyForIDError),
    ForceInvalid(ForceInvalidError),
    EmptySequence(EmptySequenceError),
    NoInstrument(NoInstrumentError),
    NoKeyInInstrument(NoKeyInInstrumentError),
}

impl SynthesizerError {
    /// A short description of the failure, for reporting outside the library.
    pub fn description(&self) -> &'static str {
        match *self {
            SynthesizerError::TimeInvalid(ref e) => e.description(),
            SynthesizerError::NoFrequencyForID(ref e) => e.description(),
            SynthesizerError::ForceInvalid(ref e) => e.description(),
            SynthesizerError::EmptySequence(ref e) => e.description(),
            SynthesizerError::NoInstrument(ref e) => e.description(),
            SynthesizerError::NoKeyInInstrument(ref e) => e.description(),
        }
    }
}

/// Raised when a value cannot be interpreted as a valid Time, Duration or
/// Frequency: a negative number of ticks, a non-positive span length, or a
/// derived end point beyond the representable range.
#[derive(Clone, Copy, Debug, PartialEq, Eq, Structural)]
pub struct TimeInvalidError {
    /// The offending value, in ticks.
    pub value: i128,
}

impl TimeInvalidError {
    pub fn description(&self) -> &'static str {
        "A provided value cannot be interpreted as a valid Time, Frequency or Duration"
    }
}

/// Raised when the frequency lookup has no mapping for a requested identifier.
#[derive(Clone, Copy, Debug, PartialEq, Eq, Structural)]
pub struct NoFrequencyForIDError {
    /// The identifier that has no mapping.
    pub id: usize,
}

impl NoFrequencyForIDError {
    pub fn description(&self) -> &'static str {
        "The Frequency Lookup failed, the provided ID was invalid"
    }
}

/// Raised when a value that had to be interpreted as a force was not inside
/// the unit range.
#[derive(Clone, Copy, Debug, PartialEq, Eq, Structural)]
pub struct ForceInvalidError {
    /// The offending value, in force units.
    pub value: i64,
}

impl ForceInvalidError {
    pub fn description(&self) -> &'static str {
        "A value that was tried to be used as a force was not valid for this purpose."
    }
}

/// Raised when an aggregate computation is tried on a sequence with no notes.
#[derive(Clone, Copy, Debug, PartialEq, Eq, Structural)]
pub struct EmptySequenceError {}

impl EmptySequenceError {
    pub fn description(&self) -> &'static str {
        "Tried to perform operations on an empty Sequence"
    }
}

/// Raised when no instrument exists for a requested identifier.
#[derive(Clone, Copy, Debug, PartialEq, Eq, Structural)]
pub struct NoInstrumentError {
    /// The identifier that has no instrument.
    pub i_id: usize,
}

impl NoInstrumentError {
    pub fn description(&self) -> &'static str {
        "An instrument could not be found for a specified ID."
    }
}

/// Raised when an instrument holds no key for a requested frequency
/// identifier.
#[derive(Clone, Copy, Debug, PartialEq, Eq, Structural)]
pub struct NoKeyInInstrumentError {
    /// The frequency identifier that has no key.
    pub f_id: usize,
}

impl NoKeyInInstrumentError {
    pub fn description(&self) -> &'static str {
        "A key could not be found for a Frequency ID in an Instrument."
    }
}

/// Raised when encoding is attempted on a stream with no samples.
#[derive(Clone, Copy, Debug, PartialEq, Eq, Structural)]
pub struct NoSamplesError {}

impl NoSamplesError {
    pub fn description(&self) -> &'static str {
        "Tried to encode a PCM stream that holds no samples"
    }
}

} // verus!
