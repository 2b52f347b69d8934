use vstd::prelude::*;

use crate::error::{ForceInvalidError, TimeInvalidError};

verus! {

/// Number of ticks in one second: times and durations are whole microseconds.
pub const TICKS_PER_SECOND: u64 = 1_000_000;

/// Fixed-point unit for forces and per-channel gains: a force of
/// `FORCE_UNIT` means full loudness, `0` means silence.
pub const FORCE_UNIT: u32 = 32768;

/// A frequency, stored in the same scalar as Time; its value is in
/// millihertz (one thousandth of a hertz).
pub type Frequency = Time;

/// A length of time; same representation and validity as Time.
pub type Duration = Time;

/// A validated point in time. The contained value is a whole number of
/// ticks (microseconds) and is non-negative by construction.
#[derive(Clone, Copy, Debug, PartialEq, Eq, Structural)]
pub struct Time {
    /// The value contained, in ticks.
    value: u64,
}

impl View for Time {
    type V = u64;

    closed spec fn view(&self) -> u64 {
        self.value
    }
}

impl Time {
    /// Creates a new Time by providing the time in ticks; rejects negative
    /// values.
    pub fn new(value: i64) -> (r: Result<Time, TimeInvalidError>)
        ensures
            match r {
                Ok(t) => value >= 0 && t@ == value,
                Err(e) => value < 0 && e.value == value,
            },
    {
        if value >= 0 {
            Ok(Time { value: value as u64 })
        } else {
            Err(TimeInvalidError { value: value as i128 })
        }
    }

    /// Creates a Time directly from a tick count; a whole number of ticks
    /// is always a valid time.
    pub fn from_ticks(value: u64) -> (r: Time)
        ensures
            r@ == value,
    {
        Time { value }
    }

    /// Returns the value, in ticks.
    pub fn get(self) -> (r: u64)
        ensures
            r == self@,
    {
        self.value
    }

    /// Compares to another time.
    pub fn compare(self, other: Time) -> (r: core::cmp::Ordering)
        ensures
            match r {
                core::cmp::Ordering::Less => self@ < other@,
                core::cmp::Ordering::Equal => self@ == other@,
                core::cmp::Ordering::Greater => self@ > other@,
            },
    {
        if self.value < other.value {
            core::cmp::Ordering::Less
        } else if self.value > other.value {
            core::cmp::Ordering::Greater
        } else {
            core::cmp::Ordering::Equal
        }
    }
}

/// A validated time span: an interval that starts and ends at some point.
/// By construction its end is exactly its start plus its duration, and its
/// duration is strictly positive.
#[derive(Clone, Copy, Debug)]
pub struct TimeSpan {
    /// When the span starts.
    start_at: Time,
    /// When the span stops.
    end_at: Time,
    /// How long the span is.
    duration: Duration,
}

impl TimeSpan {
    #[verifier::type_invariant]
    spec fn wf(self) -> bool {
        self.end_at@ == self.start_at@ + self.duration@ && self.duration@ > 0
    }

    /// The start point, in ticks.
    pub closed spec fn spec_start(self) -> u64 {
        self.start_at@
    }

    /// The end point, in ticks.
    pub closed spec fn spec_end(self) -> u64 {
        self.end_at@
    }

    /// The length, in ticks.
    pub closed spec fn spec_duration(self) -> u64 {
        self.duration@
    }

    /// Creates a new TimeSpan from a start and an end point; the duration is
    /// derived and must come out strictly positive.
    pub fn new(start_at: Time, end_at: Time) -> (r: Result<TimeSpan, TimeInvalidError>)
        ensures
            match r {
                Ok(ts) => {
                    &&& start_at@ < end_at@
                    &&& ts.spec_start() == start_at@
                    &&& ts.spec_end() == end_at@
                    &&& ts.spec_duration() == end_at@ - start_at@
                },
                Err(e) => end_at@ <= start_at@ && e.value == end_at@ - start_at@,
            },
    {
        if start_at.value < end_at.value {
            Ok(TimeSpan {
                start_at,
                end_at,
                duration: Time { value: end_at.value - start_at.value },
            })
        } else {
            Err(TimeInvalidError { value: end_at.value as i128 - start_at.value as i128 })
        }
    }

    /// Creates a new TimeSpan from a start point and a duration; the end
    /// point is derived and must stay representable.
    pub fn new_rel(start_at: Time, duration: Duration) -> (r: Result<TimeSpan, TimeInvalidError>)
        ensures
            match r {
                Ok(ts) => {
                    &&& duration@ > 0
                    &&& start_at@ + duration@ <= u64::MAX
                    &&& ts.spec_start() == start_at@
                    &&& ts.spec_end() == start_at@ + duration@
                    &&& ts.spec_duration() == duration@
                },
                Err(e) => {
                    &&& (duration@ == 0 || start_at@ + duration@ > u64::MAX)
                    &&& e.value == start_at@ + duration@
                },
            },
    {
        if duration.value > 0 && start_at.value <= u64::MAX - duration.value {
            Ok(TimeSpan {
                start_at,
                end_at: Time { value: start_at.value + duration.value },
                duration,
            })
        } else {
            Err(TimeInvalidError { value: start_at.value as i128 + duration.value as i128 })
        }
    }

    /// Returns when the span starts, in ticks.
    pub fn start_at(&self) -> (r: Time)
        ensures
            r@ == self.spec_start(),
    {
        self.start_at
    }

    /// Returns when the span ends, in ticks. A span always ends after it
    /// starts.
    pub fn end_at(&self) -> (r: Time)
        ensures
            r@ == self.spec_end(),
            self.spec_end() == self.spec_start() + self.spec_duration(),
            self.spec_duration() > 0,
    {
        proof {
            use_type_invariant(self);
        }
        self.end_at
    }

    /// Returns how long the span is, in ticks. The duration is strictly
    /// positive and equals the distance from start to end.
    pub fn duration(&self) -> (r: Duration)
        ensures
            r@ == self.spec_duration(),
            self.spec_end() == self.spec_start() + self.spec_duration(),
            self.spec_duration() > 0,
    {
        proof {
            use_type_invariant(self);
        }
        self.duration
    }
}

/// Describes the loudness of a note. The value is forced into the unit
/// range: between `0` and `FORCE_UNIT` force units.
#[derive(Clone, Copy, Debug)]
pub struct Volume {
    value: u32,
}

impl View for Volume {
    type V = u32;

    closed spec fn view(&self) -> u32 {
        self.value
    }
}

impl Volume {
    #[verifier::type_invariant]
    spec fn wf(self) -> bool {
        self.value <= FORCE_UNIT
    }

    /// Creates a new Volume from a raw value in force units; rejects values
    /// outside the unit range.
    pub fn new(value: i64) -> (r: Result<Volume, ForceInvalidError>)
        ensures
            match r {
                Ok(v) => 0 <= value <= FORCE_UNIT && v@ == value,
                Err(e) => !(0 <= value <= FORCE_UNIT) && e.value == value,
            },
    {
        if 0 <= value && value <= FORCE_UNIT as i64 {
            Ok(Volume { value: value as u32 })
        } else {
            Err(ForceInvalidError { value })
        }
    }

    /// The loudest volume: one whole force unit.
    pub fn full() -> (r: Volume)
        ensures
            r@ == FORCE_UNIT,
    {
        Volume { value: FORCE_UNIT }
    }

    /// Returns the value, in force units; it never exceeds `FORCE_UNIT`.
    pub fn get(self) -> (r: u32)
        ensures
            r == self@,
            r <= FORCE_UNIT,
    {
        proof {
            use_type_invariant(self);
        }
        self.value
    }
}

} // verus!
