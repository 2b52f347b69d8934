use vstd::prelude::*;

use crate::error::NoSamplesError;
use crate::util::TimeSpan;

verus! {

/// Fixed-point unit for amplitudes. A sample of `AMPLITUDE_UNIT` stands for
/// a full positive swing, `-AMPLITUDE_UNIT` for a full negative one.
/// Instrument-internal streams are normalized to that range; the
/// synthesizer's output stream is unnormalized and is only scaled back at
/// encoding time.
pub const AMPLITUDE_UNIT: i128 = 32768;

/// Parameters of a PCM stream.
#[derive(Clone, Copy, Debug, PartialEq, Eq, Structural)]
pub struct PCMParameters {
    /// How many samples per second.
    pub sample_rate: u32,
    /// How many channels.
    pub nb_channels: u16,
}

/// Holds PCM data as fixed-point amplitudes, interleaved by channel.
#[derive(Clone, Debug)]
pub struct PCM {
    /// Information about the stream.
    pub parameters: PCMParameters,
    /// Where the music loops, if it does; empty otherwise.
    pub loop_info: Vec<TimeSpan>,
    /// The raw samples, in amplitude units.
    pub samples: Vec<i128>,
}

/// How many samples cover `ticks` ticks at `sample_rate` samples per
/// second: ticks·rate/TICKS_PER_SECOND, rounded to the nearest whole
/// sample (half rounds up).
pub open spec fn spec_sample_count(ticks: int, sample_rate: int) -> int {
    (ticks * sample_rate + (crate::util::TICKS_PER_SECOND as int) / 2) / (
    crate::util::TICKS_PER_SECOND as int)
}

/// Computes how many samples cover the given duration at the given sample
/// rate.
pub fn sample_count(duration: crate::util::Duration, sample_rate: u32) -> (n: usize)
    requires
        spec_sample_count(duration@ as int, sample_rate as int) <= usize::MAX,
    ensures
        n == spec_sample_count(duration@ as int, sample_rate as int),
{
    let num: u128 = duration.get() as u128 * sample_rate as u128 + (crate::util::TICKS_PER_SECOND
        as u128) / 2;
    proof {
        vstd::arithmetic::div_mod::lemma_div_pos_is_pos(num as int, crate::util::TICKS_PER_SECOND
            as int);
    }
    (num / (crate::util::TICKS_PER_SECOND as u128)) as usize
}

/// A quotient of a nonnegative numerator stays below any multiple of the
/// denominator that bounds the numerator.
pub proof fn lemma_div_bound(n: int, d: int, m: int)
    requires
        0 <= n,
        0 < d,
        n <= m * d,
    ensures
        0 <= n / d <= m,
{
    vstd::arithmetic::div_mod::lemma_div_pos_is_pos(n, d);
    vstd::arithmetic::div_mod::lemma_div_is_ordered(n, m * d, d);
    vstd::arithmetic::div_mod::lemma_div_multiples_vanish(m, d);
    assert(m * d == d * m) by (nonlinear_arith);
}

/// `n` divided by `d`, truncated toward zero, as Rust's integer division
/// does it on signed values.
pub open spec fn spec_div_trunc(n: int, d: int) -> int {
    if n >= 0 {
        n / d
    } else {
        -((-n) / d)
    }
}

/// A quotient of a nonnegative numerator strictly below `(m + 1)·d` stays
/// at or below `m`.
pub proof fn lemma_div_bound_strict(n: int, d: int, m: int)
    requires
        0 <= n,
        0 < d,
        0 <= m,
        n < (m + 1) * d,
    ensures
        0 <= n / d <= m,
{
    vstd::arithmetic::div_mod::lemma_div_pos_is_pos(n, d);
    vstd::arithmetic::div_mod::lemma_fundamental_div_mod(n, d);
    if n / d > m {
        assert(d * (n / d) >= (m + 1) * d) by (nonlinear_arith)
            requires
                n / d >= m + 1,
                d > 0,
        ;
        vstd::arithmetic::div_mod::lemma_mod_bound(n, d);
        assert(false);
    }
}

/// Scaling by a fraction of at most one, truncating toward zero, never
/// leaves the band the value came from.
pub proof fn lemma_div_trunc_scale_bound(v: int, num: int, den: int, b: int)
    requires
        0 <= num <= den,
        0 < den,
        -b <= v <= b,
    ensures
        -b <= spec_div_trunc(v * num, den) <= b,
{
    if v >= 0 {
        assert(0 <= v * num <= b * den) by (nonlinear_arith)
            requires
                0 <= v <= b,
                0 <= num <= den,
        ;
        lemma_div_bound(v * num, den, b);
    } else {
        assert(v * num <= 0 && -(v * num) <= b * den) by (nonlinear_arith)
            requires
                -b <= v < 0,
                0 <= num <= den,
        ;
        lemma_div_bound(-(v * num), den, b);
    }
}

/// Scales the amplitude `v` by the fraction num/den, truncating toward
/// zero. When the fraction is at most one, the result is no louder than
/// the input.
pub fn scale_trunc(v: i128, num: u32, den: u32) -> (r: i128)
    requires
        den > 0,
        num <= crate::util::FORCE_UNIT,
        -AMPLITUDE_UNIT <= v <= AMPLITUDE_UNIT,
    ensures
        r == spec_div_trunc(v * num, den as int),
        num <= den ==> -AMPLITUDE_UNIT <= r <= AMPLITUDE_UNIT && vstd::math::abs(r as int)
            <= vstd::math::abs(v as int),
{
    let mag: u128 = if v < 0 {
        (-v) as u128
    } else {
        v as u128
    };
    proof {
        assert(mag as int * num as int <= AMPLITUDE_UNIT * crate::util::FORCE_UNIT)
            by (nonlinear_arith)
            requires
                0 <= mag <= AMPLITUDE_UNIT,
                0 <= num <= crate::util::FORCE_UNIT,
        ;
    }
    let scaled: u128 = mag * (num as u128) / (den as u128);
    proof {
        vstd::arithmetic::div_mod::lemma_div_pos_is_pos(mag as int * num as int, den as int);
        vstd::arithmetic::div_mod::lemma_div_nonincreasing(mag as int * num as int, den as int);
        if num <= den {
            assert(mag as int * num as int <= mag as int * den as int) by (nonlinear_arith)
                requires
                    num <= den,
                    0 <= mag,
            ;
            vstd::arithmetic::div_mod::lemma_div_is_ordered(
                mag as int * num as int,
                mag as int * den as int,
                den as int,
            );
            assert(mag as int * den as int == den as int * mag as int) by (nonlinear_arith);
            vstd::arithmetic::div_mod::lemma_div_multiples_vanish(mag as int, den as int);
        }
    }
    proof {
        if v < 0 {
            assert(v as int * num as int == -(mag as int * num as int)) by (nonlinear_arith)
                requires
                    mag as int == -(v as int),
            ;
        } else {
            assert(v as int * num as int == mag as int * num as int) by (nonlinear_arith)
                requires
                    mag as int == v as int,
            ;
        }
    }
    if v < 0 {
        -(scaled as i128)
    } else {
        scaled as i128
    }
}

/// The magnitude of the loudest sample of `s`: the peak every encoding is
/// normalized against. Zero for an empty stream.
pub open spec fn spec_peak(s: Seq<i128>) -> int
    decreases s.len(),
{
    if s.len() == 0 {
        0
    } else {
        let rest = spec_peak(s.drop_last());
        let a = vstd::math::abs(s.last() as int) as int;
        if a > rest {
            a
        } else {
            rest
        }
    }
}

/// The peak bounds every sample of the stream, and a non-empty stream
/// reaches it.
pub proof fn lemma_peak_bounds(s: Seq<i128>)
    ensures
        spec_peak(s) >= 0,
        forall|i: int| 0 <= i < s.len() ==> vstd::math::abs(#[trigger] s[i] as int) <= spec_peak(s),
        s.len() > 0 ==> exists|i: int|
            0 <= i < s.len() && vstd::math::abs(#[trigger] s[i] as int) == spec_peak(s),
    decreases s.len(),
{
    if s.len() > 0 {
        lemma_peak_bounds(s.drop_last());
        assert(forall|i: int| 0 <= i < s.len() - 1 ==> s.drop_last()[i] == s[i]);
        if vstd::math::abs(s.last() as int) >= spec_peak(s.drop_last()) {
            assert(vstd::math::abs(s[s.len() - 1] as int) == spec_peak(s));
        } else {
            let i = choose|i: int|
                0 <= i < s.drop_last().len() && vstd::math::abs(
                    #[trigger] s.drop_last()[i] as int,
                ) == spec_peak(s.drop_last());
            assert(vstd::math::abs(s[i] as int) == spec_peak(s));
        }
    }
}

impl PCM {
    /// Returns the magnitude of the loudest sample; fails when the stream
    /// holds no samples at all.
    pub fn get_extreme(&self) -> (r: Result<i128, NoSamplesError>)
        requires
            forall|i: int| 0 <= i < self.samples@.len() ==> #[trigger] self.samples@[i]
                > i128::MIN,
        ensures
            match r {
                Ok(e) => self.samples@.len() > 0 && e == spec_peak(self.samples@),
                Err(_) => self.samples@.len() == 0,
            },
    {
        let mut extreme: Option<i128> = None;
        let mut idx: usize = 0;
        while idx < self.samples.len()
            invariant
                idx <= self.samples@.len(),
                forall|i: int| 0 <= i < self.samples@.len() ==> #[trigger] self.samples@[i]
                    > i128::MIN,
                match extreme {
                    Some(e) => idx > 0 && e == spec_peak(self.samples@.take(idx as int)),
                    None => idx == 0,
                },
            decreases self.samples@.len() - idx,
        {
            let sample = self.samples[idx];
            let magnitude = if sample < 0 {
                -sample
            } else {
                sample
            };
            proof {
                assert(self.samples@.take(idx + 1).drop_last() =~= self.samples@.take(idx as int));
                assert(self.samples@.take(idx + 1).last() == self.samples@[idx as int]);
                assert(magnitude == vstd::math::abs(self.samples@[idx as int] as int));
                assert(spec_peak(self.samples@.take(idx + 1)) == {
                    let rest = spec_peak(self.samples@.take(idx as int));
                    if magnitude as int > rest {
                        magnitude as int
                    } else {
                        rest
                    }
                });
            }
            match extreme {
                None => {
                    extreme = Some(magnitude);
                },
                Some(e) => {
                    if magnitude > e {
                        extreme = Some(magnitude);
                    }
                },
            }
            idx = idx + 1;
        }
        proof {
            assert(self.samples@.take(self.samples@.len() as int) =~= self.samples@);
        }
        match extreme {
            Some(e) => Ok(e),
            None => Err(NoSamplesError {}),
        }
    }
}

} // verus!
