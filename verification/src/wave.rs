use vstd::prelude::*;

use crate::error::NoSamplesError;
use crate::pcm::{lemma_div_bound_strict, lemma_peak_bounds, spec_peak, PCM};

verus! {

/// The loudest amplitude the encoder accepts; a sample beyond this bound
/// could no longer be quantized without its arithmetic leaving the
/// machine's integer range.
pub const MAX_ENCODABLE_AMPLITUDE: i128 = 0x40000000000000000000000;

/// The type of sample encoding to use in the container.
#[derive(Clone, Copy, Debug, PartialEq, Eq, Structural)]
pub enum SampleType {
    /// 8-bit unsigned integer samples.
    Unsigned8,
    /// 16-bit signed integer samples.
    Signed16,
    /// 32-bit signed integer samples.
    Signed32,
}

impl SampleType {
    /// The size of a single encoded sample, in bytes.
    pub open spec fn spec_sample_size(self) -> u8 {
        match self {
            SampleType::Unsigned8 => 1,
            SampleType::Signed16 => 2,
            SampleType::Signed32 => 4,
        }
    }

    /// Gets the size of a single sample, in bytes.
    pub fn get_sample_size(&self) -> (r: u8)
        ensures
            r == self.spec_sample_size(),
            1 <= r <= 4,
    {
        match *self {
            SampleType::Unsigned8 => 1,
            SampleType::Signed16 => 2,
            SampleType::Signed32 => 4,
        }
    }

    /// The largest value of the integer type behind this encoding: the
    /// level the loudest sample maps to.
    pub open spec fn spec_max_value(self) -> u32 {
        match self {
            SampleType::Unsigned8 => 255,
            SampleType::Signed16 => 32767,
            SampleType::Signed32 => 2147483647,
        }
    }

    /// Gets the largest encoded value of this sample type.
    pub fn get_max_value(&self) -> (r: u32)
        ensures
            r == self.spec_max_value(),
    {
        match *self {
            SampleType::Unsigned8 => 255,
            SampleType::Signed16 => 32767,
            SampleType::Signed32 => 2147483647,
        }
    }
}

/// `n` divided by `d`, rounded to the nearest whole number with halves
/// rounding away from zero.
pub open spec fn spec_round_div(n: int, d: int) -> int {
    if n >= 0 {
        (2 * n + d) / (2 * d)
    } else {
        -((2 * (-n) + d) / (2 * d))
    }
}

/// The level sample `s` quantizes to against the peak magnitude `peak`:
/// unsigned encodings map the full swing onto `[0, max]`, signed ones
/// onto `[-max, max]`, rounding to the nearest level. A silent stream
/// (zero peak) sits at the zero level of the encoding.
pub open spec fn spec_quantized(s: int, peak: int, st: SampleType) -> int {
    match st {
        SampleType::Unsigned8 => if peak == 0 {
            128
        } else {
            spec_round_div((s + peak) * 255, 2 * peak)
        },
        SampleType::Signed16 => if peak == 0 {
            0
        } else {
            spec_round_div(s * 32767, peak)
        },
        SampleType::Signed32 => if peak == 0 {
            0
        } else {
            spec_round_div(s * 2147483647, peak)
        },
    }
}

/// The two little-endian bytes of a value below 2^16.
pub open spec fn spec_le16(v: int) -> Seq<u8> {
    seq![(v % 256) as u8, ((v / 256) % 256) as u8]
}

/// The four little-endian bytes of a value below 2^32.
pub open spec fn spec_le32(v: int) -> Seq<u8> {
    seq![
        (v % 256) as u8,
        ((v / 256) % 256) as u8,
        ((v / 65536) % 256) as u8,
        ((v / 16777216) % 256) as u8,
    ]
}

/// The bytes of one quantized level, little-endian, signed levels in
/// two's complement.
pub open spec fn spec_sample_bytes(q: int, st: SampleType) -> Seq<u8> {
    match st {
        SampleType::Unsigned8 => seq![q as u8],
        SampleType::Signed16 => spec_le16(
            if q < 0 {
                q + 0x10000
            } else {
                q
            },
        ),
        SampleType::Signed32 => spec_le32(
            if q < 0 {
                q + 0x1_0000_0000
            } else {
                q
            },
        ),
    }
}

/// The canonical 44-byte RIFF/WAVE header for `nb` samples of the given
/// encoding: chunk sizes, the linear-PCM format tag, channel count,
/// sample rate, byte rate, block alignment and bits per sample, all
/// multi-byte fields little-endian.
pub open spec fn spec_wave_header(nb: int, rate: int, channels: int, st: SampleType) -> Seq<u8> {
    let size = st.spec_sample_size() as int;
    seq![0x52u8, 0x49u8, 0x46u8, 0x46u8] + spec_le32(36 + nb * size) + seq![
        0x57u8,
        0x41u8,
        0x56u8,
        0x45u8,
        0x66u8,
        0x6du8,
        0x74u8,
        0x20u8,
    ] + spec_le32(16) + spec_le16(1) + spec_le16(channels) + spec_le32(rate) + spec_le32(
        rate * channels * size,
    ) + spec_le16(channels * size) + spec_le16(size * 8) + seq![0x64u8, 0x61u8, 0x74u8, 0x61u8]
        + spec_le32(nb * size)
}

/// The data chunk: every sample quantized against `peak` and serialized
/// in order.
pub open spec fn spec_wave_data(samples: Seq<i128>, peak: int, st: SampleType) -> Seq<u8>
    decreases samples.len(),
{
    if samples.len() == 0 {
        Seq::empty()
    } else {
        spec_wave_data(samples.drop_last(), peak, st) + spec_sample_bytes(
            spec_quantized(samples.last() as int, peak, st),
            st,
        )
    }
}

/// The complete wave container for a PCM stream: the canonical header
/// followed by the peak-normalized, quantized sample stream.
pub open spec fn spec_wave_bytes(
    samples: Seq<i128>,
    rate: int,
    channels: int,
    st: SampleType,
) -> Seq<u8> {
    spec_wave_header(samples.len() as int, rate, channels, st) + spec_wave_data(
        samples,
        spec_peak(samples),
        st,
    )
}

/// Rounding a quotient to the nearest whole number leaves an error of at
/// most half the divisor: `2·|n - round(n/d)·d| <= d`.
pub proof fn lemma_round_div_error(n: int, d: int)
    requires
        0 < d,
    ensures
        -d <= 2 * (n - spec_round_div(n, d) * d) <= d,
{
    if n >= 0 {
        let q = (2 * n + d) / (2 * d);
        vstd::arithmetic::div_mod::lemma_fundamental_div_mod(2 * n + d, 2 * d);
        vstd::arithmetic::div_mod::lemma_mod_bound(2 * n + d, 2 * d);
        let r = (2 * n + d) % (2 * d);
        assert(2 * (n - q * d) == r - d) by (nonlinear_arith)
            requires
                2 * n + d == 2 * d * q + r,
        ;
    } else {
        let q = (2 * (-n) + d) / (2 * d);
        vstd::arithmetic::div_mod::lemma_fundamental_div_mod(2 * (-n) + d, 2 * d);
        vstd::arithmetic::div_mod::lemma_mod_bound(2 * (-n) + d, 2 * d);
        let r = (2 * (-n) + d) % (2 * d);
        assert(2 * (n - (-q) * d) == d - r) by (nonlinear_arith)
            requires
                2 * (-n) + d == 2 * d * q + r,
        ;
    }
}

/// Quantization round trip: rescaling a quantized level by the peak
/// recovers the original amplitude to within half a quantization step,
/// for each of the three encodings. For the signed encodings the level
/// `q` of a sample `s` satisfies `2·|s·max - q·peak| <= peak`; for the
/// unsigned one, whose levels are offset by the peak, `q` satisfies
/// `2·|(s + peak)·255 - q·2·peak| <= 2·peak`.
pub proof fn lemma_quantization_round_trip(s: int, peak: int, st: SampleType)
    requires
        0 < peak,
        -peak <= s <= peak,
    ensures
        match st {
            SampleType::Unsigned8 => -2 * peak <= 2 * ((s + peak) * 255 - spec_quantized(
                s,
                peak,
                st,
            ) * (2 * peak)) <= 2 * peak,
            SampleType::Signed16 => -peak <= 2 * (s * 32767 - spec_quantized(s, peak, st) * peak)
                <= peak,
            SampleType::Signed32 => -peak <= 2 * (s * 2147483647 - spec_quantized(s, peak, st)
                * peak) <= peak,
        },
{
    match st {
        SampleType::Unsigned8 => {
            lemma_round_div_error((s + peak) * 255, 2 * peak);
        },
        SampleType::Signed16 => {
            lemma_round_div_error(s * 32767, peak);
        },
        SampleType::Signed32 => {
            lemma_round_div_error(s * 2147483647, peak);
        },
    }
}

/// Computes `n`/`d` rounded to the nearest whole number, halves away
/// from zero.
fn round_div(n: i128, d: u128) -> (q: i128)
    requires
        0 < d <= 0x100000000000000000000000u128,
        -0x4000000000000000000000000000000i128 <= n <= 0x4000000000000000000000000000000i128,
    ensures
        q == spec_round_div(n as int, d as int),
{
    if n >= 0 {
        let num: u128 = 2 * (n as u128) + d;
        proof {
            vstd::arithmetic::div_mod::lemma_div_pos_is_pos(num as int, 2 * d as int);
            vstd::arithmetic::div_mod::lemma_div_nonincreasing(num as int, 2 * d as int);
        }
        (num / (2 * d)) as i128
    } else {
        let num: u128 = 2 * ((-n) as u128) + d;
        proof {
            vstd::arithmetic::div_mod::lemma_div_pos_is_pos(num as int, 2 * d as int);
            vstd::arithmetic::div_mod::lemma_div_nonincreasing(num as int, 2 * d as int);
        }
        -((num / (2 * d)) as i128)
    }
}

/// Quantizes one sample against the stream's peak; the level always fits
/// the encoding's integer type.
fn quantize(s: i128, peak: i128, st: SampleType) -> (q: i128)
    requires
        0 <= peak <= MAX_ENCODABLE_AMPLITUDE,
        -peak <= s <= peak,
    ensures
        q == spec_quantized(s as int, peak as int, st),
        match st {
            SampleType::Unsigned8 => 0 <= q <= 255,
            SampleType::Signed16 => -32767 <= q <= 32767,
            SampleType::Signed32 => -2147483647 <= q <= 2147483647,
        },
{
    if peak == 0 {
        match st {
            SampleType::Unsigned8 => 128,
            SampleType::Signed16 => 0,
            SampleType::Signed32 => 0,
        }
    } else {
        match st {
            SampleType::Unsigned8 => {
                let q = round_div((s + peak) * 255, (2 * peak) as u128);
                proof {
                    lemma_div_bound_strict(
                        2 * ((s + peak) * 255) + 2 * peak,
                        4 * peak as int,
                        255,
                    );
                }
                q
            },
            SampleType::Signed16 => {
                let q = round_div(s * 32767, peak as u128);
                proof {
                    if s >= 0 {
                        lemma_div_bound_strict(2 * (s * 32767) + peak, 2 * peak as int, 32767);
                    } else {
                        lemma_div_bound_strict(2 * (-(s * 32767)) + peak, 2 * peak as int, 32767);
                    }
                }
                q
            },
            SampleType::Signed32 => {
                let q = round_div(s * 2147483647, peak as u128);
                proof {
                    if s >= 0 {
                        lemma_div_bound_strict(
                            2 * (s * 2147483647) + peak,
                            2 * peak as int,
                            2147483647,
                        );
                    } else {
                        lemma_div_bound_strict(
                            2 * (-(s * 2147483647)) + peak,
                            2 * peak as int,
                            2147483647,
                        );
                    }
                }
                q
            },
        }
    }
}

/// Appends the two little-endian bytes of `v`.
fn push_le16(out: &mut Vec<u8>, v: u16)
    ensures
        final(out)@ == old(out)@ + spec_le16(v as int),
{
    out.push((v % 256) as u8);
    out.push((v / 256) as u8);
    proof {
        assert(out@ =~= old(out)@ + spec_le16(v as int));
    }
}

/// Appends the four little-endian bytes of `v`.
fn push_le32(out: &mut Vec<u8>, v: u32)
    ensures
        final(out)@ == old(out)@ + spec_le32(v as int),
{
    out.push((v % 256) as u8);
    out.push(((v / 256) % 256) as u8);
    out.push(((v / 65536) % 256) as u8);
    out.push((v / 16777216) as u8);
    proof {
        assert(out@ =~= old(out)@ + spec_le32(v as int));
    }
}

/// Builds the canonical 44-byte header.
#[verifier::rlimit(50)]
fn wave_header(nb: u32, rate: u32, channels: u16, st: SampleType) -> (out: Vec<u8>)
    requires
        nb * st.spec_sample_size() + 36 <= u32::MAX,
        rate * channels * st.spec_sample_size() <= u32::MAX,
        channels * st.spec_sample_size() <= u16::MAX,
    ensures
        out@ == spec_wave_header(nb as int, rate as int, channels as int, st),
        out@.len() == 44,
{
    let size = st.get_sample_size();
    proof {
        assert(nb as int * (size as int) <= nb as int * (st.spec_sample_size() as int));
        assert(rate as int * (channels as int) <= rate as int * (channels as int) * (size
            as int)) by (nonlinear_arith)
            requires
                1 <= size == st.spec_sample_size(),
                0 <= rate,
                0 <= channels,
        ;
    }
    let data_size: u32 = nb * (size as u32);
    let byte_rate: u32 = rate * (channels as u32) * (size as u32);
    let block_align: u16 = channels * (size as u16);
    let mut out: Vec<u8> = Vec::new();
    out.push(0x52);
    out.push(0x49);
    out.push(0x46);
    out.push(0x46);
    push_le32(&mut out, 36 + data_size);
    out.push(0x57);
    out.push(0x41);
    out.push(0x56);
    out.push(0x45);
    out.push(0x66);
    out.push(0x6d);
    out.push(0x74);
    out.push(0x20);
    push_le32(&mut out, 16);
    push_le16(&mut out, 1);
    push_le16(&mut out, channels);
    push_le32(&mut out, rate);
    push_le32(&mut out, byte_rate);
    push_le16(&mut out, block_align);
    push_le16(&mut out, (size as u16) * 8);
    out.push(0x64);
    out.push(0x61);
    out.push(0x74);
    out.push(0x61);
    push_le32(&mut out, data_size);
    proof {
        assert(out@ =~= spec_wave_header(nb as int, rate as int, channels as int, st));
    }
    out
}

/// Represents a wave file: one PCM stream and the sample encoding to
/// serialize it with.
pub struct Wave {
    /// The stream to serialize.
    pub pcm: PCM,
    /// The sample encoding to use.
    pub sample_type: SampleType,
}

impl Wave {
    /// Serializes the stream to the bytes of a wave file: the canonical
    /// RIFF/WAVE header followed by every sample quantized against the
    /// stream's peak, so the loudest sample maps to full scale. Fails
    /// exactly when the stream has no samples, since an empty stream has
    /// no peak to normalize against.
    #[verifier::rlimit(50)]
    pub fn write(&self) -> (r: Result<Vec<u8>, NoSamplesError>)
        requires
            forall|i: int|
                0 <= i < self.pcm.samples@.len() ==> -MAX_ENCODABLE_AMPLITUDE
                    <= #[trigger] self.pcm.samples@[i] <= MAX_ENCODABLE_AMPLITUDE,
            self.pcm.samples@.len() * self.sample_type.spec_sample_size() + 36 <= u32::MAX,
            self.pcm.parameters.sample_rate * self.pcm.parameters.nb_channels
                * self.sample_type.spec_sample_size() <= u32::MAX,
            self.pcm.parameters.nb_channels * self.sample_type.spec_sample_size() <= u16::MAX,
        ensures
            match r {
                Ok(v) => {
                    &&& self.pcm.samples@.len() > 0
                    &&& v@ == spec_wave_bytes(
                        self.pcm.samples@,
                        self.pcm.parameters.sample_rate as int,
                        self.pcm.parameters.nb_channels as int,
                        self.sample_type,
                    )
                    &&& v@.len() == 44 + self.pcm.samples@.len()
                        * self.sample_type.spec_sample_size()
                },
                Err(e) => self.pcm.samples@.len() == 0,
            },
    {
        let extreme = match self.pcm.get_extreme() {
            Ok(e) => e,
            Err(e) => {
                return Err(e);
            },
        };
        let ghost samples = self.pcm.samples@;
        proof {
            lemma_peak_bounds(samples);
            let w = choose|i: int|
                0 <= i < samples.len() && vstd::math::abs(#[trigger] samples[i] as int)
                    == spec_peak(samples);
            assert(extreme <= MAX_ENCODABLE_AMPLITUDE);
        }
        let st = self.sample_type;
        let rate = self.pcm.parameters.sample_rate;
        let channels = self.pcm.parameters.nb_channels;
        let nb = self.pcm.samples.len();
        proof {
            assert(st.spec_sample_size() >= 1);
            assert(nb as int <= nb as int * (st.spec_sample_size() as int)) by (nonlinear_arith)
                requires
                    st.spec_sample_size() >= 1,
                    nb >= 0,
            ;
        }
        let mut out: Vec<u8> = wave_header(nb as u32, rate, channels, st);
        let ghost header = spec_wave_header(nb as int, rate as int, channels as int, st);
        let mut i: usize = 0;
        while i < nb
            invariant
                i <= nb,
                nb == samples.len(),
                samples == self.pcm.samples@,
                st == self.sample_type,
                extreme == spec_peak(samples),
                0 <= extreme <= MAX_ENCODABLE_AMPLITUDE,
                forall|k: int|
                    0 <= k < samples.len() ==> -extreme <= #[trigger] samples[k] <= extreme,
                out@ == header + spec_wave_data(samples.take(i as int), extreme as int, st),
                out@.len() == 44 + i * st.spec_sample_size(),
            decreases nb - i,
        {
            let s = self.pcm.samples[i];
            let q = quantize(s, extreme, st);
            let ghost before = out@;
            match st {
                SampleType::Unsigned8 => {
                    out.push(q as u8);
                    proof {
                        assert(out@ =~= before + spec_sample_bytes(q as int, st));
                        assert((i + 1) * st.spec_sample_size() == i * st.spec_sample_size()
                            + st.spec_sample_size()) by (nonlinear_arith);
                        assert(out@.len() == 44 + (i + 1) * st.spec_sample_size());
                    }
                },
                SampleType::Signed16 => {
                    let w: u32 = if q < 0 {
                        (q + 0x10000) as u32
                    } else {
                        q as u32
                    };
                    push_le16(&mut out, w as u16);
                    proof {
                        assert(out@ =~= before + spec_sample_bytes(q as int, st));
                        assert((i + 1) * st.spec_sample_size() == i * st.spec_sample_size()
                            + st.spec_sample_size()) by (nonlinear_arith);
                        assert(out@.len() == 44 + (i + 1) * st.spec_sample_size());
                    }
                },
                SampleType::Signed32 => {
                    let w: u64 = if q < 0 {
                        (q + 0x1_0000_0000) as u64
                    } else {
                        q as u64
                    };
                    push_le32(&mut out, w as u32);
                    proof {
                        assert(out@ =~= before + spec_sample_bytes(q as int, st));
                        assert((i + 1) * st.spec_sample_size() == i * st.spec_sample_size()
                            + st.spec_sample_size()) by (nonlinear_arith);
                        assert(out@.len() == 44 + (i + 1) * st.spec_sample_size());
                    }
                },
            }
            proof {
                assert(samples.take(i + 1).drop_last() =~= samples.take(i as int));
                assert(samples.take(i + 1).last() == samples[i as int]);
                assert(out@ =~= header + spec_wave_data(samples.take(i + 1), extreme as int, st));
            }
            i = i + 1;
        }
        proof {
            assert(samples.take(samples.len() as int) =~= samples);
        }
        Ok(out)
    }
}

} // verus!
