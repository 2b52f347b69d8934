//! Renders a timed sequence of notes, each played by a virtual instrument,
//! into one continuous multi-channel PCM stream, and serializes that stream
//! as an uncompressed linear-PCM wave container.
//!
//! All scheduling works on validated fixed-point scalars: times and
//! durations are whole microsecond ticks, frequencies are millihertz, and
//! amplitudes and forces are fixed-point fractions of `AMPLITUDE_UNIT` and
//! `FORCE_UNIT`. Build a [`sequence::Sequence`], instantiate
//! [`instrument::Instrument`] values, and hand both to a `Synthesizer` to
//! produce music.

use vstd::prelude::*;

use crate::error::{EmptySequenceError, NoInstrumentError, SynthesizerError};
use crate::frequency_lookup::FrequencyLookup;
use crate::instrument::{spec_looped, Instrument};
use crate::key_generator::KeyGenerator;
use crate::pcm::{
    scale_trunc, spec_div_trunc, spec_sample_count, AMPLITUDE_UNIT, PCM, PCMParameters,
};
use crate::sequence::{
    sorted_by_start, spec_demand_list, spec_demand_listed, spec_demands, spec_is_max_duration,
    Note, Sequence,
};
use crate::util::{FORCE_UNIT, TICKS_PER_SECOND};
use std::collections::HashMap;

/// The errors of this library.
pub mod error;
/// Validated time, duration and force scalars.
pub mod util;
/// Maps a frequency identifier to a frequency value.
pub mod frequency_lookup;
/// Instrument related data.
pub mod instrument;
/// Generators for keys in instruments; holds the pre-made tone generators.
pub mod key_generator;
/// Types for PCM audio.
pub mod pcm;
/// Handles writing wave files.
pub mod wave;
/// Sequence related data.
pub mod sequence;

verus! {

/// Length of the anti-click falloff window, in samples: the trailing ramp
/// that prevents popping sounds when a rendered fragment is truncated
/// mid-waveform.
pub const FALLOFF_SAMPLES: usize = 100;

/// Sample `j` of a rendered fragment `s` after the anti-click falloff: the
/// last `FALLOFF_SAMPLES` samples are scaled by a linear ramp from one
/// down to zero, and a fragment no longer than the window stays as it is.
pub open spec fn spec_falloff(s: Seq<i128>, j: int) -> int {
    if s.len() > FALLOFF_SAMPLES && j >= s.len() - FALLOFF_SAMPLES {
        spec_div_trunc(s[j] * (s.len() - 1 - j), FALLOFF_SAMPLES - 1)
    } else {
        s[j] as int
    }
}

/// Applies the anti-click falloff in place: every sample keeps its
/// position and is attenuated as [`spec_falloff`] says; in particular the
/// very last sample of a fragment longer than the window becomes silence,
/// and no sample ever gets louder.
pub fn apply_falloff(samples: &mut Vec<i128>)
    requires
        forall|i: int|
            0 <= i < old(samples)@.len() ==> -AMPLITUDE_UNIT <= #[trigger] old(samples)@[i]
                <= AMPLITUDE_UNIT,
    ensures
        final(samples)@.len() == old(samples)@.len(),
        forall|j: int|
            0 <= j < old(samples)@.len() ==> #[trigger] final(samples)@[j] == spec_falloff(
                old(samples)@,
                j,
            ),
        forall|j: int|
            0 <= j < old(samples)@.len() ==> -AMPLITUDE_UNIT <= #[trigger] final(samples)@[j]
                <= AMPLITUDE_UNIT,
{
    let len = samples.len();
    if len > FALLOFF_SAMPLES {
        let mut i: usize = 0;
        while i < FALLOFF_SAMPLES
            invariant
                i <= FALLOFF_SAMPLES,
                FALLOFF_SAMPLES < len == samples@.len() == old(samples)@.len(),
                forall|j: int|
                    0 <= j < len - FALLOFF_SAMPLES ==> #[trigger] samples@[j] == old(
                        samples,
                    )@[j],
                forall|j: int|
                    len - FALLOFF_SAMPLES + i <= j < len ==> #[trigger] samples@[j] == old(
                        samples,
                    )@[j],
                forall|j: int|
                    len - FALLOFF_SAMPLES <= j < len - FALLOFF_SAMPLES + i
                        ==> #[trigger] samples@[j] == spec_falloff(old(samples)@, j)
                        && -AMPLITUDE_UNIT <= samples@[j] <= AMPLITUDE_UNIT,
                forall|j: int|
                    0 <= j < old(samples)@.len() ==> -AMPLITUDE_UNIT <= #[trigger] old(
                        samples,
                    )@[j] <= AMPLITUDE_UNIT,
            decreases FALLOFF_SAMPLES - i,
        {
            let idx = len - FALLOFF_SAMPLES + i;
            let v = samples[idx];
            let scaled = scale_trunc(
                v,
                (FALLOFF_SAMPLES - 1 - i) as u32,
                (FALLOFF_SAMPLES - 1) as u32,
            );
            proof {
                assert(len - 1 - idx == FALLOFF_SAMPLES - 1 - i);
            }
            samples[idx] = scaled;
            i = i + 1;
        }
        proof {
            assert forall|j: int| 0 <= j < old(samples)@.len() implies #[trigger] samples@[j]
                == spec_falloff(old(samples)@, j) by {
                if j < len - FALLOFF_SAMPLES {
                    assert(samples@[j] == old(samples)@[j]);
                }
            }
        }
    }
}

/// The number of flat, channel-interleaved output samples that cover
/// `ticks` ticks: ticks·rate·channels/TICKS_PER_SECOND, rounded to the
/// nearest whole sample (half rounds up). The same formula yields a
/// note's first flat sample index from its start point.
pub open spec fn spec_flat_samples(ticks: int, params: PCMParameters) -> int {
    (ticks * params.sample_rate * params.nb_channels + (TICKS_PER_SECOND as int) / 2) / (
    TICKS_PER_SECOND as int)
}

/// The number of mono samples a note's rendition holds.
pub open spec fn spec_note_samples(note: Note, params: PCMParameters) -> int {
    spec_sample_count(note.t_span.spec_duration() as int, params.sample_rate as int)
}

/// The flat output sample index where a note's rendition begins.
pub open spec fn spec_note_start(note: Note, params: PCMParameters) -> int {
    spec_flat_samples(note.t_span.spec_start() as int, params)
}

/// The key cache entry a note plays from.
pub open spec fn spec_key_samples<G: KeyGenerator>(
    insts: Map<usize, Instrument<G>>,
    note: Note,
) -> Seq<i128> {
    insts[note.i_id].keys@[note.f_id].audio.samples@
}

/// Mono sample `j` of a note's rendition: the instrument's key looped to
/// the note's length, with the anti-click falloff applied at the tail.
pub open spec fn spec_rendered(key_samples: Seq<i128>, nb: int, j: int) -> int {
    let v = spec_looped(key_samples, j) as int;
    if nb > FALLOFF_SAMPLES && j >= nb - FALLOFF_SAMPLES {
        spec_div_trunc(v * (nb - 1 - j), FALLOFF_SAMPLES - 1)
    } else {
        v
    }
}

/// What a note adds to flat output sample `t`: its rendered mono sample
/// for that position, scaled by the note's gain, or zero outside the
/// note's range. Each of a note's mono samples is fanned out over all
/// interleaved channels.
pub open spec fn spec_contribution<G: KeyGenerator>(
    insts: Map<usize, Instrument<G>>,
    note: Note,
    params: PCMParameters,
    t: int,
) -> int {
    let start = spec_note_start(note, params);
    let nb = spec_note_samples(note, params);
    let c = params.nb_channels as int;
    if start <= t < start + nb * c {
        spec_div_trunc(
            spec_rendered(spec_key_samples(insts, note), nb, (t - start) / c) * note.spec_gain(),
            FORCE_UNIT as int,
        )
    } else {
        0
    }
}

/// Flat output sample `t` of the mix: the sum of every note's
/// contribution at that position. Mixing is purely additive, so the
/// result does not depend on the order of the notes.
pub open spec fn spec_mix<G: KeyGenerator>(
    notes: Seq<Note>,
    insts: Map<usize, Instrument<G>>,
    params: PCMParameters,
    t: int,
) -> int
    decreases notes.len(),
{
    if notes.len() == 0 {
        0
    } else {
        spec_mix(notes.drop_last(), insts, params, t) + spec_contribution(
            insts,
            notes.last(),
            params,
            t,
        )
    }
}

/// Anti-click falloff law: the very last sample of a fragment longer than
/// the falloff window is silenced entirely, and a fragment no longer than
/// the window keeps every sample unchanged.
pub proof fn lemma_falloff_tail(s: Seq<i128>)
    ensures
        s.len() > FALLOFF_SAMPLES ==> spec_falloff(s, s.len() - 1) == 0,
        s.len() <= FALLOFF_SAMPLES ==> forall|j: int|
            0 <= j < s.len() ==> spec_falloff(s, j) == s[j],
{
    if s.len() > FALLOFF_SAMPLES {
        let j = s.len() - 1;
        assert(s[j] * (s.len() - 1 - j) == 0) by (nonlinear_arith)
            requires
                s.len() - 1 - j == 0,
        ;
    }
}

/// Superposition law: mixing is purely additive, so the mix of two
/// groups of notes is, at every output position, the sum of the two
/// groups' own mixes. In particular two overlapping notes produce, at an
/// overlap position, the sum of their individual contributions, each
/// scaled by its own gain.
pub proof fn lemma_mix_superposition<G: KeyGenerator>(
    n1: Seq<Note>,
    n2: Seq<Note>,
    insts: Map<usize, Instrument<G>>,
    params: PCMParameters,
    t: int,
)
    ensures
        spec_mix(n1 + n2, insts, params, t) == spec_mix(n1, insts, params, t) + spec_mix(
            n2,
            insts,
            params,
            t,
        ),
    decreases n2.len(),
{
    if n2.len() == 0 {
        assert(n1 + n2 =~= n1);
    } else {
        assert((n1 + n2).drop_last() =~= n1 + n2.drop_last());
        assert((n1 + n2).last() == n2.last());
        lemma_mix_superposition(n1, n2.drop_last(), insts, params, t);
    }
}

/// Order-independence law: mixing is purely additive, so any two
/// sequences holding the same notes produce the same mix at every output
/// position, whatever order they hold them in. Sorting before rendering
/// therefore never changes the output.
pub proof fn lemma_mix_order_independent<G: KeyGenerator>(
    n1: Seq<Note>,
    n2: Seq<Note>,
    insts: Map<usize, Instrument<G>>,
    params: PCMParameters,
    t: int,
)
    requires
        n1.to_multiset() == n2.to_multiset(),
    ensures
        spec_mix(n1, insts, params, t) == spec_mix(n2, insts, params, t),
    decreases n1.len(),
{
    broadcast use vstd::seq_lib::group_to_multiset_ensures;

    if n1.len() == 0 {
        assert(n1.to_multiset().len() == 0);
        assert(n2.len() == 0);
    } else {
        let a = n1.last();
        assert(n1.contains(a));
        assert(n2.to_multiset().count(a) > 0);
        assert(n2.contains(a));
        let i = choose|i: int| 0 <= i < n2.len() && n2[i] == a;
        assert(n2 =~= n2.take(i) + (seq![a] + n2.skip(i + 1)));
        lemma_mix_superposition(n2.take(i), seq![a] + n2.skip(i + 1), insts, params, t);
        lemma_mix_superposition(seq![a], n2.skip(i + 1), insts, params, t);
        assert(seq![a].drop_last() =~= Seq::<Note>::empty());
        assert(seq![a].last() == a);
        assert(spec_mix(Seq::<Note>::empty(), insts, params, t) == 0);
        assert(spec_mix(seq![a], insts, params, t) == spec_contribution(insts, a, params, t));
        assert(n2.remove(i) =~= n2.take(i) + n2.skip(i + 1));
        lemma_mix_superposition(n2.take(i), n2.skip(i + 1), insts, params, t);
        assert(n1.drop_last() =~= n1.remove(n1.len() - 1));
        assert(n1.remove(n1.len() - 1).to_multiset() == n1.to_multiset().remove(a));
        assert(n2.remove(i).to_multiset() == n2.to_multiset().remove(a));
        lemma_mix_order_independent(n1.drop_last(), n2.remove(i), insts, params, t);
    }
}

/// The latest end point over all notes, in ticks; zero when there are no
/// notes.
pub open spec fn spec_max_end(notes: Seq<Note>) -> int
    decreases notes.len(),
{
    if notes.len() == 0 {
        0
    } else {
        let rest = spec_max_end(notes.drop_last());
        let e = notes.last().t_span.spec_end() as int;
        if e > rest {
            e
        } else {
            rest
        }
    }
}

/// The latest end point bounds every note's end, and some note reaches it.
proof fn lemma_max_end_bounds(notes: Seq<Note>)
    ensures
        spec_max_end(notes) >= 0,
        forall|k: int|
            0 <= k < notes.len() ==> (#[trigger] notes[k]).t_span.spec_end() <= spec_max_end(
                notes,
            ),
        notes.len() > 0 ==> exists|k: int|
            0 <= k < notes.len() && (#[trigger] notes[k]).t_span.spec_end() == spec_max_end(
                notes,
            ),
    decreases notes.len(),
{
    if notes.len() > 0 {
        lemma_max_end_bounds(notes.drop_last());
        assert(forall|k: int| 0 <= k < notes.len() - 1 ==> notes.drop_last()[k] == notes[k]);
        if notes.last().t_span.spec_end() >= spec_max_end(notes.drop_last()) {
            assert(notes[notes.len() - 1].t_span.spec_end() == spec_max_end(notes));
        } else {
            let k = choose|k: int|
                0 <= k < notes.drop_last().len() && (#[trigger] notes.drop_last()[k])
                    .t_span.spec_end() == spec_max_end(notes.drop_last());
            assert(notes[k].t_span.spec_end() == spec_max_end(notes));
        }
    }
}

/// A note whose rendition and placement stay within the machine's index
/// range.
pub open spec fn spec_note_fits(note: Note, params: PCMParameters) -> bool {
    &&& spec_note_samples(note, params) <= usize::MAX
    &&& spec_flat_samples(note.t_span.spec_end() as int, params) <= usize::MAX
}

/// A note whose instrument holds a normalized key for its frequency
/// identifier, synthesized at the output sample rate.
pub open spec fn spec_note_ready<G: KeyGenerator>(
    note: Note,
    insts: Map<usize, Instrument<G>>,
    params: PCMParameters,
) -> bool {
    &&& insts.contains_key(note.i_id)
    &&& insts[note.i_id].keys@.contains_key(note.f_id)
    &&& insts[note.i_id].keys@[note.f_id].audio.parameters == (PCMParameters {
        sample_rate: params.sample_rate,
        nb_channels: 1,
    })
    &&& forall|i: int|
        0 <= i < spec_key_samples(insts, note).len() ==> -AMPLITUDE_UNIT <= #[trigger] spec_key_samples(
            insts,
            note,
        )[i] <= AMPLITUDE_UNIT
}

/// A flat offset below `nb * c` picks a rendition sample below `nb`.
proof fn lemma_window_index(off: int, nb: int, c: int)
    requires
        0 <= off,
        0 < c,
        off < nb * c,
    ensures
        0 <= off / c < nb,
{
    vstd::arithmetic::div_mod::lemma_div_pos_is_pos(off, c);
    vstd::arithmetic::div_mod::lemma_fundamental_div_mod(off, c);
    if off / c >= nb {
        assert(c * (off / c) >= nb * c) by (nonlinear_arith)
            requires
                off / c >= nb,
                c > 0,
        ;
        vstd::arithmetic::div_mod::lemma_mod_bound(off, c);
        assert(false);
    }
}

/// No note ever contributes more than one amplitude unit to any output
/// sample: its key is normalized, the falloff only attenuates, and its
/// gain is a fraction of at most one.
proof fn lemma_contribution_bound<G: KeyGenerator>(
    insts: Map<usize, Instrument<G>>,
    note: Note,
    params: PCMParameters,
    t: int,
)
    requires
        spec_note_ready(note, insts, params),
        note.spec_gain() <= FORCE_UNIT,
    ensures
        -AMPLITUDE_UNIT <= spec_contribution(insts, note, params, t) <= AMPLITUDE_UNIT,
{
    let start = spec_note_start(note, params);
    let nb = spec_note_samples(note, params);
    let c = params.nb_channels as int;
    if start <= t < start + nb * c {
        assert(c > 0) by (nonlinear_arith)
            requires
                0 <= t - start < nb * c,
                c >= 0,
        ;
        let j = (t - start) / c;
        lemma_window_index(t - start, nb, c);
        let ks = spec_key_samples(insts, note);
        assert(-AMPLITUDE_UNIT <= spec_looped(ks, j) <= AMPLITUDE_UNIT) by {
            if ks.len() > 1 {
                vstd::arithmetic::div_mod::lemma_mod_bound(j, ks.len() - 1);
                assert(-AMPLITUDE_UNIT <= ks[j % (ks.len() - 1)] <= AMPLITUDE_UNIT);
            } else if ks.len() == 1 {
                assert(-AMPLITUDE_UNIT <= ks[0] <= AMPLITUDE_UNIT);
            }
        }
        let v = spec_looped(ks, j) as int;
        if nb > FALLOFF_SAMPLES && j >= nb - FALLOFF_SAMPLES {
            crate::pcm::lemma_div_trunc_scale_bound(
                v,
                nb - 1 - j,
                FALLOFF_SAMPLES - 1,
                AMPLITUDE_UNIT as int,
            );
        }
        crate::pcm::lemma_div_trunc_scale_bound(
            spec_rendered(ks, nb, j),
            note.spec_gain() as int,
            FORCE_UNIT as int,
            AMPLITUDE_UNIT as int,
        );
    }
}

/// The mix of `n` notes stays within `n` amplitude units: superposition
/// of per-note contributions, each within one unit.
proof fn lemma_mix_bound<G: KeyGenerator>(
    notes: Seq<Note>,
    insts: Map<usize, Instrument<G>>,
    params: PCMParameters,
    t: int,
)
    requires
        forall|k: int|
            0 <= k < notes.len() ==> spec_note_ready(#[trigger] notes[k], insts, params),
        forall|k: int| 0 <= k < notes.len() ==> (#[trigger] notes[k]).spec_gain() <= FORCE_UNIT,
    ensures
        -(notes.len() as int * AMPLITUDE_UNIT) <= spec_mix(notes, insts, params, t) <= notes.len()
            as int * AMPLITUDE_UNIT,
    decreases notes.len(),
{
    if notes.len() > 0 {
        assert(forall|k: int|
            0 <= k < notes.len() - 1 ==> #[trigger] notes.drop_last()[k] == notes[k]);
        lemma_mix_bound(notes.drop_last(), insts, params, t);
        lemma_contribution_bound(insts, notes[notes.len() - 1], params, t);
    }
}

/// What a note has added to flat output sample `t` after its first
/// `limit` flat positions are mixed in.
spec fn spec_partial_contribution<G: KeyGenerator>(
    insts: Map<usize, Instrument<G>>,
    note: Note,
    params: PCMParameters,
    t: int,
    limit: int,
) -> int {
    if spec_note_start(note, params) <= t < spec_note_start(note, params) + limit {
        spec_contribution(insts, note, params, t)
    } else {
        0
    }
}

/// A note whose instrument cache holds the key synthesized for it: tuned
/// to the note's resolved frequency, and sized for the longest duration
/// any note of the sequence demands of that pitch.
pub open spec fn spec_note_synthesized<G: KeyGenerator, L: FrequencyLookup>(
    note: Note,
    notes: Seq<Note>,
    insts: Map<usize, Instrument<G>>,
    f_lu: L,
    params: PCMParameters,
) -> bool {
    &&& insts.contains_key(note.i_id)
    &&& insts[note.i_id].keys@.contains_key(note.f_id)
    &&& insts[note.i_id].keys@[note.f_id].frequency@ == f_lu.spec_freq(note.f_id).unwrap()
    &&& exists|d: u64|
        #![trigger spec_is_max_duration(notes, note.i_id, note.f_id, d)]
        spec_is_max_duration(notes, note.i_id, note.f_id, d) && insts[note.i_id].keys@[
            note.f_id
        ].audio.samples@.len() == spec_sample_count(d as int, params.sample_rate as int)
}

/// Every note of the sequence stands ready to render: its frequency
/// resolves, and its instrument caches a normalized key synthesized for
/// it.
pub open spec fn spec_notes_ready<G: KeyGenerator, L: FrequencyLookup>(
    notes: Seq<Note>,
    insts: Map<usize, Instrument<G>>,
    f_lu: L,
    params: PCMParameters,
) -> bool {
    forall|k: int|
        0 <= k < notes.len() ==> {
            let note = #[trigger] notes[k];
            &&& f_lu.spec_freq(note.f_id) is Some
            &&& spec_note_ready(note, insts, params)
            &&& spec_note_synthesized(note, notes, insts, f_lu, params)
        }
}

/// The main synthesizer. It holds the instruments, the sequence and the
/// frequency lookup, and produces one audible result.
pub struct Synthesizer<G: KeyGenerator, L: FrequencyLookup> {
    /// The sequence to play.
    pub seq: Sequence,
    /// The instruments used to play music, by instrument identifier.
    pub inst: HashMap<usize, Instrument<G>>,
    /// The frequency lookup used throughout the sequence and the
    /// instruments; it provides all frequency values in an absolute way.
    pub f_lu: L,
    /// The parameters for the final output.
    pub params: PCMParameters,
}

impl<G: KeyGenerator, L: FrequencyLookup> Synthesizer<G, L> {
    /// Generates all keys necessary for all instruments: every frequency
    /// identifier a note demands is resolved and synthesized once per
    /// instrument, at the longest demanded duration. Fails exactly when a
    /// note names an unknown instrument or a frequency identifier without
    /// a mapping.
    pub fn gen_inst_keys(&mut self) -> (r: Result<(), SynthesizerError>)
        requires
            forall|k: int|
                0 <= k < old(self).seq.notes@.len() ==> spec_note_samples(
                    #[trigger] old(self).seq.notes@[k],
                    old(self).params,
                ) <= usize::MAX,
        ensures
            final(self).seq == old(self).seq,
            final(self).params == old(self).params,
            final(self).f_lu == old(self).f_lu,
            final(self).inst@.dom() == old(self).inst@.dom(),
            match r {
                Ok(()) => spec_notes_ready(
                    final(self).seq.notes@,
                    final(self).inst@,
                    final(self).f_lu,
                    final(self).params,
                ),
                Err(e) => exists|k: int|
                    0 <= k < final(self).seq.notes@.len() && {
                        let note = #[trigger] final(self).seq.notes@[k];
                        ||| !final(self).inst@.contains_key(note.i_id)
                        ||| final(self).f_lu.spec_freq(note.f_id) is None
                    },
            },
    {
        broadcast use vstd::std_specs::hash::group_hash_axioms;

        let list = self.seq.list_freq_by_inst();
        let ghost notes = self.seq.notes@;
        let mut p: usize = 0;
        while p < list.len()
            invariant
                p <= list@.len(),
                spec_demand_list(list@, notes),
                notes == self.seq.notes@,
                self.seq == old(self).seq,
                self.params == old(self).params,
                self.f_lu == old(self).f_lu,
                self.inst@.dom() == old(self).inst@.dom(),
                forall|k: int|
                    0 <= k < notes.len() ==> spec_note_samples(
                        #[trigger] notes[k],
                        self.params,
                    ) <= usize::MAX,
                forall|p0: int, a: int|
                    #![auto]
                    0 <= p0 < p && 0 <= a < list@[p0].1@.len() ==> {
                        &&& self.f_lu.spec_freq(list@[p0].1@[a].0) is Some
                        &&& self.inst@.contains_key(list@[p0].0)
                        &&& self.inst@[list@[p0].0].keys@.contains_key(list@[p0].1@[a].0)
                        &&& crate::instrument::spec_key_wf(
                            self.inst@[list@[p0].0].keys@[list@[p0].1@[a].0],
                            self.params.sample_rate,
                            self.f_lu.spec_freq(list@[p0].1@[a].0).unwrap(),
                            spec_sample_count(
                                list@[p0].1@[a].1@ as int,
                                self.params.sample_rate as int,
                            ),
                        )
                    },
            decreases list@.len() - p,
        {
            let entry = &list[p];
            let i_id = entry.0;
            let mut inst = match self.inst.remove(&i_id) {
                Some(inst) => inst,
                None => {
                    proof {
                        // Some note demands this instrument, so it is
                        // missing for that note too.
                        assert(0 <= p < list@.len() && list@[p as int].0 == i_id);
                        assert(list@[p as int].1@.len() > 0);
                        assert(spec_demands(notes, i_id, list@[p as int].1@[0].0));
                        let k = choose|k: int|
                            0 <= k < notes.len() && (#[trigger] notes[k]).i_id == i_id
                                && notes[k].f_id == list@[p as int].1@[0].0;
                        assert(!self.inst@.contains_key(notes[k].i_id));
                    }
                    return Err(SynthesizerError::NoInstrument(NoInstrumentError { i_id }));
                },
            };
            proof {
                // Every demanded duration is some note's duration, so its
                // sample count fits.
                assert forall|a: int|
                    0 <= a < list@[p as int].1@.len() implies spec_sample_count(
                    (#[trigger] list@[p as int].1@[a]).1@ as int,
                    self.params.sample_rate as int,
                ) <= usize::MAX by {
                    assert(spec_is_max_duration(
                        notes,
                        list@[p as int].0,
                        list@[p as int].1@[a].0,
                        list@[p as int].1@[a].1@,
                    ));
                    let k = choose|k: int|
                        0 <= k < notes.len() && (#[trigger] notes[k]).i_id == list@[p as int].0
                            && notes[k].f_id == list@[p as int].1@[a].0
                            && notes[k].t_span.spec_duration() == list@[p as int].1@[a].1@;
                    assert(spec_note_samples(notes[k], self.params) <= usize::MAX);
                }
            }
            let ghost others = self.inst@;
            let res = inst.gen_keys(self.params.sample_rate, entry.1.as_slice(), &self.f_lu);
            let ghost inst_snap = inst;
            self.inst.insert(i_id, inst);
            proof {
                assert(self.inst@ == others.insert(i_id, inst_snap));
                assert(self.inst@.dom() =~= old(self).inst@.dom());
            }
            if let Err(e) = res {
                proof {
                    // The failing demand entry belongs to some note.
                    let a = choose|a: int|
                        0 <= a < list@[p as int].1@.len() && (#[trigger] self.f_lu.spec_freq(
                            list@[p as int].1@[a].0,
                        )) is None;
                    assert(spec_demands(notes, list@[p as int].0, list@[p as int].1@[a].0));
                    let k = choose|k: int|
                        0 <= k < notes.len() && (#[trigger] notes[k]).i_id == list@[p as int].0
                            && notes[k].f_id == list@[p as int].1@[a].0;
                    assert(self.f_lu.spec_freq(notes[k].f_id) is None);
                }
                return Err(e);
            }
            proof {
                assert forall|a: int|
                    0 <= a < list@[p as int].1@.len() implies crate::instrument::spec_last_demand(
                    list@[p as int].1@,
                    a,
                ) by {}
                assert forall|p0: int, a: int|
                    #![auto]
                    0 <= p0 < p + 1 && 0 <= a < list@[p0].1@.len() implies {
                    &&& self.f_lu.spec_freq(list@[p0].1@[a].0) is Some
                    &&& self.inst@.contains_key(list@[p0].0)
                    &&& self.inst@[list@[p0].0].keys@.contains_key(list@[p0].1@[a].0)
                    &&& crate::instrument::spec_key_wf(
                        self.inst@[list@[p0].0].keys@[list@[p0].1@[a].0],
                        self.params.sample_rate,
                        self.f_lu.spec_freq(list@[p0].1@[a].0).unwrap(),
                        spec_sample_count(
                            list@[p0].1@[a].1@ as int,
                            self.params.sample_rate as int,
                        ),
                    )
                } by {
                    if p0 < p {
                        assert(list@[p0].0 != i_id);
                        assert(self.inst@[list@[p0].0] == others[list@[p0].0]);
                    } else {
                        assert(self.inst@[i_id] == inst_snap);
                        assert(crate::instrument::spec_last_demand(list@[p as int].1@, a));
                    }
                }
            }
            p = p + 1;
        }
        proof {
            // Every note's demand is listed, so every note's key stands
            // ready.
            assert forall|k: int| 0 <= k < notes.len() implies {
                let note = #[trigger] notes[k];
                &&& self.f_lu.spec_freq(note.f_id) is Some
                &&& spec_note_ready(note, self.inst@, self.params)
                &&& spec_note_synthesized(note, notes, self.inst@, self.f_lu, self.params)
            } by {
                assert(spec_demand_listed(list@, notes[k].i_id, notes[k].f_id));
                let (p0, a0) = choose|p0: int, a0: int|
                    #![auto]
                    0 <= p0 < list@.len() && 0 <= a0 < list@[p0].1@.len() && list@[p0].0
                        == notes[k].i_id && list@[p0].1@[a0].0 == notes[k].f_id;
                assert(self.inst@.contains_key(list@[p0].0));
                let d = list@[p0].1@[a0].1;
                assert(spec_is_max_duration(notes, list@[p0].0, list@[p0].1@[a0].0, d@));
                assert(self.inst@[notes[k].i_id].keys@[notes[k].f_id].audio.samples@.len()
                    == spec_sample_count(d@ as int, self.params.sample_rate as int));
            }
            assert(spec_notes_ready(notes, self.inst@, self.f_lu, self.params));
        }
        Ok(())
    }

    /// Mixes every note's rendition additively into one zero-initialized
    /// interleaved buffer of `total` flat samples.
    #[verifier::rlimit(60)]
    fn mix_notes(
        notes: &Vec<Note>,
        inst: &HashMap<usize, Instrument<G>>,
        params: PCMParameters,
        total: usize,
    ) -> (out: Vec<i128>)
        requires
            forall|k: int|
                0 <= k < notes@.len() ==> spec_note_fits(#[trigger] notes@[k], params),
            forall|k: int|
                0 <= k < notes@.len() ==> spec_note_ready(#[trigger] notes@[k], inst@, params),
        ensures
            out@.len() == total,
            forall|t: int|
                0 <= t < total ==> #[trigger] out@[t] == spec_mix(notes@, inst@, params, t),
    {
        broadcast use vstd::std_specs::hash::group_hash_axioms;

        let mut out: Vec<i128> = Vec::new();
        while out.len() < total
            invariant
                out@.len() <= total,
                forall|t: int| 0 <= t < out@.len() ==> #[trigger] out@[t] == 0,
            decreases total - out@.len(),
        {
            out.push(0);
        }
        let ghost notes_g = notes@;
        let ghost insts_g = inst@;
        let ghost params_g = params;
        let rate = params.sample_rate;
        let channels = params.nb_channels;
        let nb_notes = notes.len();
        let c_usize = channels as usize;
        let mut k: usize = 0;
        while k < nb_notes
            invariant
                notes_g == notes@,
                insts_g == inst@,
                params_g == params,
                nb_notes == notes_g.len(),
                k <= nb_notes,
                rate == params_g.sample_rate,
                channels == params_g.nb_channels,
                c_usize == channels as usize,
                forall|m: int|
                    0 <= m < notes_g.len() ==> spec_note_fits(#[trigger] notes_g[m], params_g),
                forall|m: int|
                    0 <= m < notes_g.len() ==> spec_note_ready(
                        #[trigger] notes_g[m],
                        insts_g,
                        params_g,
                    ),
                forall|m: int|
                    0 <= m < k ==> (#[trigger] notes_g[m]).spec_gain() <= FORCE_UNIT,
                out@.len() == total,
                forall|t: int|
                    0 <= t < total ==> #[trigger] out@[t] == spec_mix(
                        notes_g.take(k as int),
                        insts_g,
                        params_g,
                        t,
                    ),
            decreases nb_notes - k,
        {
            broadcast use vstd::std_specs::hash::group_hash_axioms;

            let note = notes[k];
            let instrument = match inst.get(&note.i_id) {
                Some(instrument) => instrument,
                None => {
                    proof {
                        assert(false);
                    }
                    return Vec::new();
                },
            };
            let sound = match instrument.gen_sound(note.f_id, note.t_span.duration()) {
                Ok(sound) => sound,
                Err(_) => {
                    proof {
                        assert(false);
                    }
                    return Vec::new();
                },
            };
            let ghost key_samples = spec_key_samples(insts_g, note);
            let nb = sound.samples.len();
            let mut sound_samples = sound.samples;
            proof {
                assert(nb == spec_note_samples(note, params_g));
                assert forall|j: int|
                    0 <= j < nb implies -AMPLITUDE_UNIT <= #[trigger] sound_samples@[j]
                    <= AMPLITUDE_UNIT by {
                    assert(sound_samples@[j] == spec_looped(key_samples, j));
                    if key_samples.len() > 1 {
                        vstd::arithmetic::div_mod::lemma_mod_bound(j, key_samples.len() - 1);
                        assert(-AMPLITUDE_UNIT <= key_samples[j % (key_samples.len() - 1)]
                            <= AMPLITUDE_UNIT);
                    } else if key_samples.len() == 1 {
                        assert(-AMPLITUDE_UNIT <= key_samples[0] <= AMPLITUDE_UNIT);
                    }
                }
            }
            apply_falloff(&mut sound_samples);
            proof {
                assert forall|j: int| 0 <= j < nb implies #[trigger] sound_samples@[j]
                    == spec_rendered(key_samples, nb as int, j) by {}
            }
            let volumes = note.get_volume(c_usize);
            proof {
                assert(note.t_span.spec_start() as int * rate as int <= u128::MAX
                    && note.t_span.spec_start() as int * rate as int * channels as int + (
                TICKS_PER_SECOND as int) / 2 <= (u128::MAX as int) / 4) by (nonlinear_arith)
                    requires
                        0 <= note.t_span.spec_start() as int <= u64::MAX,
                        0 <= rate as int <= u32::MAX,
                        0 <= channels as int <= u16::MAX,
                ;
                vstd::arithmetic::div_mod::lemma_div_pos_is_pos(
                    note.t_span.spec_start() as int * rate as int * channels as int + (
                    TICKS_PER_SECOND as int) / 2,
                    TICKS_PER_SECOND as int,
                );
            }
            let start_num: u128 = note.t_span.start_at().get() as u128 * rate as u128 * channels
                as u128 + (TICKS_PER_SECOND as u128) / 2;
            let start_idx: u128 = start_num / TICKS_PER_SECOND as u128;
            proof {
                assert(start_idx == spec_note_start(note, params_g));
                vstd::arithmetic::div_mod::lemma_div_nonincreasing(
                    start_num as int,
                    TICKS_PER_SECOND as int,
                );
            }
            let mut j: usize = 0;
            while j < nb
                invariant
                    j <= nb,
                        notes_g == notes@,
                    insts_g == inst@,
                    params_g == params,
                    k < notes_g.len(),
                    note == notes_g[k as int],
                    rate == params_g.sample_rate,
                    channels == params_g.nb_channels,
                    c_usize == channels as usize,
                    nb == spec_note_samples(note, params_g),
                    start_idx == spec_note_start(note, params_g),
                    start_idx as int <= (u128::MAX as int) / 4,
                    sound_samples@.len() == nb,
                    forall|jj: int|
                        0 <= jj < nb ==> #[trigger] sound_samples@[jj] == spec_rendered(
                            key_samples,
                            nb as int,
                            jj,
                        ),
                    forall|jj: int|
                        0 <= jj < nb ==> -AMPLITUDE_UNIT <= #[trigger] sound_samples@[jj]
                            <= AMPLITUDE_UNIT,
                    key_samples == spec_key_samples(insts_g, note),
                    volumes@.len() == c_usize,
                    forall|ch: int|
                        0 <= ch < c_usize ==> (#[trigger] volumes@[ch])@ == note.spec_gain(),
                    note.spec_gain() <= FORCE_UNIT,
                    forall|m: int|
                        0 <= m < notes_g.len() ==> spec_note_ready(
                            #[trigger] notes_g[m],
                            insts_g,
                            params_g,
                        ),
                    forall|m: int|
                        0 <= m < k ==> (#[trigger] notes_g[m]).spec_gain() <= FORCE_UNIT,
                    out@.len() == total,
                    forall|t: int|
                        0 <= t < total ==> #[trigger] out@[t] == spec_mix(
                            notes_g.take(k as int),
                            insts_g,
                            params_g,
                            t,
                        ) + spec_partial_contribution(
                            insts_g,
                            note,
                            params_g,
                            t,
                            j as int * channels as int,
                        ),
                decreases nb - j,
            {
                let mut ch: usize = 0;
                while ch < c_usize
                    invariant
                        ch <= c_usize,
                        j < nb,
                                notes_g == notes@,
                        insts_g == inst@,
                        params_g == params,
                        k < notes_g.len(),
                        note == notes_g[k as int],
                        rate == params_g.sample_rate,
                        channels == params_g.nb_channels,
                        c_usize == channels as usize,
                        nb == spec_note_samples(note, params_g),
                        start_idx == spec_note_start(note, params_g),
                        start_idx as int <= (u128::MAX as int) / 4,
                        sound_samples@.len() == nb,
                        forall|jj: int|
                            0 <= jj < nb ==> #[trigger] sound_samples@[jj] == spec_rendered(
                                key_samples,
                                nb as int,
                                jj,
                            ),
                        forall|jj: int|
                            0 <= jj < nb ==> -AMPLITUDE_UNIT <= #[trigger] sound_samples@[jj]
                                <= AMPLITUDE_UNIT,
                        key_samples == spec_key_samples(insts_g, note),
                        volumes@.len() == c_usize,
                        forall|ch0: int|
                            0 <= ch0 < c_usize ==> (#[trigger] volumes@[ch0])@
                                == note.spec_gain(),
                        note.spec_gain() <= FORCE_UNIT,
                        forall|m: int|
                            0 <= m < notes_g.len() ==> spec_note_ready(
                                #[trigger] notes_g[m],
                                insts_g,
                                params_g,
                            ),
                        forall|m: int|
                            0 <= m < k ==> (#[trigger] notes_g[m]).spec_gain() <= FORCE_UNIT,
                        out@.len() == total,
                        forall|t: int|
                            0 <= t < total ==> #[trigger] out@[t] == spec_mix(
                                notes_g.take(k as int),
                                insts_g,
                                params_g,
                                t,
                            ) + spec_partial_contribution(
                                insts_g,
                                note,
                                params_g,
                                t,
                                j as int * channels as int + ch as int,
                            ),
                    decreases c_usize - ch,
                {
                    proof {
                        let nbc = nb as int * channels as int;
                        let off = j as int * channels as int + ch as int;
                        assert(off < nbc && off <= u64::MAX * 0x10000) by (nonlinear_arith)
                            requires
                                0 <= j < nb <= u64::MAX,
                                0 <= ch < channels as int <= 0x10000,
                                nbc == nb as int * channels as int,
                                off == j as int * channels as int + ch as int,
                        ;
                    }
                    let idx128: u128 = start_idx + (j as u128) * (channels as u128) + (ch
                        as u128);
                    let ghost t = idx128 as int;
                    let ghost limit = j as int * channels as int + ch as int;
                    proof {
                        vstd::arithmetic::div_mod::lemma_fundamental_div_mod_converse(
                            t - start_idx as int,
                            channels as int,
                            j as int,
                            ch as int,
                        );
                        assert(spec_contribution(insts_g, note, params_g, t) == spec_div_trunc(
                            spec_rendered(key_samples, nb as int, j as int) * note.spec_gain(),
                            FORCE_UNIT as int,
                        ));
                    }
                    if idx128 < total as u128 {
                        let ti = idx128 as usize;
                        let gain = volumes[ch].get();
                        let delta = scale_trunc(sound_samples[j], gain, FORCE_UNIT);
                        proof {
                            assert(forall|m: int|
                                0 <= m < k ==> spec_note_ready(
                                    #[trigger] notes_g.take(k as int)[m],
                                    insts_g,
                                    params_g,
                                ) && (#[trigger] notes_g.take(k as int)[m]).spec_gain()
                                    <= FORCE_UNIT);
                            lemma_mix_bound(notes_g.take(k as int), insts_g, params_g, t);
                            assert(notes_g.take(k as int).len() as int * AMPLITUDE_UNIT
                                + AMPLITUDE_UNIT < i128::MAX) by (nonlinear_arith)
                                requires
                                    0 <= notes_g.take(k as int).len() <= 0xffff_ffff_ffff_ffffu64,
                            ;
                            assert(spec_partial_contribution(insts_g, note, params_g, t, limit)
                                == 0);
                        }
                        let updated = out[ti] + delta;
                        out[ti] = updated;
                        proof {
                            assert(delta == spec_contribution(insts_g, note, params_g, t));
                            assert forall|t0: int| 0 <= t0 < total implies #[trigger] out@[t0]
                                == spec_mix(notes_g.take(k as int), insts_g, params_g, t0)
                                + spec_partial_contribution(
                                insts_g,
                                note,
                                params_g,
                                t0,
                                limit + 1,
                            ) by {
                                if t0 != t {
                                    assert(spec_partial_contribution(
                                        insts_g,
                                        note,
                                        params_g,
                                        t0,
                                        limit + 1,
                                    ) == spec_partial_contribution(
                                        insts_g,
                                        note,
                                        params_g,
                                        t0,
                                        limit,
                                    ));
                                }
                            }
                        }
                    } else {
                        proof {
                            assert forall|t0: int| 0 <= t0 < total implies #[trigger] out@[t0]
                                == spec_mix(notes_g.take(k as int), insts_g, params_g, t0)
                                + spec_partial_contribution(
                                insts_g,
                                note,
                                params_g,
                                t0,
                                limit + 1,
                            ) by {
                                assert(spec_partial_contribution(
                                    insts_g,
                                    note,
                                    params_g,
                                    t0,
                                    limit + 1,
                                ) == spec_partial_contribution(
                                    insts_g,
                                    note,
                                    params_g,
                                    t0,
                                    limit,
                                ));
                            }
                        }
                    }
                    ch = ch + 1;
                }
                proof {
                    assert(j as int * channels as int + c_usize as int == ((j + 1) as int)
                        * (channels as int)) by (nonlinear_arith)
                        requires
                            c_usize as int == channels as int,
                    ;
                }
                j = j + 1;
            }
            proof {
                // The whole window is mixed in: the partial contribution
                // is now the note's full contribution.
                assert forall|t0: int| 0 <= t0 < total implies #[trigger] out@[t0] == spec_mix(
                    notes_g.take(k + 1),
                    insts_g,
                    params_g,
                    t0,
                ) by {
                    assert(spec_partial_contribution(
                        insts_g,
                        note,
                        params_g,
                        t0,
                        nb as int * channels as int,
                    ) == spec_contribution(insts_g, note, params_g, t0));
                    assert(notes_g.take(k + 1).drop_last() =~= notes_g.take(k as int));
                    assert(notes_g.take(k + 1).last() == note);
                }
            }
            k = k + 1;
        }
        proof {
            assert(notes_g.take(nb_notes as int) =~= notes_g);
        }
        out
    }

    /// Runs the synthesizer and generates music: sorts the sequence,
    /// bulk-synthesizes every demanded key, and additively mixes every
    /// note's rendition into one zero-initialized interleaved output
    /// buffer. The run succeeds exactly when the sequence has notes,
    /// every note's instrument exists and every demanded frequency
    /// resolves; the first failure aborts the whole run and no partial
    /// output is produced. Every output sample is the superposition of
    /// the notes' contributions at its position.
    #[verifier::rlimit(100)]
    pub fn run(&mut self) -> (r: Result<PCM, SynthesizerError>)
        requires
            forall|k: int|
                0 <= k < old(self).seq.notes@.len() ==> spec_note_fits(
                    #[trigger] old(self).seq.notes@[k],
                    old(self).params,
                ),
        ensures
            final(self).params == old(self).params,
            final(self).f_lu == old(self).f_lu,
            final(self).inst@.dom() == old(self).inst@.dom(),
            sorted_by_start(final(self).seq.notes@),
            final(self).seq.notes@.to_multiset() == old(self).seq.notes@.to_multiset(),
            final(self).seq.notes@.len() == old(self).seq.notes@.len(),
            final(self).seq.loop_info@ == old(self).seq.loop_info@,
            match r {
                Ok(p) => {
                    &&& final(self).seq.notes@.len() > 0
                    &&& spec_notes_ready(
                        final(self).seq.notes@,
                        final(self).inst@,
                        final(self).f_lu,
                        old(self).params,
                    )
                    &&& p.parameters == old(self).params
                    &&& p.loop_info@.len() == 0
                    &&& p.samples@.len() == spec_flat_samples(
                        spec_max_end(final(self).seq.notes@),
                        old(self).params,
                    )
                    &&& forall|t: int|
                        0 <= t < p.samples@.len() ==> #[trigger] p.samples@[t] == spec_mix(
                            final(self).seq.notes@,
                            final(self).inst@,
                            old(self).params,
                            t,
                        )
                },
                Err(e) => {
                    ||| (final(self).seq.notes@.len() == 0 && e == (SynthesizerError::EmptySequence(
                        EmptySequenceError {  },
                    )))
                    ||| (exists|k: int|
                        0 <= k < final(self).seq.notes@.len() && !final(self).inst@.contains_key(
                            (#[trigger] final(self).seq.notes@[k]).i_id,
                        ))
                    ||| (exists|k: int|
                        0 <= k < final(self).seq.notes@.len() && final(self).f_lu.spec_freq(
                            (#[trigger] final(self).seq.notes@[k]).f_id,
                        ) is None)
                },
            },
    {
        broadcast use vstd::std_specs::hash::group_hash_axioms;

        self.seq.sort_by_time();
        proof {
            // The sorted notes are the same notes, so each still fits.
            broadcast use vstd::seq_lib::group_to_multiset_ensures;

            assert forall|k: int| 0 <= k < self.seq.notes@.len() implies spec_note_fits(
                #[trigger] self.seq.notes@[k],
                self.params,
            ) by {
                let note = self.seq.notes@[k];
                assert(self.seq.notes@.contains(note));
                assert(old(self).seq.notes@.to_multiset().count(note) > 0);
                assert(old(self).seq.notes@.contains(note));
                let j = choose|j: int|
                    0 <= j < old(self).seq.notes@.len() && old(self).seq.notes@[j] == note;
            }
        }
        match self.gen_inst_keys() {
            Ok(()) => {
                proof {
                    assert forall|m: int| 0 <= m < self.seq.notes@.len() implies spec_note_ready(
                        #[trigger] self.seq.notes@[m],
                        self.inst@,
                        self.params,
                    ) by {}
                }
            },
            Err(e) => {
                return Err(e);
            },
        }
        let duration = match self.seq.calc_music_duration() {
            Ok(d) => d,
            Err(e) => {
                return Err(SynthesizerError::EmptySequence(e));
            },
        };
        proof {
            lemma_max_end_bounds(self.seq.notes@);
            let k1 = choose|k: int|
                0 <= k < self.seq.notes@.len() && (#[trigger] self.seq.notes@[k]).t_span.spec_end()
                    == duration@;
            let k2 = choose|k: int|
                0 <= k < self.seq.notes@.len() && (#[trigger] self.seq.notes@[k]).t_span.spec_end()
                    == spec_max_end(self.seq.notes@);
            assert(duration@ == spec_max_end(self.seq.notes@));
            assert(spec_flat_samples(duration@ as int, self.params) <= usize::MAX);
        }
        let rate = self.params.sample_rate;
        let channels = self.params.nb_channels;
        proof {
            assert(duration@ as int * rate as int <= u128::MAX && duration@ as int * rate
                as int * channels as int + (TICKS_PER_SECOND as int) / 2 <= (u128::MAX as int)
                / 4) by (nonlinear_arith)
                requires
                    0 <= duration@ as int <= u64::MAX,
                    0 <= rate as int <= u32::MAX,
                    0 <= channels as int <= u16::MAX,
            ;
            vstd::arithmetic::div_mod::lemma_div_pos_is_pos(
                duration@ as int * rate as int * channels as int + (TICKS_PER_SECOND as int)
                    / 2,
                TICKS_PER_SECOND as int,
            );
        }
        let total_num: u128 = duration.get() as u128 * rate as u128 * channels as u128 + (
        TICKS_PER_SECOND as u128) / 2;
        let total: usize = (total_num / TICKS_PER_SECOND as u128) as usize;
        proof {
            assert(total == spec_flat_samples(spec_max_end(self.seq.notes@), self.params));
        }
        let out = Self::mix_notes(&self.seq.notes, &self.inst, self.params, total);
        Ok(PCM { parameters: self.params, loop_info: Vec::new(), samples: out })
    }
}

} // verus!
