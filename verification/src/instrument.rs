use vstd::prelude::*;

use crate::error::{NoKeyInInstrumentError, SynthesizerError};
use crate::frequency_lookup::FrequencyLookup;
use crate::key_generator::KeyGenerator;
use crate::pcm::{sample_count, spec_sample_count, PCMParameters, AMPLITUDE_UNIT, PCM};
use crate::util::{Duration, Frequency};
use std::collections::HashMap;

verus! {

/// Key of an instrument: one synthesized audio fragment for a single
/// pitch. Think of an instrument as having multiple physical keys to
/// press, each producing its own sound.
#[derive(Clone, Debug)]
pub struct Key {
    /// Audio of this key, a mono normalized PCM fragment.
    pub audio: PCM,
    /// The frequency of the audio fragment, in millihertz; matches the
    /// index of the key cache where the key came from one.
    pub frequency: Frequency,
}

/// A well-formed key for `frequency` at `sample_rate`: mono, `count`
/// samples long, and normalized to one amplitude unit.
pub open spec fn spec_key_wf(key: Key, sample_rate: u32, frequency: u64, count: int) -> bool {
    &&& key.audio.parameters == (PCMParameters { sample_rate, nb_channels: 1 })
    &&& key.audio.samples@.len() == count
    &&& forall|i: int|
        0 <= i < key.audio.samples@.len() ==> -AMPLITUDE_UNIT <= #[trigger] key.audio.samples@[i]
            <= AMPLITUDE_UNIT
    &&& key.frequency@ == frequency
}

/// The sample a one-period loop buffer `s` produces at position `i`: the
/// buffer wraps at its last sample so the waveform repeats seamlessly at
/// the key boundary; a buffer too short to wrap repeats its only sample,
/// and an empty buffer is silent.
pub open spec fn spec_looped(s: Seq<i128>, i: int) -> i128 {
    if s.len() == 0 {
        0
    } else if s.len() == 1 {
        s[0]
    } else {
        s[i % (s.len() - 1)]
    }
}

/// True when the demand list holds `id`.
pub open spec fn spec_demand_has(list: Seq<(usize, Duration)>, id: usize) -> bool {
    exists|k: int| 0 <= k < list.len() && (#[trigger] list[k]).0 == id
}

/// True when `k` is the last position of the demand list that names its
/// identifier, so its entry is the one a key cache keeps.
pub open spec fn spec_last_demand(list: Seq<(usize, Duration)>, k: int) -> bool {
    forall|j: int| k < j < list.len() ==> (#[trigger] list[j]).0 != list[k].0
}

/// Defines an instrument capable of playing notes.
pub struct Instrument<G: KeyGenerator> {
    /// Keys of the instrument, indexed by the frequency identifier
    /// defined by the frequency lookup.
    pub keys: HashMap<usize, Key>,
    /// The key generator that creates new keys when needed.
    pub key_gen: G,
    /// Whether this instrument is meant to loop back to the beginning of
    /// its sound when a note outlasts it. The rendering path treats every
    /// key as a one-period loop buffer; the flag lets callers and
    /// generators mark non-periodic sounds.
    pub loopable: bool,
}

impl<G: KeyGenerator> Instrument<G> {
    /// Synthesizes and caches one key for every demanded frequency
    /// identifier: each identifier is resolved through the lookup and
    /// handed to the key generator together with its demanded duration.
    /// Fails exactly when some demanded identifier has no frequency.
    pub fn gen_keys<L: FrequencyLookup>(
        &mut self,
        sample_rate: u32,
        f_id_duration: &[(usize, Duration)],
        f_lu: &L,
    ) -> (r: Result<(), SynthesizerError>)
        requires
            forall|k: int|
                0 <= k < f_id_duration@.len() ==> spec_sample_count(
                    (#[trigger] f_id_duration@[k]).1@ as int,
                    sample_rate as int,
                ) <= usize::MAX,
        ensures
            final(self).loopable == old(self).loopable,
            forall|id: usize|
                #![trigger final(self).keys@.contains_key(id)]
                final(self).keys@.contains_key(id) ==> old(self).keys@.contains_key(id)
                    || spec_demand_has(f_id_duration@, id),
            forall|id: usize|
                #![trigger old(self).keys@.contains_key(id)]
                old(self).keys@.contains_key(id) && !spec_demand_has(f_id_duration@, id)
                    ==> final(self).keys@.contains_key(id) && final(self).keys@[id] == old(
                    self,
                ).keys@[id],
            match r {
                Ok(()) => {
                    &&& forall|k: int|
                        0 <= k < f_id_duration@.len() ==> (#[trigger] f_lu.spec_freq(
                            f_id_duration@[k].0,
                        )) is Some
                    &&& forall|k: int|
                        0 <= k < f_id_duration@.len() && spec_last_demand(f_id_duration@, k)
                            ==> final(self).keys@.contains_key((#[trigger] f_id_duration@[k]).0)
                            && spec_key_wf(
                            final(self).keys@[f_id_duration@[k].0],
                            sample_rate,
                            f_lu.spec_freq(f_id_duration@[k].0).unwrap(),
                            spec_sample_count(f_id_duration@[k].1@ as int, sample_rate as int),
                        )
                },
                Err(e) => exists|k: int|
                    0 <= k < f_id_duration@.len() && (#[trigger] f_lu.spec_freq(
                        f_id_duration@[k].0,
                    )) is None,
            },
    {
        broadcast use vstd::std_specs::hash::group_hash_axioms;

        let mut k: usize = 0;
        while k < f_id_duration.len()
            invariant
                k <= f_id_duration@.len(),
                forall|j: int|
                    0 <= j < f_id_duration@.len() ==> spec_sample_count(
                        (#[trigger] f_id_duration@[j]).1@ as int,
                        sample_rate as int,
                    ) <= usize::MAX,
                self.loopable == old(self).loopable,
                forall|id: usize|
                    #![trigger self.keys@.contains_key(id)]
                    self.keys@.contains_key(id) ==> old(self).keys@.contains_key(id)
                        || spec_demand_has(f_id_duration@.take(k as int), id),
                forall|id: usize|
                    #![trigger old(self).keys@.contains_key(id)]
                    old(self).keys@.contains_key(id) && !spec_demand_has(
                        f_id_duration@.take(k as int),
                        id,
                    ) ==> self.keys@.contains_key(id) && self.keys@[id] == old(self).keys@[id],
                forall|j: int|
                    0 <= j < k ==> (#[trigger] f_lu.spec_freq(f_id_duration@[j].0)) is Some,
                forall|j: int|
                    0 <= j < k && spec_last_demand(f_id_duration@.take(k as int), j)
                        ==> self.keys@.contains_key((#[trigger] f_id_duration@[j]).0)
                        && spec_key_wf(
                        self.keys@[f_id_duration@[j].0],
                        sample_rate,
                        f_lu.spec_freq(f_id_duration@[j].0).unwrap(),
                        spec_sample_count(f_id_duration@[j].1@ as int, sample_rate as int),
                    ),
            decreases f_id_duration@.len() - k,
        {
            let ghost prev = self.keys@;
            let (f_id, duration) = f_id_duration[k];
            let freq = match f_lu.get_freq(f_id) {
                Ok(freq) => freq,
                Err(e) => {
                    proof {
                        assert forall|id: usize|
                            spec_demand_has(f_id_duration@.take(k as int), id)
                                implies spec_demand_has(f_id_duration@, id) by {
                            let j = choose|j: int|
                                0 <= j < k && (#[trigger] f_id_duration@.take(k as int)[j]).0
                                    == id;
                            assert((#[trigger] f_id_duration@[j]).0 == id);
                        }
                        assert(f_id_duration@[k as int].0 == f_id);
                    }
                    return Err(e);
                },
            };
            let key = self.key_gen.gen(sample_rate, freq, duration);
            self.keys.insert(f_id, key);
            proof {
                let pre = f_id_duration@.take(k as int);
                let cur = f_id_duration@.take(k + 1);
                assert(cur =~= pre.push(f_id_duration@[k as int]));
                assert(cur[k as int].0 == f_id);
                assert forall|id: usize|
                    self.keys@.contains_key(id) implies prev.contains_key(id) || id == f_id by {}
                assert forall|id: usize| spec_demand_has(pre, id) implies spec_demand_has(
                    cur,
                    id,
                ) by {
                    let j = choose|j: int| 0 <= j < pre.len() && (#[trigger] pre[j]).0 == id;
                    assert(cur[j].0 == id);
                }
                assert(spec_demand_has(cur, f_id)) by {
                    assert(cur[k as int].0 == f_id);
                }
                assert forall|id: usize|
                    old(self).keys@.contains_key(id) && !spec_demand_has(cur, id)
                        implies self.keys@.contains_key(id) && self.keys@[id] == old(
                    self,
                ).keys@[id] by {
                    assert(!spec_demand_has(pre, id));
                    assert(id != f_id);
                    assert(old(self).keys@.contains_key(id) && !spec_demand_has(
                        f_id_duration@.take(k as int),
                        id,
                    ));
                    assert(prev.contains_key(id) && prev[id] == old(self).keys@[id]);
                    assert(self.keys@ == prev.insert(f_id, key));
                    assert(self.keys@.contains_key(id) && self.keys@[id] == prev[id]);
                }
                assert forall|j: int|
                    0 <= j < k + 1 && spec_last_demand(cur, j) implies self.keys@.contains_key(
                    (#[trigger] f_id_duration@[j]).0,
                ) && spec_key_wf(
                    self.keys@[f_id_duration@[j].0],
                    sample_rate,
                    f_lu.spec_freq(f_id_duration@[j].0).unwrap(),
                    spec_sample_count(f_id_duration@[j].1@ as int, sample_rate as int),
                ) by {
                    if j == k {
                        assert(self.keys@[f_id] == key);
                    } else {
                        // Entry j keeps its key: it is still the last
                        // demand for its identifier, which the new entry
                        // does not name.
                        assert(cur[k as int].0 != cur[j].0);
                        assert(spec_last_demand(pre, j));
                        assert(self.keys@[f_id_duration@[j].0] == prev[f_id_duration@[j].0]);
                    }
                }
            }
            k = k + 1;
        }
        proof {
            assert(f_id_duration@.take(f_id_duration@.len() as int) =~= f_id_duration@);
        }
        Ok(())
    }

    /// "Plays" the instrument: renders the cached key of `f_id` for the
    /// requested duration, wrapping the key as a one-period loop buffer.
    /// Fails exactly when no key was synthesized for `f_id`.
    pub fn gen_sound(&self, f_id: usize, duration: Duration) -> (r: Result<PCM, SynthesizerError>)
        requires
            self.keys@.contains_key(f_id) ==> spec_sample_count(
                duration@ as int,
                self.keys@[f_id].audio.parameters.sample_rate as int,
            ) <= usize::MAX,
        ensures
            match r {
                Ok(p) => {
                    &&& self.keys@.contains_key(f_id)
                    &&& p.parameters == self.keys@[f_id].audio.parameters
                    &&& p.loop_info@.len() == 0
                    &&& p.samples@.len() == spec_sample_count(
                        duration@ as int,
                        p.parameters.sample_rate as int,
                    )
                    &&& forall|i: int|
                        0 <= i < p.samples@.len() ==> #[trigger] p.samples@[i] == spec_looped(
                            self.keys@[f_id].audio.samples@,
                            i,
                        )
                },
                Err(e) => !self.keys@.contains_key(f_id) && e == (SynthesizerError::NoKeyInInstrument(
                    NoKeyInInstrumentError { f_id },
                )),
            },
    {
        broadcast use vstd::std_specs::hash::group_hash_axioms;

        let key = match self.keys.get(&f_id) {
            Some(key) => key,
            None => {
                return Err(SynthesizerError::NoKeyInInstrument(NoKeyInInstrumentError { f_id }));
            },
        };
        let nb_samples = sample_count(duration, key.audio.parameters.sample_rate);
        let len = key.audio.samples.len();
        let mut pcm_out: Vec<i128> = Vec::new();
        let mut i: usize = 0;
        while i < nb_samples
            invariant
                i <= nb_samples,
                pcm_out@.len() == i,
                key == self.keys@[f_id],
                forall|j: int|
                    0 <= j < i ==> #[trigger] pcm_out@[j] == spec_looped(
                        key.audio.samples@,
                        j,
                    ),
                len == key.audio.samples@.len(),
            decreases nb_samples - i,
        {
            let s = if len == 0 {
                0
            } else if len == 1 {
                key.audio.samples[0]
            } else {
                key.audio.samples[i % (len - 1)]
            };
            pcm_out.push(s);
            i = i + 1;
        }
        Ok(PCM { parameters: key.audio.parameters, loop_info: Vec::new(), samples: pcm_out })
    }
}

} // verus!
