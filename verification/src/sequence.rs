use vstd::prelude::*;

use crate::error::EmptySequenceError;
use crate::util::{Duration, TimeSpan, Volume, FORCE_UNIT};

verus! {

/// A single note played by a single instrument at a certain point in time;
/// part of a Sequence.
#[derive(Clone, Copy, Debug)]
pub struct Note {
    /// Defines exactly when this note is played in the sequence.
    pub t_span: TimeSpan,
    /// Velocities of the note.
    pub vel: Velocity,
    /// Identifier defined by the frequency lookup.
    pub f_id: usize,
    /// Which instrument plays this note.
    pub i_id: usize,
}

/// Holds velocities for a Note.
#[derive(Clone, Copy, Debug)]
pub struct Velocity {
    /// Velocity when pressed.
    pub on: Option<Volume>,
    /// Velocity when released.
    pub off: Option<Volume>,
}

impl Note {
    /// The per-channel gain of this note, in force units: its press velocity,
    /// or full force when no press velocity is given.
    pub open spec fn spec_gain(self) -> u32 {
        match self.vel.on {
            Some(v) => v@,
            None => FORCE_UNIT,
        }
    }

    /// Returns one gain value per output channel, derived from the press
    /// velocity; every channel of a note is scaled by the same gain.
    pub fn get_volume(&self, nb_channels: usize) -> (r: Vec<Volume>)
        ensures
            r@.len() == nb_channels,
            forall|i: int| 0 <= i < nb_channels ==> (#[trigger] r@[i])@ == self.spec_gain(),
            self.spec_gain() <= FORCE_UNIT,
    {
        let g = match self.vel.on {
            Some(v) => v,
            None => Volume::full(),
        };
        let _gain_bound = g.get();
        let mut r: Vec<Volume> = Vec::new();
        let mut c: usize = 0;
        while c < nb_channels
            invariant
                c <= nb_channels,
                r@.len() == c,
                forall|i: int| 0 <= i < c ==> (#[trigger] r@[i])@ == self.spec_gain(),
                g@ == self.spec_gain(),
            decreases nb_channels - c,
        {
            r.push(g);
            c = c + 1;
        }
        r
    }
}

/// True when the notes stand in chronological order of their start points.
pub open spec fn sorted_by_start(notes: Seq<Note>) -> bool {
    forall|i: int, j: int|
        0 <= i < j < notes.len() ==> notes[i].t_span.spec_start() <= notes[j].t_span.spec_start()
}

/// True when some note of `notes` plays frequency `f_id` on instrument
/// `i_id`.
pub open spec fn spec_demands(notes: Seq<Note>, i_id: usize, f_id: usize) -> bool {
    exists|k: int|
        0 <= k < notes.len() && (#[trigger] notes[k]).i_id == i_id && notes[k].f_id == f_id
}

/// True when `d` is the longest duration over all notes of `notes` that play
/// frequency `f_id` on instrument `i_id`.
pub open spec fn spec_is_max_duration(notes: Seq<Note>, i_id: usize, f_id: usize, d: u64) -> bool {
    &&& exists|k: int|
        0 <= k < notes.len() && (#[trigger] notes[k]).i_id == i_id && notes[k].f_id == f_id
            && notes[k].t_span.spec_duration() == d
    &&& forall|k: int|
        0 <= k < notes.len() && (#[trigger] notes[k]).i_id == i_id && notes[k].f_id == f_id
            ==> notes[k].t_span.spec_duration() <= d
}

/// True when the demand list `r` holds an entry for instrument `i_id` whose
/// frequency list holds `f_id`.
pub open spec fn spec_demand_listed(
    r: Seq<(usize, Vec<(usize, Duration)>)>,
    i_id: usize,
    f_id: usize,
) -> bool {
    exists|p: int, a: int|
        #![auto]
        0 <= p < r.len() && 0 <= a < r[p].1@.len() && r[p].0 == i_id && r[p].1@[a].0 == f_id
}

/// True when the demand list `r` faithfully aggregates `notes`: one entry
/// per used instrument, each carrying every frequency that instrument must
/// play, paired with the longest duration any note demands of it.
pub open spec fn spec_demand_list(r: Seq<(usize, Vec<(usize, Duration)>)>, notes: Seq<Note>) -> bool {
    &&& forall|p: int, q: int| 0 <= p < q < r.len() ==> (#[trigger] r[p]).0 != (#[trigger] r[q]).0
    &&& forall|p: int| 0 <= p < r.len() ==> (#[trigger] r[p]).1@.len() > 0
    &&& forall|p: int, a: int, b: int|
        0 <= p < r.len() && 0 <= a < b < r[p].1@.len() ==> (#[trigger] r[p].1@[a]).0 != (
        #[trigger] r[p].1@[b]).0
    &&& forall|p: int, a: int|
        #![auto]
        0 <= p < r.len() && 0 <= a < r[p].1@.len() ==> spec_demands(notes, r[p].0, r[p].1@[a].0)
            && spec_is_max_duration(notes, r[p].0, r[p].1@[a].0, r[p].1@[a].1@)
    &&& forall|k: int|
        0 <= k < notes.len() ==> spec_demand_listed(
            r,
            (#[trigger] notes[k]).i_id,
            notes[k].f_id,
        )
}

/// Appending a note that does not demand the pair (`i_id`, `f_id`), or that
/// demands it no longer than `d`, keeps `d` the longest demanded duration.
proof fn lemma_max_duration_push(notes: Seq<Note>, x: Note, i_id: usize, f_id: usize, d: u64)
    requires
        spec_is_max_duration(notes, i_id, f_id, d),
        x.i_id == i_id && x.f_id == f_id ==> x.t_span.spec_duration() <= d,
    ensures
        spec_is_max_duration(notes.push(x), i_id, f_id, d),
{
    let bigger = notes.push(x);
    let k = choose|k: int|
        0 <= k < notes.len() && (#[trigger] notes[k]).i_id == i_id && notes[k].f_id == f_id
            && notes[k].t_span.spec_duration() == d;
    assert(bigger[k] == notes[k]);
    assert(forall|k: int| 0 <= k < notes.len() ==> #[trigger] bigger[k] == notes[k]);
}

/// Appending a note keeps every previously demanded pair demanded.
proof fn lemma_demands_push(notes: Seq<Note>, x: Note, i_id: usize, f_id: usize)
    requires
        spec_demands(notes, i_id, f_id),
    ensures
        spec_demands(notes.push(x), i_id, f_id),
{
    let bigger = notes.push(x);
    let k = choose|k: int|
        0 <= k < notes.len() && (#[trigger] notes[k]).i_id == i_id && notes[k].f_id == f_id;
    assert(bigger[k] == notes[k]);
}

/// Represents a sequence of notes forming music; think of it as a music
/// sheet.
#[derive(Clone, Debug)]
pub struct Sequence {
    /// The notes composing the sequence.
    pub notes: Vec<Note>,
    /// Optional looping information about the music.
    pub loop_info: Vec<TimeSpan>,
}

impl Sequence {
    /// Creates a new empty sequence.
    pub fn new() -> (r: Sequence)
        ensures
            r.notes@.len() == 0,
            r.loop_info@.len() == 0,
    {
        Sequence { notes: Vec::new(), loop_info: Vec::new() }
    }

    /// Adds a note at the end of the sequence.
    pub fn add_note(&mut self, other: Note)
        ensures
            final(self).notes@ == old(self).notes@.push(other),
            final(self).loop_info@ == old(self).loop_info@,
    {
        self.notes.push(other);
    }

    /// Sorts all notes in the sequence chronologically by their start
    /// points. The sorted notes are a rearrangement of the original ones.
    pub fn sort_by_time(&mut self)
        ensures
            sorted_by_start(final(self).notes@),
            final(self).notes@.to_multiset() == old(self).notes@.to_multiset(),
            final(self).notes@.len() == old(self).notes@.len(),
            final(self).loop_info@ == old(self).loop_info@,
    {
        broadcast use vstd::seq_lib::group_to_multiset_ensures;

        let ghost original = self.notes@;
        let mut sorted_notes: Vec<Note> = Vec::new();
        let mut idx: usize = 0;
        while idx < self.notes.len()
            invariant
                idx <= self.notes@.len(),
                self.notes@ == original,
                sorted_by_start(sorted_notes@),
                sorted_notes@.to_multiset() == original.take(idx as int).to_multiset(),
                sorted_notes@.len() == idx,
            decreases self.notes@.len() - idx,
        {
            let note = self.notes[idx];
            let start = note.t_span.start_at();
            let mut pos: usize = sorted_notes.len();
            while pos > 0 && sorted_notes[pos - 1].t_span.start_at().get() > start.get()
                invariant
                    pos <= sorted_notes@.len(),
                    start@ == note.t_span.spec_start(),
                    forall|k: int|
                        pos <= k < sorted_notes@.len() ==> (#[trigger] sorted_notes@[k])
                            .t_span.spec_start() > note.t_span.spec_start(),
                decreases pos,
            {
                pos = pos - 1;
            }
            proof {
                vstd::seq_lib::to_multiset_insert(sorted_notes@, pos as int, note);
                assert(original.take(idx + 1) =~= original.take(idx as int).push(original[idx as int]));
            }
            let ghost before = sorted_notes@;
            sorted_notes.insert(pos, note);
            proof {
                assert(sorted_notes@ == before.insert(pos as int, note));
                assert(sorted_notes@.to_multiset() == before.to_multiset().insert(note));
                vstd::seq_lib::to_multiset_build(original.take(idx as int), original[idx as int]);
                assert(sorted_notes@.to_multiset() == original.take(idx + 1).to_multiset());
                assert forall|i: int, j: int|
                    0 <= i < j < sorted_notes@.len() implies sorted_notes@[i].t_span.spec_start()
                    <= sorted_notes@[j].t_span.spec_start() by {
                    if i < pos && j == pos {
                        assert(sorted_notes@[i] == before[i]);
                    } else if i == pos && j > pos {
                        assert(sorted_notes@[j] == before[j - 1]);
                    }
                }
            }
            idx = idx + 1;
        }
        proof {
            assert(original.take(self.notes@.len() as int) =~= original);
        }
        self.notes = sorted_notes;
    }

    /// Finds out how long the music is: the latest end point over all notes.
    /// A sequence with no notes has no defined duration and is rejected.
    pub fn calc_music_duration(&self) -> (r: Result<Duration, EmptySequenceError>)
        ensures
            match r {
                Ok(d) => {
                    &&& self.notes@.len() > 0
                    &&& forall|k: int|
                        0 <= k < self.notes@.len() ==> (#[trigger] self.notes@[k])
                            .t_span.spec_end() <= d@
                    &&& exists|k: int|
                        0 <= k < self.notes@.len() && (#[trigger] self.notes@[k])
                            .t_span.spec_end() == d@
                },
                Err(e) => self.notes@.len() == 0,
            },
    {
        let mut last_note_end_at: Option<Duration> = None;
        let mut idx: usize = 0;
        while idx < self.notes.len()
            invariant
                idx <= self.notes@.len(),
                match last_note_end_at {
                    Some(d) => {
                        &&& idx > 0
                        &&& forall|k: int|
                            0 <= k < idx ==> (#[trigger] self.notes@[k]).t_span.spec_end() <= d@
                        &&& exists|k: int|
                            0 <= k < idx && (#[trigger] self.notes@[k]).t_span.spec_end() == d@
                    },
                    None => idx == 0,
                },
            decreases self.notes@.len() - idx,
        {
            let end = self.notes[idx].t_span.end_at();
            match last_note_end_at {
                None => {
                    last_note_end_at = Some(end);
                },
                Some(lst) => {
                    if let core::cmp::Ordering::Greater = end.compare(lst) {
                        last_note_end_at = Some(end);
                    }
                },
            }
            idx = idx + 1;
        }
        match last_note_end_at {
            Some(d) => Ok(d),
            None => Err(EmptySequenceError {}),
        }
    }

    /// Aggregates, for every instrument used in the sequence, the distinct
    /// frequencies it must play, each paired with the longest duration any
    /// note demands at that frequency. This sizing drives bulk key
    /// synthesis: an instrument synthesizes each pitch once, at the longest
    /// required length, and truncates for shorter notes.
    pub fn list_freq_by_inst(&self) -> (r: Vec<(usize, Vec<(usize, Duration)>)>)
        ensures
            spec_demand_list(r@, self.notes@),
    {
        let mut list: Vec<(usize, Vec<(usize, Duration)>)> = Vec::new();
        let mut n: usize = 0;
        while n < self.notes.len()
            invariant
                n <= self.notes@.len(),
                spec_demand_list(list@, self.notes@.take(n as int)),
            decreases self.notes@.len() - n,
        {
            let ghost prefix = self.notes@.take(n as int);
            let ghost next_prefix = self.notes@.take(n + 1);
            proof {
                assert(next_prefix =~= prefix.push(self.notes@[n as int]));
            }
            let note = self.notes[n];
            let dur = note.t_span.duration();
            proof {
                assert(next_prefix[n as int] == note);
                assert(spec_demands(next_prefix, note.i_id, note.f_id));
            }
            let mut p: usize = 0;
            while p < list.len() && list[p].0 != note.i_id
                invariant
                    p <= list@.len(),
                    forall|q: int| 0 <= q < p ==> (#[trigger] list@[q]).0 != note.i_id,
                decreases list@.len() - p,
            {
                p = p + 1;
            }
            let ghost old_list = list@;
            if p == list.len() {
                // This instrument is new: no note of the prefix mentions it.
                proof {
                    assert forall|k: int| 0 <= k < prefix.len() implies (#[trigger] prefix[k]).i_id
                        != note.i_id by {
                        if prefix[k].i_id == note.i_id {
                            assert(spec_demand_listed(old_list, prefix[k].i_id, prefix[k].f_id));
                        }
                    }
                    assert(spec_is_max_duration(next_prefix, note.i_id, note.f_id, dur@));
                }
                let mut fl: Vec<(usize, Duration)> = Vec::new();
                fl.push((note.f_id, dur));
                list.push((note.i_id, fl));
                proof {
                    let ghost w = old_list.len() as int;
                    assert(list@.len() == w + 1);
                    assert(forall|q: int| 0 <= q < w ==> #[trigger] list@[q] == old_list[q]);
                    assert(list@[w].0 == note.i_id && list@[w].1@ =~= seq![(note.f_id, dur)]);
                    assert forall|p0: int, a0: int|
                        #![auto]
                        0 <= p0 < list@.len() && 0 <= a0 < list@[p0].1@.len() implies spec_demands(
                        next_prefix,
                        list@[p0].0,
                        list@[p0].1@[a0].0,
                    ) && spec_is_max_duration(
                        next_prefix,
                        list@[p0].0,
                        list@[p0].1@[a0].0,
                        list@[p0].1@[a0].1@,
                    ) by {
                        if p0 < w {
                            lemma_demands_push(prefix, note, old_list[p0].0, old_list[p0].1@[a0].0);
                            lemma_max_duration_push(
                                prefix,
                                note,
                                old_list[p0].0,
                                old_list[p0].1@[a0].0,
                                old_list[p0].1@[a0].1@,
                            );
                        }
                    }
                    assert forall|k: int| 0 <= k < next_prefix.len() implies spec_demand_listed(
                        list@,
                        (#[trigger] next_prefix[k]).i_id,
                        next_prefix[k].f_id,
                    ) by {
                        if k < n {
                            let (p0, a0) = choose|p0: int, a0: int|
                                #![auto]
                                0 <= p0 < old_list.len() && 0 <= a0 < old_list[p0].1@.len()
                                    && old_list[p0].0 == prefix[k].i_id && old_list[p0].1@[a0].0
                                    == prefix[k].f_id;
                            assert(list@[p0].0 == next_prefix[k].i_id && list@[p0].1@[a0].0
                                == next_prefix[k].f_id);
                        } else {
                            assert(list@[w].0 == next_prefix[k].i_id && list@[w].1@[0].0
                                == next_prefix[k].f_id);
                        }
                    }
                }
            } else {
                let mut entry = list.remove(p);
                let ghost old_fl = entry.1@;
                proof {
                    assert(old_list[p as int].1@ == old_fl && old_list[p as int].0 == note.i_id);
                }
                let mut a: usize = 0;
                while a < entry.1.len() && entry.1[a].0 != note.f_id
                    invariant
                        a <= entry.1@.len(),
                        entry.1@ == old_fl,
                        forall|b: int| 0 <= b < a ==> (#[trigger] entry.1@[b]).0 != note.f_id,
                    decreases entry.1@.len() - a,
                {
                    a = a + 1;
                }
                let ghost t = a as int;
                if a == entry.1.len() {
                    // This frequency is new for the instrument: no note of
                    // the prefix plays it there.
                    proof {
                        assert forall|k: int|
                            0 <= k < prefix.len() && (#[trigger] prefix[k]).i_id == note.i_id
                                implies prefix[k].f_id != note.f_id by {
                            if prefix[k].f_id == note.f_id {
                                assert(spec_demand_listed(
                                    old_list,
                                    prefix[k].i_id,
                                    prefix[k].f_id,
                                ));
                                let (p0, a0) = choose|p0: int, a0: int|
                                    #![auto]
                                    0 <= p0 < old_list.len() && 0 <= a0 < old_list[p0].1@.len()
                                        && old_list[p0].0 == prefix[k].i_id
                                        && old_list[p0].1@[a0].0 == prefix[k].f_id;
                                assert(p0 == p);
                            }
                        }
                    }
                    entry.1.push((note.f_id, dur));
                    proof {
                        assert(spec_is_max_duration(next_prefix, note.i_id, note.f_id, dur@));
                        assert(forall|b: int|
                            0 <= b < old_fl.len() && b != t ==> (#[trigger] old_fl[b]).0
                                != note.f_id);
                    }
                } else {
                    let cur_d = entry.1[a].1;
                    proof {
                        assert(old_fl[t].0 == note.f_id);
                        assert(spec_is_max_duration(prefix, note.i_id, note.f_id, old_fl[t].1@));
                        assert forall|b: int|
                            0 <= b < old_fl.len() && b != t implies (#[trigger] old_fl[b]).0
                            != note.f_id by {
                            if b < t {
                                assert((#[trigger] old_fl[b]).0 != note.f_id);
                            } else {
                                assert(old_fl[t].0 != old_fl[b].0);
                            }
                        }
                    }
                    if let core::cmp::Ordering::Greater = dur.compare(cur_d) {
                        entry.1.remove(a);
                        entry.1.insert(a, (note.f_id, dur));
                        proof {
                            assert(entry.1@ =~= old_fl.update(t, (note.f_id, dur)));
                            assert(spec_is_max_duration(next_prefix, note.i_id, note.f_id, dur@));
                        }
                    } else {
                        proof {
                            lemma_max_duration_push(
                                prefix,
                                note,
                                note.i_id,
                                note.f_id,
                                old_fl[t].1@,
                            );
                        }
                    }
                }
                let ghost new_fl = entry.1@;
                proof {
                    // What every arm above established about the new
                    // frequency list of this instrument.
                    assert(0 <= t < new_fl.len());
                    assert(new_fl[t].0 == note.f_id);
                    assert(spec_is_max_duration(next_prefix, note.i_id, note.f_id, new_fl[t].1@));
                    assert(forall|b: int|
                        0 <= b < new_fl.len() && b != t ==> 0 <= b < old_fl.len()
                            && #[trigger] new_fl[b] == old_fl[b]);
                    assert(forall|b: int|
                        0 <= b < old_fl.len() && b != t ==> (#[trigger] old_fl[b]).0 != note.f_id);
                }
                list.insert(p, entry);
                proof {
                    assert(list@.len() == old_list.len());
                    assert(forall|q: int|
                        0 <= q < list@.len() && q != p ==> #[trigger] list@[q] == old_list[q]);
                    assert(list@[p as int].0 == note.i_id && list@[p as int].1@ == new_fl);
                    assert forall|p0: int, a0: int|
                        #![auto]
                        0 <= p0 < list@.len() && 0 <= a0 < list@[p0].1@.len() implies spec_demands(
                        next_prefix,
                        list@[p0].0,
                        list@[p0].1@[a0].0,
                    ) && spec_is_max_duration(
                        next_prefix,
                        list@[p0].0,
                        list@[p0].1@[a0].0,
                        list@[p0].1@[a0].1@,
                    ) by {
                        if p0 != p {
                            lemma_demands_push(prefix, note, old_list[p0].0, old_list[p0].1@[a0].0);
                            lemma_max_duration_push(
                                prefix,
                                note,
                                old_list[p0].0,
                                old_list[p0].1@[a0].0,
                                old_list[p0].1@[a0].1@,
                            );
                        } else if a0 != t {
                            assert(new_fl[a0] == old_fl[a0]);
                            assert(old_fl[a0].0 != note.f_id);
                            lemma_demands_push(prefix, note, note.i_id, old_fl[a0].0);
                            lemma_max_duration_push(
                                prefix,
                                note,
                                note.i_id,
                                old_fl[a0].0,
                                old_fl[a0].1@,
                            );
                        }
                    }
                    assert forall|p0: int, a0: int, b0: int|
                        0 <= p0 < list@.len() && 0 <= a0 < b0 < list@[p0].1@.len() implies (
                    #[trigger] list@[p0].1@[a0]).0 != (#[trigger] list@[p0].1@[b0]).0 by {
                        if p0 == p {
                            if a0 != t && b0 != t {
                                assert(new_fl[a0] == old_fl[a0] && new_fl[b0] == old_fl[b0]);
                            } else if a0 == t {
                                assert(new_fl[b0] == old_fl[b0] && old_fl[b0].0 != note.f_id);
                            } else {
                                assert(new_fl[a0] == old_fl[a0] && old_fl[a0].0 != note.f_id);
                            }
                        }
                    }
                    assert forall|k: int| 0 <= k < next_prefix.len() implies spec_demand_listed(
                        list@,
                        (#[trigger] next_prefix[k]).i_id,
                        next_prefix[k].f_id,
                    ) by {
                        if k < n {
                            let (p0, a0) = choose|p0: int, a0: int|
                                #![auto]
                                0 <= p0 < old_list.len() && 0 <= a0 < old_list[p0].1@.len()
                                    && old_list[p0].0 == prefix[k].i_id && old_list[p0].1@[a0].0
                                    == prefix[k].f_id;
                            if p0 != p {
                                assert(list@[p0].0 == next_prefix[k].i_id && list@[p0].1@[a0].0
                                    == next_prefix[k].f_id);
                            } else {
                                if a0 == t {
                                    assert(list@[p0].1@[t].0 == note.f_id == old_fl[t].0);
                                } else {
                                    assert(list@[p0].1@[a0].0 == old_fl[a0].0);
                                }
                            }
                        } else {
                            assert(list@[p as int].0 == next_prefix[k].i_id
                                && list@[p as int].1@[t].0 == next_prefix[k].f_id);
                        }
                    }
                }
            }
            n = n + 1;
        }
        proof {
            assert(self.notes@.take(self.notes@.len() as int) =~= self.notes@);
        }
        list
    }
}

} // verus!
