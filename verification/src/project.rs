//! The project: the session's settings and its tracks.

use vstd::prelude::*;

use crate::track::Track;

verus! {

/// IEEE-754 bit pattern of the `f64` value 120.0, the default tempo.
pub const DEFAULT_BPM_BITS: u64 = 0x405e_0000_0000_0000;

/// Why a project could not be saved.
#[derive(Clone, Copy, Debug, PartialEq, Eq, Structural)]
pub enum ProjectError {
    /// Neither a path was given nor had the project been saved before.
    NoSavePath,
}

/// Persistent project state.
#[derive(Debug)]
pub struct Project {
    pub name: String,
    /// Sample rate used when the project was created.
    pub sample_rate: u32,
    /// Bit pattern of the `f64` tempo in BPM (single tempo).
    pub bpm_bits: u64,
    /// Numerator of the time signature (e.g. 4 in 4/4).
    pub time_sig_numerator: u8,
    /// Denominator of the time signature as a power of two (e.g. 4 in 4/4).
    pub time_sig_denominator: u8,
    pub tracks: Vec<Track>,
    /// Path of the most recent save location.
    pub path: Option<String>,
}

/// The longest track length among `tracks`, 0 when there is none.
pub open spec fn max_track_length(tracks: Seq<Track>) -> nat
    decreases tracks.len(),
{
    if tracks.len() == 0 {
        0
    } else {
        let rest = max_track_length(tracks.drop_last());
        let e = tracks.last().spec_length();
        if e > rest { e } else { rest }
    }
}

/// `max_track_length` bounds every track's length and is one of them (or 0).
pub proof fn lemma_max_track_length(tracks: Seq<Track>)
    ensures
        forall|i: int| 0 <= i < tracks.len() ==> (#[trigger] tracks[i]).spec_length() <= max_track_length(tracks),
        tracks.len() == 0 ==> max_track_length(tracks) == 0,
        tracks.len() > 0 ==> exists|i: int| 0 <= i < tracks.len()
            && (#[trigger] tracks[i]).spec_length() == max_track_length(tracks),
    decreases tracks.len(),
{
    if tracks.len() > 0 {
        let init = tracks.drop_last();
        lemma_max_track_length(init);
        assert forall|i: int| 0 <= i < tracks.len() implies (#[trigger] tracks[i]).spec_length() <= max_track_length(tracks) by {
            if i < tracks.len() - 1 {
                assert(tracks[i] == init[i]);
            }
        }
        if init.len() > 0 && max_track_length(init) >= tracks.last().spec_length() {
            let j = choose|j: int| 0 <= j < init.len() && (#[trigger] init[j]).spec_length() == max_track_length(init);
            assert(tracks[j] == init[j]);
        } else {
            assert(tracks[tracks.len() - 1] == tracks.last());
        }
    }
}

impl Clone for Project {
    fn clone(&self) -> (r: Project)
        ensures
            r.same_settings(*self),
            r.tracks@.len() == self.tracks@.len(),
            forall|i: int| 0 <= i < self.tracks@.len() ==> (#[trigger] r.tracks@[i]).same_content(self.tracks@[i]),
    {
        let tracks = self.tracks.clone();
        Project {
            name: self.name.clone(),
            sample_rate: self.sample_rate,
            bpm_bits: self.bpm_bits,
            time_sig_numerator: self.time_sig_numerator,
            time_sig_denominator: self.time_sig_denominator,
            tracks,
            path: self.path.clone(),
        }
    }
}

impl Project {
    /// The two projects hold the same settings, whatever their tracks.
    pub open spec fn same_settings(self, other: Project) -> bool {
        &&& self.name == other.name
        &&& self.sample_rate == other.sample_rate
        &&& self.bpm_bits == other.bpm_bits
        &&& self.time_sig_numerator == other.time_sig_numerator
        &&& self.time_sig_denominator == other.time_sig_denominator
        &&& self.path == other.path
    }

    /// Every clip's end position, on every track, fits in a `u64`.
    pub open spec fn ends_fit(self) -> bool {
        forall|i: int| 0 <= i < self.tracks@.len() ==> (#[trigger] self.tracks@[i]).ends_fit()
    }

    /// Duration of the longest track in samples.
    pub open spec fn spec_length(self) -> nat {
        max_track_length(self.tracks@)
    }

    /// A blank project: 120 BPM, 4/4, no tracks, never saved.
    pub fn new(name: String, sample_rate: u32) -> (r: Project)
        ensures
            r.name == name,
            r.sample_rate == sample_rate,
            r.bpm_bits == DEFAULT_BPM_BITS,
            r.time_sig_numerator == 4,
            r.time_sig_denominator == 4,
            r.tracks@.len() == 0,
            r.path is None,
    {
        Project {
            name,
            sample_rate,
            bpm_bits: DEFAULT_BPM_BITS,
            time_sig_numerator: 4,
            time_sig_denominator: 4,
            tracks: Vec::new(),
            path: None,
        }
    }

    /// Where a save goes: the given path, which also becomes the project's
    /// path, or else the path it was last saved to or opened from.
    pub fn save_target(&mut self, path: Option<String>) -> (r: Result<String, ProjectError>)
        ensures
            final(self).tracks@ == old(self).tracks@,
            final(self).name == old(self).name,
            final(self).sample_rate == old(self).sample_rate,
            final(self).bpm_bits == old(self).bpm_bits,
            final(self).time_sig_numerator == old(self).time_sig_numerator,
            final(self).time_sig_denominator == old(self).time_sig_denominator,
            match path {
                Some(p) => r == Ok::<String, ProjectError>(p) && final(self).path == Some(p),
                None => final(self).path == old(self).path && match old(self).path {
                    Some(p) => r == Ok::<String, ProjectError>(p),
                    None => r == Err::<String, ProjectError>(ProjectError::NoSavePath),
                },
            },
    {
        match path {
            Some(p) => {
                self.path = Some(p.clone());
                Ok(p)
            },
            None => match &self.path {
                Some(p) => Ok(p.clone()),
                None => Err(ProjectError::NoSavePath),
            },
        }
    }

    /// Add a track to the project and return its index.
    pub fn add_track(&mut self, track: Track) -> (idx: usize)
        requires
            old(self).tracks@.len() < usize::MAX,
        ensures
            idx == old(self).tracks@.len(),
            final(self).tracks@ == old(self).tracks@.push(track),
            final(self).same_settings(*old(self)),
    {
        let idx = self.tracks.len();
        self.tracks.push(track);
        idx
    }

    /// Remove a track by index, returning it; `None`, changing nothing,
    /// when there is no such track.
    pub fn remove_track(&mut self, index: usize) -> (r: Option<Track>)
        ensures
            final(self).same_settings(*old(self)),
            index < old(self).tracks@.len() ==> r == Some(old(self).tracks@[index as int])
                && final(self).tracks@ == old(self).tracks@.remove(index as int),
            index >= old(self).tracks@.len() ==> r is None && final(self).tracks@ == old(self).tracks@,
    {
        if index < self.tracks.len() {
            Some(self.tracks.remove(index))
        } else {
            None
        }
    }

    /// Whether every clip's end position fits in a `u64`, which the length
    /// computations need.
    pub fn check_ends_fit(&self) -> (r: bool)
        ensures
            r == self.ends_fit(),
    {
        let n = self.tracks.len();
        let mut i: usize = 0;
        while i < n
            invariant
                n == self.tracks@.len(),
                i <= n,
                forall|j: int| 0 <= j < i ==> (#[trigger] self.tracks@[j]).ends_fit(),
            decreases n - i,
        {
            if !self.tracks[i].check_ends_fit() {
                return false;
            }
            i += 1;
        }
        true
    }

    /// Duration of the longest track in samples (0 without tracks).
    pub fn length_samples(&self) -> (r: u64)
        requires
            self.ends_fit(),
        ensures
            r == self.spec_length(),
    {
        let n = self.tracks.len();
        let mut best: u64 = 0;
        let mut i: usize = 0;
        while i < n
            invariant
                n == self.tracks@.len(),
                i <= n,
                self.ends_fit(),
                best == max_track_length(self.tracks@.take(i as int)),
            decreases n - i,
        {
            proof {
                assert(self.tracks@.take(i + 1).drop_last() =~= self.tracks@.take(i as int));
                assert(self.tracks@[i as int].ends_fit());
            }
            let e = self.tracks[i].length_samples();
            if e > best {
                best = e;
            }
            i += 1;
        }
        proof {
            assert(self.tracks@.take(n as int) =~= self.tracks@);
        }
        best
    }
}

/// Removing the track just added gives it back and leaves the tracks as
/// they were before.
pub proof fn lemma_add_then_remove(tracks: Seq<Track>, t: Track)
    ensures
        tracks.push(t)[tracks.len() as int] == t,
        tracks.push(t).remove(tracks.len() as int) == tracks,
{
    assert(tracks.push(t).remove(tracks.len() as int) =~= tracks);
}

/// No clip of the project ends after the project's length.
pub proof fn lemma_length_bounds_clips(p: Project)
    ensures
        forall|ti: int, ci: int| 0 <= ti < p.tracks@.len() && 0 <= ci < p.tracks@[ti].clips@.len()
            ==> (#[trigger] p.tracks@[ti].clips@[ci]).spec_end() <= p.spec_length(),
{
    lemma_max_track_length(p.tracks@);
    assert forall|ti: int, ci: int| 0 <= ti < p.tracks@.len() && 0 <= ci < p.tracks@[ti].clips@.len()
        implies (#[trigger] p.tracks@[ti].clips@[ci]).spec_end() <= p.spec_length() by {
        crate::track::lemma_max_clip_end(p.tracks@[ti].clips@);
        assert(p.tracks@[ti].spec_length() <= p.spec_length());
    }
}

} // verus!
