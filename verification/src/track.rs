//! Tracks and the audio clips (regions) arranged on them.

use vstd::prelude::*;

verus! {

/// IEEE-754 bit pattern of the `f32` value 1.0 (unity gain or volume).
pub const UNITY_F32_BITS: u32 = 0x3f80_0000;

/// IEEE-754 bit pattern of the `f32` value 0.0 (centre pan).
pub const ZERO_F32_BITS: u32 = 0;

/// What the header of a clip's source WAV file says: the total number of
/// samples over all channels, and the number of channels (never zero).
#[derive(Clone, Copy, Debug)]
pub struct SourceInfo {
    total_samples: u32,
    channels: u16,
}

impl SourceInfo {
    #[verifier::type_invariant]
    spec fn has_channels(self) -> bool {
        self.channels >= 1
    }

    /// Total samples over all channels, as the header states it.
    pub closed spec fn spec_total_samples(self) -> nat {
        self.total_samples as nat
    }

    /// Number of interleaved channels.
    pub closed spec fn spec_channels(self) -> nat {
        self.channels as nat
    }

    /// Duration in frames (samples per channel).
    pub open spec fn spec_frames(self) -> nat {
        self.spec_total_samples() / self.spec_channels()
    }

    /// A file's frames are its whole samples per channel: the frames hold no
    /// more samples than the file and leave less than one frame over.
    pub proof fn lemma_frames(self)
        ensures
            self.spec_channels() >= 1 ==> self.spec_frames() * self.spec_channels() <= self.spec_total_samples()
                < (self.spec_frames() + 1) * self.spec_channels(),
    {
        if self.spec_channels() >= 1 {
            let t = self.spec_total_samples() as int;
            let ch = self.spec_channels() as int;
            assert(t / ch * ch <= t < (t / ch + 1) * ch) by (nonlinear_arith)
                requires ch >= 1, t >= 0;
        }
    }

    /// The header of a file holding `total_samples` samples over
    /// `channels` channels; `None` for a header that claims no channels.
    pub fn from_header(total_samples: u32, channels: u16) -> (r: Option<SourceInfo>)
        ensures
            r is Some <==> channels >= 1,
            r matches Some(info) ==> info.spec_total_samples() == total_samples
                && info.spec_channels() == channels,
    {
        if channels >= 1 {
            Some(SourceInfo { total_samples, channels })
        } else {
            None
        }
    }

    pub fn total_samples(&self) -> (r: u32)
        ensures
            r == self.spec_total_samples(),
    {
        self.total_samples
    }

    pub fn channels(&self) -> (r: u16)
        ensures
            r == self.spec_channels(),
            r >= 1,
    {
        proof {
            use_type_invariant(self);
        }
        self.channels
    }

    /// Duration of the file in frames: total samples divided by channels.
    pub fn frames(&self) -> (r: u64)
        ensures
            r == self.spec_frames(),
            self.spec_channels() >= 1,
    {
        proof {
            use_type_invariant(self);
        }
        (self.total_samples / (self.channels as u32)) as u64
    }
}

/// A single audio clip (region) on a track, backed by a WAV file on disk.
#[derive(Debug)]
pub struct AudioClip {
    /// Display name of the clip.
    pub name: String,
    /// Absolute or project-relative path to the source WAV file.
    pub source_path: String,
    /// Header of the source file; `None` when the file could not be read.
    pub source: Option<SourceInfo>,
    /// Start position of the clip on the timeline (in samples).
    pub timeline_start: u64,
    /// Offset into the source file where playback begins (in samples).
    pub source_offset: u64,
    /// Number of samples from `source_offset` to play. `None` = entire file.
    pub length: Option<u64>,
    /// Bit pattern of the `f32` linear gain applied to this clip.
    pub gain_bits: u32,
    /// Fade-in duration in samples.
    pub fade_in_samples: u64,
    /// Fade-out duration in samples.
    pub fade_out_samples: u64,
    /// When true the clip is excluded from playback and export.
    pub muted: bool,
}

impl Clone for AudioClip {
    fn clone(&self) -> (r: AudioClip)
        ensures
            r == *self,
    {
        AudioClip {
            name: self.name.clone(),
            source_path: self.source_path.clone(),
            source: self.source,
            timeline_start: self.timeline_start,
            source_offset: self.source_offset,
            length: self.length,
            gain_bits: self.gain_bits,
            fade_in_samples: self.fade_in_samples,
            fade_out_samples: self.fade_out_samples,
            muted: self.muted,
        }
    }
}

impl AudioClip {
    /// The clip's effective length in samples: `length` if set, otherwise
    /// the duration of the source file, or 0 when it could not be read.
    pub open spec fn spec_effective_length(self) -> nat {
        match self.length {
            Some(l) => l as nat,
            None => match self.source {
                Some(info) => info.spec_frames(),
                None => 0,
            },
        }
    }

    /// Timeline end position (exclusive) in samples.
    pub open spec fn spec_end(self) -> nat {
        self.timeline_start as nat + self.spec_effective_length()
    }

    /// The end position fits in a `u64`.
    pub open spec fn end_fits(self) -> bool {
        self.spec_end() <= u64::MAX
    }

    /// Whether the clip sounds at timeline position `t`.
    pub open spec fn covers(self, t: int) -> bool {
        self.timeline_start <= t < self.spec_end()
    }

    /// The source frame that plays at timeline position `t`.
    pub open spec fn source_frame_at(self, t: int) -> int {
        self.source_offset + (t - self.timeline_start)
    }

    /// A clip on the timeline at `timeline_start` playing the whole of
    /// `source_path`, unmuted, at unity gain and with no fades.
    pub fn new(name: String, source_path: String, source: Option<SourceInfo>, timeline_start: u64) -> (r: AudioClip)
        ensures
            r.name == name,
            r.source_path == source_path,
            r.source == source,
            r.timeline_start == timeline_start,
            r.source_offset == 0,
            r.length is None,
            r.gain_bits == UNITY_F32_BITS,
            r.fade_in_samples == 0,
            r.fade_out_samples == 0,
            !r.muted,
    {
        AudioClip {
            name,
            source_path,
            source,
            timeline_start,
            source_offset: 0,
            length: None,
            gain_bits: UNITY_F32_BITS,
            fade_in_samples: 0,
            fade_out_samples: 0,
            muted: false,
        }
    }

    pub fn effective_length(&self) -> (r: u64)
        ensures
            r == self.spec_effective_length(),
    {
        match self.length {
            Some(l) => l,
            None => match &self.source {
                Some(info) => info.frames(),
                None => 0,
            },
        }
    }

    pub fn timeline_end(&self) -> (r: u64)
        requires
            self.end_fits(),
        ensures
            r == self.spec_end(),
    {
        self.timeline_start + self.effective_length()
    }

    /// Number of channels in the source file, taken as 1 when it could not
    /// be read.
    pub fn source_channels(&self) -> (r: u16)
        ensures
            r >= 1,
            r == match self.source {
                Some(info) => info.spec_channels(),
                None => 1,
            },
    {
        match &self.source {
            Some(info) => info.channels(),
            None => 1,
        }
    }
}

/// Track kind used to select appropriate processing.
#[derive(Clone, Copy, Debug, PartialEq, Eq, Structural)]
pub enum TrackKind {
    Audio,
    Bus,
}

/// Why a clip could not be split.
#[derive(Clone, Copy, Debug, PartialEq, Eq, Structural)]
pub enum SplitError {
    /// There is no clip at the given index.
    ClipIndexOutOfRange,
    /// The split point is not strictly inside the clip `[start, end)`.
    OutsideClip { split_point: u64, start: u64, end: u64 },
}

/// A single track in a DAW project.
#[derive(Debug)]
pub struct Track {
    pub name: String,
    pub kind: TrackKind,
    /// Bit pattern of the `f32` linear volume (1.0 = 0 dBFS).
    pub volume_bits: u32,
    /// Bit pattern of the `f32` pan position in [-1.0, 1.0] (0.0 = centre).
    pub pan_bits: u32,
    pub muted: bool,
    pub soloed: bool,
    pub arm: bool,
    /// The clips arranged on this track's timeline.
    pub clips: Vec<AudioClip>,
}

impl Clone for Track {
    fn clone(&self) -> (r: Track)
        ensures
            r.same_content(*self),
    {
        let clips = self.clips.clone();
        proof {
            assert(clips@ =~= self.clips@);
        }
        Track {
            name: self.name.clone(),
            kind: self.kind,
            volume_bits: self.volume_bits,
            pan_bits: self.pan_bits,
            muted: self.muted,
            soloed: self.soloed,
            arm: self.arm,
            clips,
        }
    }
}

/// The largest end position among `clips`, 0 when there is none.
pub open spec fn max_clip_end(clips: Seq<AudioClip>) -> nat
    decreases clips.len(),
{
    if clips.len() == 0 {
        0
    } else {
        let rest = max_clip_end(clips.drop_last());
        let e = clips.last().spec_end();
        if e > rest { e } else { rest }
    }
}

/// Every clip's end position fits in a `u64`.
pub open spec fn clip_ends_fit(clips: Seq<AudioClip>) -> bool {
    forall|i: int| 0 <= i < clips.len() ==> (#[trigger] clips[i]).end_fits()
}

/// The clip is heard somewhere in the range `[start, end)`.
pub open spec fn sounds_in(c: AudioClip, start: int, end: int) -> bool {
    !c.muted && c.timeline_start < end && c.spec_end() > start
}

/// A clip with some length is heard in a non-empty range exactly when it is
/// unmuted and covers some position of the range.
pub proof fn lemma_sounds_in_covers(c: AudioClip, start: int, end: int)
    requires
        start < end,
        c.spec_effective_length() > 0,
    ensures
        sounds_in(c, start, end) <==> !c.muted && exists|t: int| start <= t < end && #[trigger] c.covers(t),
{
    if sounds_in(c, start, end) {
        let t = if c.timeline_start >= start { c.timeline_start as int } else { start };
        assert(c.covers(t));
    }
}

/// `max_clip_end` bounds every clip's end and is one of them (or 0).
pub proof fn lemma_max_clip_end(clips: Seq<AudioClip>)
    ensures
        forall|i: int| 0 <= i < clips.len() ==> (#[trigger] clips[i]).spec_end() <= max_clip_end(clips),
        clips.len() == 0 ==> max_clip_end(clips) == 0,
        clips.len() > 0 ==> exists|i: int| 0 <= i < clips.len() && (#[trigger] clips[i]).spec_end() == max_clip_end(clips),
    decreases clips.len(),
{
    if clips.len() > 0 {
        let init = clips.drop_last();
        lemma_max_clip_end(init);
        assert forall|i: int| 0 <= i < clips.len() implies (#[trigger] clips[i]).spec_end() <= max_clip_end(clips) by {
            if i < clips.len() - 1 {
                assert(clips[i] == init[i]);
            }
        }
        if init.len() > 0 && max_clip_end(init) >= clips.last().spec_end() {
            let j = choose|j: int| 0 <= j < init.len() && (#[trigger] init[j]).spec_end() == max_clip_end(init);
            assert(clips[j] == init[j]);
        } else {
            assert(clips[clips.len() - 1] == clips.last());
        }
    }
}

/// The first half of `c` split at timeline position `split_point`: it keeps
/// everything but its length, which now ends at the split point.
pub open spec fn split_left(c: AudioClip, split_point: u64) -> AudioClip {
    AudioClip { length: Some((split_point - c.timeline_start) as u64), ..c }
}

/// The second half of `c` split at timeline position `split_point`: it starts
/// there, reads the source from the matching offset, and lasts the rest of
/// the clip's effective length, so that it ends where the clip ended.
pub open spec fn split_right(c: AudioClip, split_point: u64) -> AudioClip {
    let off = split_point - c.timeline_start;
    AudioClip {
        timeline_start: split_point,
        source_offset: (c.source_offset + off) as u64,
        length: Some((c.spec_effective_length() - off) as u64),
        ..c
    }
}

/// The split point lies strictly inside the clip.
pub open spec fn split_inside(c: AudioClip, split_point: u64) -> bool {
    c.timeline_start < split_point < c.spec_end()
}

/// Splitting tiles the clip: the left part covers the positions before the
/// split point, the right part those from it on to where the clip ended,
/// each playing the same source frame as the clip did, and the two parts
/// cover nothing else.
pub proof fn lemma_split_keeps_sound(c: AudioClip, split_point: u64)
    requires
        c.end_fits(),
        split_inside(c, split_point),
        c.source_offset + (split_point - c.timeline_start) <= u64::MAX,
    ensures
        split_left(c, split_point).timeline_start == c.timeline_start,
        split_left(c, split_point).spec_end() == split_point,
        split_right(c, split_point).timeline_start == split_point,
        forall|t: int| c.covers(t) && t < split_point ==> split_left(c, split_point).covers(t)
            && split_left(c, split_point).source_frame_at(t) == c.source_frame_at(t),
        forall|t: int| c.covers(t) && t >= split_point ==> split_right(c, split_point).covers(t)
            && split_right(c, split_point).source_frame_at(t) == c.source_frame_at(t),
        split_right(c, split_point).spec_end() == c.spec_end(),
        forall|t: int| split_left(c, split_point).covers(t) ==> c.covers(t),
        forall|t: int| split_right(c, split_point).covers(t) ==> c.covers(t),
{
}

/// An upper bound of every clip's end bounds their maximum.
proof fn lemma_max_clip_end_le(clips: Seq<AudioClip>, b: nat)
    requires
        forall|i: int| 0 <= i < clips.len() ==> (#[trigger] clips[i]).spec_end() <= b,
    ensures
        max_clip_end(clips) <= b,
{
    lemma_max_clip_end(clips);
    if clips.len() > 0 {
        let j = choose|j: int| 0 <= j < clips.len() && (#[trigger] clips[j]).spec_end() == max_clip_end(clips);
    }
}

/// Splitting a clip leaves the track's length as it was.
pub proof fn lemma_split_keeps_length(clips: Seq<AudioClip>, idx: int, split_point: u64)
    requires
        0 <= idx < clips.len(),
        clips[idx].end_fits(),
        split_inside(clips[idx], split_point),
        clips[idx].source_offset + (split_point - clips[idx].timeline_start) <= u64::MAX,
    ensures
        max_clip_end(clips.take(idx) + seq![split_left(clips[idx], split_point), split_right(clips[idx], split_point)]
            + clips.skip(idx + 1)) == max_clip_end(clips),
{
    let c = clips[idx];
    let l = split_left(c, split_point);
    let r = split_right(c, split_point);
    let s = clips.take(idx) + seq![l, r] + clips.skip(idx + 1);
    lemma_split_keeps_sound(c, split_point);
    lemma_max_clip_end(clips);
    lemma_max_clip_end(s);
    assert(s.len() == clips.len() + 1);
    assert forall|i: int| 0 <= i < s.len() implies (#[trigger] s[i]).spec_end() <= max_clip_end(clips) by {
        if i < idx {
            assert(s[i] == clips[i]);
        } else if i == idx {
            assert(s[i] == l);
        } else if i == idx + 1 {
            assert(s[i] == r);
        } else {
            assert(s[i] == clips[i - 1]);
        }
    }
    lemma_max_clip_end_le(s, max_clip_end(clips));
    if clips.len() > 0 {
        let j = choose|j: int| 0 <= j < clips.len() && (#[trigger] clips[j]).spec_end() == max_clip_end(clips);
        if j < idx {
            assert(s[j] == clips[j]);
        } else if j == idx {
            assert(s[idx + 1] == r);
        } else {
            assert(s[j + 1] == clips[j]);
        }
    }
}

impl Track {
    /// The two tracks hold the same settings and the same clips.
    pub open spec fn same_content(self, other: Track) -> bool {
        &&& self.same_settings(other)
        &&& self.clips@ == other.clips@
    }

    /// The two tracks hold the same settings, whatever their clips.
    pub open spec fn same_settings(self, other: Track) -> bool {
        &&& self.name == other.name
        &&& self.kind == other.kind
        &&& self.volume_bits == other.volume_bits
        &&& self.pan_bits == other.pan_bits
        &&& self.muted == other.muted
        &&& self.soloed == other.soloed
        &&& self.arm == other.arm
    }

    /// All clips' end positions fit in a `u64`.
    pub open spec fn ends_fit(self) -> bool {
        clip_ends_fit(self.clips@)
    }

    /// Total length of this track: the end sample of the last-ending clip.
    pub open spec fn spec_length(self) -> nat {
        max_clip_end(self.clips@)
    }

    /// An empty audio track at unity volume, centred, with no flags set.
    pub fn audio(name: String) -> (r: Track)
        ensures
            r.name == name,
            r.kind == TrackKind::Audio,
            r.volume_bits == UNITY_F32_BITS,
            r.pan_bits == ZERO_F32_BITS,
            !r.muted && !r.soloed && !r.arm,
            r.clips@.len() == 0,
    {
        Track {
            name,
            kind: TrackKind::Audio,
            volume_bits: UNITY_F32_BITS,
            pan_bits: ZERO_F32_BITS,
            muted: false,
            soloed: false,
            arm: false,
            clips: Vec::new(),
        }
    }

    /// An empty bus track at unity volume, centred, with no flags set.
    pub fn bus(name: String) -> (r: Track)
        ensures
            r.name == name,
            r.kind == TrackKind::Bus,
            r.volume_bits == UNITY_F32_BITS,
            r.pan_bits == ZERO_F32_BITS,
            !r.muted && !r.soloed && !r.arm,
            r.clips@.len() == 0,
    {
        Track {
            name,
            kind: TrackKind::Bus,
            volume_bits: UNITY_F32_BITS,
            pan_bits: ZERO_F32_BITS,
            muted: false,
            soloed: false,
            arm: false,
            clips: Vec::new(),
        }
    }

    /// Add a clip and return its index.
    pub fn add_clip(&mut self, clip: AudioClip) -> (idx: usize)
        requires
            old(self).clips@.len() < usize::MAX,
        ensures
            idx == old(self).clips@.len(),
            final(self).clips@ == old(self).clips@.push(clip),
            final(self).name == old(self).name,
            final(self).kind == old(self).kind,
            final(self).volume_bits == old(self).volume_bits,
            final(self).pan_bits == old(self).pan_bits,
            final(self).muted == old(self).muted,
            final(self).soloed == old(self).soloed,
            final(self).arm == old(self).arm,
    {
        let idx = self.clips.len();
        self.clips.push(clip);
        idx
    }

    /// Split the clip at `clip_idx` at the absolute timeline position
    /// `split_point`: the clip is replaced, in place, with its two halves
    /// (`split_left`, `split_right`). Fails, changing nothing, when there is
    /// no such clip or the point is not strictly inside it.
    pub fn split_clip(&mut self, clip_idx: usize, split_point: u64) -> (r: Result<(), SplitError>)
        requires
            clip_idx < old(self).clips@.len() ==> old(self).clips@[clip_idx as int].end_fits(),
            clip_idx < old(self).clips@.len() && split_inside(old(self).clips@[clip_idx as int], split_point)
                ==> old(self).clips@[clip_idx as int].source_offset
                    + (split_point - old(self).clips@[clip_idx as int].timeline_start) <= u64::MAX,
        ensures
            final(self).same_settings(*old(self)),
            clip_idx >= old(self).clips@.len() ==> r == Err::<(), SplitError>(SplitError::ClipIndexOutOfRange)
                && final(self).clips@ == old(self).clips@,
            clip_idx < old(self).clips@.len() && !split_inside(old(self).clips@[clip_idx as int], split_point)
                ==> r == Err::<(), SplitError>(SplitError::OutsideClip {
                    split_point,
                    start: old(self).clips@[clip_idx as int].timeline_start,
                    end: old(self).clips@[clip_idx as int].spec_end() as u64,
                }) && final(self).clips@ == old(self).clips@,
            clip_idx < old(self).clips@.len() && split_inside(old(self).clips@[clip_idx as int], split_point)
                ==> r is Ok && final(self).clips@ == old(self).clips@.take(clip_idx as int)
                    + seq![split_left(old(self).clips@[clip_idx as int], split_point),
                           split_right(old(self).clips@[clip_idx as int], split_point)]
                    + old(self).clips@.skip(clip_idx + 1),
    {
        if clip_idx >= self.clips.len() {
            return Err(SplitError::ClipIndexOutOfRange);
        }
        let clip = &self.clips[clip_idx];
        let start = clip.timeline_start;
        let end = clip.timeline_end();

        if split_point <= start || split_point >= end {
            return Err(SplitError::OutsideClip { split_point, start, end });
        }

        let mut left = clip.clone();
        let mut right = clip.clone();

        let split_offset = split_point - start;
        left.length = Some(split_offset);

        right.timeline_start = split_point;
        right.source_offset = clip.source_offset + split_offset;
        right.length = Some(clip.effective_length() - split_offset);

        let ghost old_clips = self.clips@;
        self.clips.remove(clip_idx);
        self.clips.insert(clip_idx, right);
        self.clips.insert(clip_idx, left);
        proof {
            assert(self.clips@ =~= old_clips.take(clip_idx as int)
                + seq![split_left(old_clips[clip_idx as int], split_point),
                       split_right(old_clips[clip_idx as int], split_point)]
                + old_clips.skip(clip_idx + 1));
        }
        Ok(())
    }

    /// Whether every clip's end position fits in a `u64`, which the
    /// length computations need.
    pub fn check_ends_fit(&self) -> (r: bool)
        ensures
            r == self.ends_fit(),
    {
        let n = self.clips.len();
        let mut i: usize = 0;
        while i < n
            invariant
                n == self.clips@.len(),
                i <= n,
                forall|j: int| 0 <= j < i ==> (#[trigger] self.clips@[j]).end_fits(),
            decreases n - i,
        {
            let c = &self.clips[i];
            if c.timeline_start > u64::MAX - c.effective_length() {
                return false;
            }
            i += 1;
        }
        true
    }

    /// Total length of this track: the end sample of the last-ending clip,
    /// 0 for a track without clips.
    pub fn length_samples(&self) -> (r: u64)
        requires
            self.ends_fit(),
        ensures
            r == self.spec_length(),
    {
        let n = self.clips.len();
        let mut best: u64 = 0;
        let mut i: usize = 0;
        while i < n
            invariant
                n == self.clips@.len(),
                i <= n,
                self.ends_fit(),
                best == max_clip_end(self.clips@.take(i as int)),
            decreases n - i,
        {
            proof {
                assert(self.clips@.take(i + 1).drop_last() =~= self.clips@.take(i as int));
                assert(self.clips@[i as int].end_fits());
            }
            let e = self.clips[i].timeline_end();
            if e > best {
                best = e;
            }
            i += 1;
        }
        proof {
            assert(self.clips@.take(n as int) =~= self.clips@);
        }
        best
    }

    /// Indices, in order, of the unmuted clips that overlap the timeline
    /// range `[start, start + len)` (none when the range is empty).
    pub fn clips_in_range(&self, start: u64, len: u64) -> (r: Vec<usize>)
        requires
            forall|i: int| 0 <= i < self.clips@.len() && len > 0 && !(#[trigger] self.clips@[i]).muted
                && self.clips@[i].timeline_start < start + len ==> self.clips@[i].end_fits(),
            start + len <= u64::MAX,
        ensures
            forall|k: int| 0 <= k < r@.len() ==> (#[trigger] r@[k]) < self.clips@.len() && len > 0
                && sounds_in(self.clips@[r@[k] as int], start as int, start + len),
            forall|k1: int, k2: int| 0 <= k1 < k2 < r@.len() ==> r@[k1] < r@[k2],
            forall|i: int| 0 <= i < self.clips@.len() && len > 0
                && sounds_in(#[trigger] self.clips@[i], start as int, start + len) ==> r@.contains(i as usize),
    {
        let end = start + len;
        let n = self.clips.len();
        let mut r: Vec<usize> = Vec::new();
        let mut i: usize = 0;
        while i < n
            invariant
                n == self.clips@.len(),
                i <= n,
                end == start + len,
                forall|j: int| 0 <= j < self.clips@.len() && len > 0 && !(#[trigger] self.clips@[j]).muted
                    && self.clips@[j].timeline_start < end ==> self.clips@[j].end_fits(),
                forall|k: int| 0 <= k < r@.len() ==> (#[trigger] r@[k]) < i && len > 0
                    && sounds_in(self.clips@[r@[k] as int], start as int, end as int),
                forall|k1: int, k2: int| 0 <= k1 < k2 < r@.len() ==> r@[k1] < r@[k2],
                forall|j: int| 0 <= j < i && len > 0 && sounds_in(#[trigger] self.clips@[j], start as int, end as int)
                    ==> r@.contains(j as usize),
            decreases n - i,
        {
            let c = &self.clips[i];
            if len > 0 && !c.muted && c.timeline_start < end && c.timeline_end() > start {
                let ghost prev = r@;
                r.push(i);
                proof {
                    assert forall|j: int| 0 <= j < i + 1 && len > 0 && sounds_in(#[trigger] self.clips@[j], start as int, end as int)
                        implies r@.contains(j as usize) by {
                        if j < i {
                            let k = choose|k: int| 0 <= k < prev.len() && prev[k] == j as usize;
                            assert(r@[k] == j as usize);
                        } else {
                            assert(r@[prev.len() as int] == j as usize);
                        }
                    }
                }
            }
            i += 1;
        }
        r
    }
}

} // verus!
