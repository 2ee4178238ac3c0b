//! Which part of each clip sounds inside a window of the timeline: the
//! common ground of the offline export and the real-time engine.

use vstd::prelude::*;

use crate::project::Project;
use crate::track::{sounds_in, AudioClip, Track};

verus! {

/// The stretch of a clip that sounds inside a timeline window starting at
/// `window_start`: output frames `[first_frame, end_frame)` counted from the
/// window start, the first of which plays clip position `first_clip_pos`
/// (and frame `first_frame + k` plays clip position `first_clip_pos + k`).
#[derive(Clone, Copy, Debug, PartialEq, Eq, Structural)]
pub struct ClipSpan {
    /// Index of the track in the project.
    pub track: usize,
    /// Index of the clip on its track.
    pub clip: usize,
    pub first_frame: u64,
    pub end_frame: u64,
    pub first_clip_pos: u64,
}

pub open spec fn max_int(a: int, b: int) -> int {
    if a >= b { a } else { b }
}

pub open spec fn min_int(a: int, b: int) -> int {
    if a <= b { a } else { b }
}

/// The span of clip `c` (clip `ci` of track `ti`) in the window `[ws, we)`.
pub open spec fn span_of(c: AudioClip, ti: int, ci: int, ws: int, we: int) -> ClipSpan {
    let first_tl = max_int(c.timeline_start as int, ws);
    ClipSpan {
        track: ti as usize,
        clip: ci as usize,
        first_frame: (first_tl - ws) as u64,
        end_frame: (min_int(c.spec_end() as int, we) - ws) as u64,
        first_clip_pos: (first_tl - c.timeline_start) as u64,
    }
}

/// Spans come in track order, and in clip order within a track.
pub open spec fn span_before(a: ClipSpan, b: ClipSpan) -> bool {
    a.track < b.track || (a.track == b.track && a.clip < b.clip)
}

/// Some track is soloed.
pub open spec fn any_solo(tracks: Seq<Track>) -> bool {
    exists|i: int| 0 <= i < tracks.len() && (#[trigger] tracks[i]).soloed
}

/// A track takes part in a mixdown: it is not muted, and it is soloed when
/// any track is.
pub open spec fn track_audible(tracks: Seq<Track>, ti: int) -> bool {
    !tracks[ti].muted && (!any_solo(tracks) || tracks[ti].soloed)
}

/// Clip `ci` of track `ti` is heard in an export of `[start, end)`.
pub open spec fn exported(p: Project, ti: int, ci: int, start: int, end: int) -> bool {
    &&& 0 <= ti < p.tracks@.len()
    &&& 0 <= ci < p.tracks@[ti].clips@.len()
    &&& track_audible(p.tracks@, ti)
    &&& sounds_in(p.tracks@[ti].clips@[ci], start, end)
}

/// The span of a clip that overlaps the window `[ws, we)`.
pub fn clip_span(c: &AudioClip, ti: usize, ci: usize, ws: u64, we: u64) -> (r: ClipSpan)
    requires
        c.end_fits(),
        ws <= we,
        c.timeline_start < we,
        c.spec_end() > ws,
    ensures
        r == span_of(*c, ti as int, ci as int, ws as int, we as int),
        r.first_frame <= r.end_frame <= we - ws,
{
    let end = c.timeline_end();
    let first_tl = if c.timeline_start >= ws { c.timeline_start } else { ws };
    let last_tl = if end <= we { end } else { we };
    ClipSpan {
        track: ti,
        clip: ci,
        first_frame: first_tl - ws,
        end_frame: last_tl - ws,
        first_clip_pos: first_tl - c.timeline_start,
    }
}

/// Whether any track is soloed.
pub fn any_soloed(tracks: &Vec<Track>) -> (r: bool)
    ensures
        r == any_solo(tracks@),
{
    let n = tracks.len();
    let mut i: usize = 0;
    while i < n
        invariant
            n == tracks@.len(),
            i <= n,
            forall|j: int| 0 <= j < i ==> !(#[trigger] tracks@[j]).soloed,
        decreases n - i,
    {
        if tracks[i].soloed {
            return true;
        }
        i += 1;
    }
    false
}

/// A span stays inside its window and inside its clip: its frames fit the
/// window, and the clip positions it plays are positions of the clip.
pub proof fn lemma_span_within(c: AudioClip, ti: int, ci: int, ws: u64, we: u64)
    requires
        ws <= we,
        c.timeline_start < we,
        c.spec_end() > ws,
        c.end_fits(),
    ensures
        span_of(c, ti, ci, ws as int, we as int).first_frame <= span_of(c, ti, ci, ws as int, we as int).end_frame <= we - ws,
        span_of(c, ti, ci, ws as int, we as int).first_clip_pos + (span_of(c, ti, ci, ws as int, we as int).end_frame
            - span_of(c, ti, ci, ws as int, we as int).first_frame) <= c.spec_effective_length(),
{
}

/// A clip's span in a window is exactly where the clip sounds in it: a
/// window position is inside the span if and only if the clip covers it
/// (starts at or before it and ends after it),
/// the span is as long as the overlap of the clip with the window, and each
/// frame plays the clip position of its timeline position.
pub proof fn lemma_span_is_overlap(c: AudioClip, ti: int, ci: int, ws: u64, we: u64)
    requires
        ws <= we,
        c.timeline_start < we,
        c.spec_end() > ws,
        c.end_fits(),
    ensures
        span_of(c, ti, ci, ws as int, we as int).track == ti as usize,
        span_of(c, ti, ci, ws as int, we as int).clip == ci as usize,
        span_of(c, ti, ci, ws as int, we as int).end_frame - span_of(c, ti, ci, ws as int, we as int).first_frame
            == (if c.spec_end() <= we { c.spec_end() as int } else { we as int })
            - (if c.timeline_start >= ws { c.timeline_start as int } else { ws as int }),
        forall|t: int| ws <= t < we ==> (#[trigger] c.covers(t)
            <==> span_of(c, ti, ci, ws as int, we as int).first_frame <= t - ws
                < span_of(c, ti, ci, ws as int, we as int).end_frame),
        forall|t: int| ws <= t < we && #[trigger] c.covers(t)
            ==> span_of(c, ti, ci, ws as int, we as int).first_clip_pos
                + (t - ws - span_of(c, ti, ci, ws as int, we as int).first_frame) == t - c.timeline_start,
{
}

} // verus!
