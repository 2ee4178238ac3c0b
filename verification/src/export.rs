//! Offline export: options, the output format, and the plan of which clip
//! frames land where in the bounce.

use vstd::prelude::*;

use crate::project::Project;
use crate::render::{any_solo, any_soloed, clip_span, exported, span_before, span_of, ClipSpan};
use crate::text::{decimal_padded, is_digit, lemma_decimal_padded2, push_char, push_chars, push_decimal_padded};
use crate::track::{sounds_in, AudioClip, Track};

verus! {

/// Output sample encoding.
#[derive(Clone, Copy, Debug, PartialEq, Eq, Structural)]
pub enum BitDepth {
    Int16,
    Int24,
    Float32,
}

/// How the samples of a WAV file are stored.
#[derive(Clone, Copy, Debug, PartialEq, Eq, Structural)]
pub enum SampleKind {
    Int,
    Float,
}

/// The header of the WAV file an export writes.
#[derive(Clone, Copy, Debug, PartialEq, Eq, Structural)]
pub struct WavFormat {
    pub channels: u16,
    pub sample_rate: u32,
    pub bits_per_sample: u16,
    pub sample_kind: SampleKind,
}

/// Export options for a bounce/render.
#[derive(Clone, Debug)]
pub struct ExportOptions {
    /// Output sample rate (often matches project sample rate).
    pub sample_rate: u32,
    /// Bit depth: 16 or 24 (integer PCM) or 32 (float).
    pub bit_depth: BitDepth,
    /// Number of output channels (1 = mono, 2 = stereo).
    pub channels: u16,
    /// Optional range to export; `None` = entire project.
    pub range: Option<(u64, u64)>,
    /// Bit pattern of the `f32` peak ceiling in dB, if the bounce is to be
    /// peak-normalized.
    pub normalize_peak_db_bits: Option<u32>,
}

impl Default for ExportOptions {
    fn default() -> (r: ExportOptions)
        ensures
            r.sample_rate == 44100,
            r.bit_depth == BitDepth::Int24,
            r.channels == 2,
            r.range is None,
            r.normalize_peak_db_bits is None,
    {
        ExportOptions {
            sample_rate: 44100,
            bit_depth: BitDepth::Int24,
            channels: 2,
            range: None,
            normalize_peak_db_bits: None,
        }
    }
}

/// Why an export cannot be made.
#[derive(Clone, Copy, Debug, PartialEq, Eq, Structural)]
pub enum ExportError {
    /// The project has no audio content to export.
    NoContent,
    /// The export range is empty or inverted.
    EmptyRange,
    /// A bit depth other than 16, 24 or 32 was asked for.
    UnsupportedBitDepth(u8),
}

impl BitDepth {
    pub open spec fn spec_bits(self) -> u16 {
        match self {
            BitDepth::Int16 => 16,
            BitDepth::Int24 => 24,
            BitDepth::Float32 => 32,
        }
    }

    /// The bit depth written as a number of bits, if it is one.
    pub open spec fn spec_from_bits(bits: u8) -> Result<BitDepth, ExportError> {
        if bits == 16 {
            Ok(BitDepth::Int16)
        } else if bits == 24 {
            Ok(BitDepth::Int24)
        } else if bits == 32 {
            Ok(BitDepth::Float32)
        } else {
            Err(ExportError::UnsupportedBitDepth(bits))
        }
    }

    pub open spec fn spec_kind(self) -> SampleKind {
        match self {
            BitDepth::Float32 => SampleKind::Float,
            _ => SampleKind::Int,
        }
    }

    /// The bit depth written as 16, 24 or 32; any other number is refused.
    pub fn from_bits(bits: u8) -> (r: Result<BitDepth, ExportError>)
        ensures
            bits == 16 ==> r == Ok::<BitDepth, ExportError>(BitDepth::Int16),
            bits == 24 ==> r == Ok::<BitDepth, ExportError>(BitDepth::Int24),
            bits == 32 ==> r == Ok::<BitDepth, ExportError>(BitDepth::Float32),
            bits != 16 && bits != 24 && bits != 32 ==> r == Err::<BitDepth, ExportError>(ExportError::UnsupportedBitDepth(bits)),
            r == BitDepth::spec_from_bits(bits),
    {
        match bits {
            16 => Ok(BitDepth::Int16),
            24 => Ok(BitDepth::Int24),
            32 => Ok(BitDepth::Float32),
            other => Err(ExportError::UnsupportedBitDepth(other)),
        }
    }

    pub fn bits_per_sample(self) -> (r: u16)
        ensures
            r == self.spec_bits(),
    {
        match self {
            BitDepth::Int16 => 16,
            BitDepth::Int24 => 24,
            BitDepth::Float32 => 32,
        }
    }

    pub fn sample_kind(self) -> (r: SampleKind)
        ensures
            r == self.spec_kind(),
    {
        match self {
            BitDepth::Float32 => SampleKind::Float,
            _ => SampleKind::Int,
        }
    }
}

/// A bit depth is written with the number of bits it was named by, and back:
/// only 16, 24 and 32 name one, 32 is the floating-point one, and each
/// depth's header bits name that depth again.
pub proof fn lemma_bit_depth_round_trip(bits: u8, d: BitDepth)
    ensures
        BitDepth::spec_from_bits(bits) == Ok::<BitDepth, ExportError>(d) ==> d.spec_bits() == bits,
        BitDepth::spec_from_bits(bits) is Ok <==> (bits == 16 || bits == 24 || bits == 32),
        BitDepth::spec_from_bits(d.spec_bits() as u8) == Ok::<BitDepth, ExportError>(d),
        d.spec_kind() == SampleKind::Float <==> d.spec_bits() == 32,
{
}

/// The header of the file an export with these options writes.
pub fn wav_format(opts: &ExportOptions) -> (r: WavFormat)
    ensures
        r == (WavFormat {
            channels: opts.channels,
            sample_rate: opts.sample_rate,
            bits_per_sample: opts.bit_depth.spec_bits(),
            sample_kind: opts.bit_depth.spec_kind(),
        }),
{
    WavFormat {
        channels: opts.channels,
        sample_rate: opts.sample_rate,
        bits_per_sample: opts.bit_depth.bits_per_sample(),
        sample_kind: opts.bit_depth.sample_kind(),
    }
}

/// The timeline range an export covers, given the project length.
pub open spec fn spec_export_range(total: u64, range: Option<(u64, u64)>) -> Result<(u64, u64), ExportError> {
    if total == 0 {
        Err(ExportError::NoContent)
    } else {
        let (s, e) = match range {
            Some(r) => r,
            None => (0u64, total),
        };
        if s >= e {
            Err(ExportError::EmptyRange)
        } else {
            Ok((s, e))
        }
    }
}

/// An export covers the range asked for, whatever the project's length,
/// or the whole project when none is asked for; it fails on an empty project
/// and on an empty or inverted range.
pub proof fn lemma_export_range(total: u64, s: u64, e: u64)
    ensures
        total > 0 && s < e ==> spec_export_range(total, Some((s, e))) == Ok::<(u64, u64), ExportError>((s, e)),
        total > 0 && s >= e ==> spec_export_range(total, Some((s, e))) == Err::<(u64, u64), ExportError>(ExportError::EmptyRange),
        total > 0 ==> spec_export_range(total, None) == Ok::<(u64, u64), ExportError>((0, total)),
        total == 0 ==> spec_export_range(total, Some((s, e))) == Err::<(u64, u64), ExportError>(ExportError::NoContent),
        total == 0 ==> spec_export_range(total, None) == Err::<(u64, u64), ExportError>(ExportError::NoContent),
{
}

pub fn export_range(total: u64, range: Option<(u64, u64)>) -> (r: Result<(u64, u64), ExportError>)
    ensures
        r == spec_export_range(total, range),
{
    if total == 0 {
        return Err(ExportError::NoContent);
    }
    let (start, end) = match range {
        Some(r) => r,
        None => (0, total),
    };
    if start >= end {
        return Err(ExportError::EmptyRange);
    }
    Ok((start, end))
}

/// What an export renders: the timeline range `[start, end)` and the span
/// of every clip heard in it.
#[derive(Clone, Debug)]
pub struct ExportPlan {
    pub start: u64,
    pub end: u64,
    pub spans: Vec<ClipSpan>,
}

/// Some span in `spans` belongs to clip `ci` of track `ti`.
pub open spec fn has_span(spans: Seq<ClipSpan>, ti: int, ci: int) -> bool {
    exists|k: int| 0 <= k < spans.len() && spans[k].track == ti && spans[k].clip == ci
}

/// `spans` lists exactly the clips of `p` heard in `[start, end)`, each
/// with its span, in track and clip order; those with indices before
/// (`ti`, `ci`) are all there.
pub open spec fn spans_sound(p: Project, spans: Seq<ClipSpan>, start: int, end: int) -> bool {
    &&& forall|k: int| 0 <= k < spans.len() ==> exported(p, (#[trigger] spans[k]).track as int, spans[k].clip as int, start, end)
        && spans[k] == span_of(p.tracks@[spans[k].track as int].clips@[spans[k].clip as int],
            spans[k].track as int, spans[k].clip as int, start, end)
    &&& forall|k1: int, k2: int| 0 <= k1 < k2 < spans.len() ==> span_before(spans[k1], spans[k2])
}

proof fn lemma_push_keeps_has_span(spans: Seq<ClipSpan>, x: ClipSpan, ti: int, ci: int)
    requires
        has_span(spans, ti, ci),
    ensures
        has_span(spans.push(x), ti, ci),
{
    let k = choose|k: int| 0 <= k < spans.len() && spans[k].track == ti && spans[k].clip == ci;
    assert(spans.push(x)[k] == spans[k]);
}

proof fn lemma_push_has_span(spans: Seq<ClipSpan>, x: ClipSpan)
    ensures
        has_span(spans.push(x), x.track as int, x.clip as int),
{
    assert(spans.push(x)[spans.len() as int] == x);
}

/// What one heard clip puts into a bounce: its track's volume and pan (bit
/// patterns), the clip, and the span it fills in the window `[start, end)`
/// without its indices (first and end output frame, first clip position).
pub open spec fn heard_clip(volume_bits: u32, pan_bits: u32, c: AudioClip, start: int, end: int)
    -> (u32, u32, AudioClip, u64, u64, u64) {
    let sp = span_of(c, 0, 0, start, end);
    (volume_bits, pan_bits, c, sp.first_frame, sp.end_frame, sp.first_clip_pos)
}

/// What the clips `clips` of a track with the given volume and pan put
/// into a bounce of `[start, end)`, in clip order.
pub open spec fn clips_heard(volume_bits: u32, pan_bits: u32, clips: Seq<AudioClip>, start: int, end: int)
    -> Seq<(u32, u32, AudioClip, u64, u64, u64)>
    decreases clips.len(),
{
    if clips.len() == 0 {
        seq![]
    } else {
        let rest = clips_heard(volume_bits, pan_bits, clips.drop_last(), start, end);
        if sounds_in(clips.last(), start, end) {
            rest.push(heard_clip(volume_bits, pan_bits, clips.last(), start, end))
        } else {
            rest
        }
    }
}

/// All a bounce reads of a track: muted, soloed, volume, pan, clips.
pub open spec fn shape(t: Track) -> (bool, bool, u32, u32, Seq<AudioClip>) {
    (t.muted, t.soloed, t.volume_bits, t.pan_bits, t.clips@)
}

pub open spec fn track_shapes(tracks: Seq<Track>) -> Seq<(bool, bool, u32, u32, Seq<AudioClip>)> {
    tracks.map_values(|t: Track| shape(t))
}

/// A track of this shape is heard: unmuted, and soloed if `solo`.
pub open spec fn heard_under(t: (bool, bool, u32, u32, Seq<AudioClip>), solo: bool) -> bool {
    !t.0 && (!solo || t.1)
}

/// What the tracks of these shapes put into a bounce of `[start, end)`,
/// `solo` telling whether any track of the project is soloed.
pub open spec fn shapes_heard(shapes: Seq<(bool, bool, u32, u32, Seq<AudioClip>)>, solo: bool, start: int, end: int)
    -> Seq<(u32, u32, AudioClip, u64, u64, u64)>
    decreases shapes.len(),
{
    if shapes.len() == 0 {
        seq![]
    } else {
        let rest = shapes_heard(shapes.drop_last(), solo, start, end);
        let t = shapes.last();
        if heard_under(t, solo) {
            rest + clips_heard(t.2, t.3, t.4, start, end)
        } else {
            rest
        }
    }
}

/// What a bounce of `[start, end)` of `p` hears, in track and clip order.
pub open spec fn project_heard(p: Project, start: int, end: int) -> Seq<(u32, u32, AudioClip, u64, u64, u64)> {
    shapes_heard(track_shapes(p.tracks@), any_solo(p.tracks@), start, end)
}

/// What a span of `p` puts into a bounce.
pub open spec fn span_heard(p: Project, sp: ClipSpan, start: int, end: int) -> (u32, u32, AudioClip, u64, u64, u64) {
    heard_clip(p.tracks@[sp.track as int].volume_bits, p.tracks@[sp.track as int].pan_bits,
        p.tracks@[sp.track as int].clips@[sp.clip as int], start, end)
}

/// What the spans of a plan of `p` put into the bounce, in plan order.
pub open spec fn plan_heard(p: Project, spans: Seq<ClipSpan>, start: int, end: int) -> Seq<(u32, u32, AudioClip, u64, u64, u64)> {
    spans.map_values(|sp: ClipSpan| span_heard(p, sp, start, end))
}

/// The plan of an offline bounce of `project`: fails when the project is
/// empty or the range is empty or inverted; otherwise lists the span of
/// every unmuted clip of every audible track (unmuted, and soloed when any
/// track is) that overlaps the range.
pub fn plan_export(project: &Project, opts: &ExportOptions) -> (r: Result<ExportPlan, ExportError>)
    requires
        project.ends_fit(),
    ensures
        match spec_export_range(project.spec_length() as u64, opts.range) {
            Err(e) => r == Err::<ExportPlan, ExportError>(e),
            Ok((s, e)) => r is Ok && r->Ok_0.start == s && r->Ok_0.end == e
                && spans_sound(*project, r->Ok_0.spans@, s as int, e as int)
                && forall|ti: int, ci: int| #[trigger] exported(*project, ti, ci, s as int, e as int)
                    ==> has_span(r->Ok_0.spans@, ti, ci)
                && plan_heard(*project, r->Ok_0.spans@, s as int, e as int) == project_heard(*project, s as int, e as int),
        },
{
    let total = project.length_samples();
    let (start, end) = match export_range(total, opts.range) {
        Ok(r) => r,
        Err(e) => return Err(e),
    };
    let solo = any_soloed(&project.tracks);
    let ghost p = *project;
    let mut spans: Vec<ClipSpan> = Vec::new();
    let nt = project.tracks.len();
    let mut ti: usize = 0;
    while ti < nt
        invariant
            nt == p.tracks@.len(),
            p == *project,
            p.ends_fit(),
            ti <= nt,
            start < end,
            solo == any_solo(p.tracks@),
            spans_sound(p, spans@, start as int, end as int),
            plan_heard(p, spans@, start as int, end as int)
                == shapes_heard(track_shapes(p.tracks@).take(ti as int), solo, start as int, end as int),
            forall|k: int| 0 <= k < spans@.len() ==> (#[trigger] spans@[k]).track < ti,
            forall|tj: int, cj: int| #[trigger] exported(p, tj, cj, start as int, end as int) && tj < ti
                ==> has_span(spans@, tj, cj),
        decreases nt - ti,
    {
        let track = &project.tracks[ti];
        let ghost shapes = track_shapes(p.tracks@);
        proof {
            assert(shapes.take(ti + 1).drop_last() =~= shapes.take(ti as int));
            assert(shapes.take(ti + 1).last() == shape(*track));
        }
        if !track.muted && !(solo && !track.soloed) {
            proof {
                assert(track.ends_fit());
                assert(track.clips@.take(0) =~= Seq::<AudioClip>::empty());
                assert(shapes_heard(shapes.take(ti as int), solo, start as int, end as int)
                    + clips_heard(track.volume_bits, track.pan_bits, track.clips@.take(0), start as int, end as int)
                    =~= shapes_heard(shapes.take(ti as int), solo, start as int, end as int));
            }
            let nc = track.clips.len();
            let mut ci: usize = 0;
            while ci < nc
                invariant
                    nt == p.tracks@.len(),
                    p == *project,
                    ti < nt,
                    *track == p.tracks@[ti as int],
                    nc == track.clips@.len(),
                    track.ends_fit(),
                    ci <= nc,
                    start < end,
                    solo == any_solo(p.tracks@),
                    crate::render::track_audible(p.tracks@, ti as int),
                    spans_sound(p, spans@, start as int, end as int),
                    plan_heard(p, spans@, start as int, end as int)
                        == shapes_heard(track_shapes(p.tracks@).take(ti as int), solo, start as int, end as int)
                        + clips_heard(track.volume_bits, track.pan_bits, track.clips@.take(ci as int), start as int, end as int),
                    forall|k: int| 0 <= k < spans@.len() ==> (#[trigger] spans@[k]).track < ti
                        || (spans@[k].track == ti && spans@[k].clip < ci),
                    forall|tj: int, cj: int| #[trigger] exported(p, tj, cj, start as int, end as int)
                        && (tj < ti || (tj == ti && cj < ci)) ==> has_span(spans@, tj, cj),
                decreases nc - ci,
            {
                let clip = &track.clips[ci];
                let ghost before = track.clips@.take(ci as int);
                proof {
                    assert(clip.end_fits());
                    assert(track.clips@.take(ci + 1).drop_last() =~= before);
                    assert(track.clips@.take(ci + 1).last() == *clip);
                }
                if !clip.muted && !(clip.timeline_start >= end || clip.timeline_end() <= start) {
                    let span = clip_span(clip, ti, ci, start, end);
                    let ghost prev = spans@;
                    spans.push(span);
                    proof {
                        assert(exported(p, ti as int, ci as int, start as int, end as int));
                        assert forall|tj: int, cj: int| #[trigger] exported(p, tj, cj, start as int, end as int)
                            && (tj < ti || (tj == ti && cj < ci + 1)) implies has_span(spans@, tj, cj) by {
                            if tj == ti && cj == ci {
                                lemma_push_has_span(prev, span);
                            } else {
                                lemma_push_keeps_has_span(prev, span, tj, cj);
                            }
                        }
                        assert forall|k: int| 0 <= k < spans@.len() implies exported(p, (#[trigger] spans@[k]).track as int, spans@[k].clip as int, start as int, end as int)
                            && spans@[k] == span_of(p.tracks@[spans@[k].track as int].clips@[spans@[k].clip as int],
                            spans@[k].track as int, spans@[k].clip as int, start as int, end as int) by {
                            if k < prev.len() {
                                assert(spans@[k] == prev[k]);
                            }
                        }
                        assert(plan_heard(p, spans@, start as int, end as int)
                            =~= plan_heard(p, prev, start as int, end as int).push(span_heard(p, span, start as int, end as int)));
                        assert(shapes_heard(shapes.take(ti as int), solo, start as int, end as int)
                            + clips_heard(track.volume_bits, track.pan_bits, track.clips@.take(ci + 1), start as int, end as int)
                            =~= (shapes_heard(shapes.take(ti as int), solo, start as int, end as int)
                            + clips_heard(track.volume_bits, track.pan_bits, before, start as int, end as int))
                            .push(heard_clip(track.volume_bits, track.pan_bits, *clip, start as int, end as int)));
                    }
                } else {
                    proof {
                        assert(!exported(p, ti as int, ci as int, start as int, end as int));
                    }
                }
                ci += 1;
            }
            proof {
                assert(track.clips@.take(nc as int) =~= track.clips@);
            }
        } else {
            proof {
                assert forall|cj: int| !#[trigger] exported(p, ti as int, cj, start as int, end as int) by {}
            }
        }
        ti += 1;
    }
    proof {
        assert(track_shapes(p.tracks@).take(nt as int) =~= track_shapes(p.tracks@));
    }
    Ok(ExportPlan { start, end, spans })
}

/// The clips of `clips` that are not muted, in order.
pub open spec fn unmuted(clips: Seq<AudioClip>) -> Seq<AudioClip>
    decreases clips.len(),
{
    if clips.len() == 0 {
        seq![]
    } else {
        let rest = unmuted(clips.drop_last());
        if !clips.last().muted { rest.push(clips.last()) } else { rest }
    }
}

/// The shapes of the tracks a bounce hears, in order, each with its muted
/// clips taken out (`solo`: whether any track is soloed).
pub open spec fn kept_shapes(shapes: Seq<(bool, bool, u32, u32, Seq<AudioClip>)>, solo: bool)
    -> Seq<(bool, bool, u32, u32, Seq<AudioClip>)>
    decreases shapes.len(),
{
    if shapes.len() == 0 {
        seq![]
    } else {
        let rest = kept_shapes(shapes.drop_last(), solo);
        let t = shapes.last();
        if heard_under(t, solo) { rest.push((t.0, t.1, t.2, t.3, unmuted(t.4))) } else { rest }
    }
}

proof fn lemma_clips_heard_unmuted(v: u32, pan: u32, clips: Seq<AudioClip>, start: int, end: int)
    ensures
        clips_heard(v, pan, unmuted(clips), start, end) == clips_heard(v, pan, clips, start, end),
    decreases clips.len(),
{
    if clips.len() > 0 {
        lemma_clips_heard_unmuted(v, pan, clips.drop_last(), start, end);
        let rest = unmuted(clips.drop_last());
        if !clips.last().muted {
            assert(rest.push(clips.last()).drop_last() =~= rest);
        }
    }
}

/// Kept tracks are unmuted; soloed when some track was soloed; unsoloed
/// when none was.
proof fn lemma_kept_shapes(shapes: Seq<(bool, bool, u32, u32, Seq<AudioClip>)>, solo: bool)
    ensures
        forall|k: int| 0 <= k < kept_shapes(shapes, solo).len() ==> {
            &&& !(#[trigger] kept_shapes(shapes, solo)[k]).0
            &&& solo ==> kept_shapes(shapes, solo)[k].1
            &&& (forall|i: int| 0 <= i < shapes.len() ==> !(#[trigger] shapes[i]).1) ==> !kept_shapes(shapes, solo)[k].1
        },
    decreases shapes.len(),
{
    if shapes.len() > 0 {
        let init = shapes.drop_last();
        lemma_kept_shapes(init, solo);
        let kept = kept_shapes(shapes, solo);
        let rest = kept_shapes(init, solo);
        assert forall|k: int| 0 <= k < kept.len() implies {
            &&& !(#[trigger] kept[k]).0
            &&& solo ==> kept[k].1
            &&& (forall|i: int| 0 <= i < shapes.len() ==> !(#[trigger] shapes[i]).1) ==> !kept[k].1
        } by {
            if (forall|i: int| 0 <= i < shapes.len() ==> !(#[trigger] shapes[i]).1) {
                assert forall|i: int| 0 <= i < init.len() implies !(#[trigger] init[i]).1 by {
                    assert(init[i] == shapes[i]);
                }
                assert(!shapes[shapes.len() - 1].1);
            }
            if k < rest.len() {
                assert(kept[k] == rest[k]);
            }
        }
    }
}

proof fn lemma_kept_shapes_heard(shapes: Seq<(bool, bool, u32, u32, Seq<AudioClip>)>, solo: bool, solo2: bool, start: int, end: int)
    requires
        forall|k: int| 0 <= k < kept_shapes(shapes, solo).len() ==> heard_under(#[trigger] kept_shapes(shapes, solo)[k], solo2),
    ensures
        shapes_heard(kept_shapes(shapes, solo), solo2, start, end) == shapes_heard(shapes, solo, start, end),
    decreases shapes.len(),
{
    if shapes.len() > 0 {
        let init = shapes.drop_last();
        let rest = kept_shapes(init, solo);
        let kept = kept_shapes(shapes, solo);
        let t = shapes.last();
        if heard_under(t, solo) {
            assert(kept.drop_last() =~= rest);
            assert forall|k: int| 0 <= k < rest.len() implies heard_under(#[trigger] rest[k], solo2) by {
                assert(kept[k] == rest[k]);
            }
            lemma_kept_shapes_heard(init, solo, solo2, start, end);
            assert(heard_under(kept[kept.len() - 1], solo2));
            lemma_clips_heard_unmuted(t.2, t.3, t.4, start, end);
        } else {
            lemma_kept_shapes_heard(init, solo, solo2, start, end);
        }
    }
}

/// A track is soloed exactly when its shape says so.
proof fn lemma_any_solo_shapes(tracks: Seq<Track>)
    ensures
        any_solo(tracks) == exists|i: int| 0 <= i < track_shapes(tracks).len() && (#[trigger] track_shapes(tracks)[i]).1,
{
    if any_solo(tracks) {
        let i = choose|i: int| 0 <= i < tracks.len() && (#[trigger] tracks[i]).soloed;
        assert(track_shapes(tracks)[i].1);
    }
    if exists|i: int| 0 <= i < track_shapes(tracks).len() && (#[trigger] track_shapes(tracks)[i]).1 {
        let i = choose|i: int| 0 <= i < track_shapes(tracks).len() && (#[trigger] track_shapes(tracks)[i]).1;
        assert(tracks[i].soloed);
    }
}

/// What a bounce does not hear never changes it: a project `p2` whose
/// tracks are, in order, the tracks of `p` that a bounce hears (unmuted,
/// and soloed when any track is), each with its muted clips taken out,
/// bounces to the same clips, spans, volumes and pans as `p` over any range.
pub proof fn lemma_unheard_parts_do_not_matter(p: Project, p2: Project, start: int, end: int)
    requires
        track_shapes(p2.tracks@) == kept_shapes(track_shapes(p.tracks@), any_solo(p.tracks@)),
    ensures
        project_heard(p2, start, end) == project_heard(p, start, end),
{
    let shapes = track_shapes(p.tracks@);
    let solo = any_solo(p.tracks@);
    let solo2 = any_solo(p2.tracks@);
    let kept = kept_shapes(shapes, solo);
    lemma_kept_shapes(shapes, solo);
    lemma_any_solo_shapes(p.tracks@);
    lemma_any_solo_shapes(p2.tracks@);
    assert forall|k: int| 0 <= k < kept.len() implies heard_under(#[trigger] kept[k], solo2) by {
        if solo2 && !solo {
            let j = choose|j: int| 0 <= j < kept.len() && (#[trigger] kept[j]).1;
            assert forall|i: int| 0 <= i < shapes.len() implies !(#[trigger] shapes[i]).1 by {}
        }
    }
    lemma_kept_shapes_heard(shapes, solo, solo2, start, end);
}

/// Names what `char::is_alphanumeric` returns: whether the character is
/// alphabetic or numeric in the sense of the Unicode character database.
pub uninterp spec fn unicode_alphanumeric(c: char) -> bool;

/// `char::is_alphanumeric`, whose result (the Unicode tables) is named by
/// `unicode_alphanumeric` and not stated further.
#[verifier::external_body]
fn is_alphanumeric(c: char) -> (r: bool)
    ensures
        r == unicode_alphanumeric(c),
{
    c.is_alphanumeric()
}

/// A character that may stand in a stem file name as it is.
pub open spec fn name_safe(c: char) -> bool {
    unicode_alphanumeric(c) || c == '-' || c == '_'
}

/// `c` itself when it is safe in a file name, `_` otherwise.
pub open spec fn sanitize_char(c: char) -> char {
    safe_or_underscore(c, unicode_alphanumeric(c))
}

/// `c` itself when it is alphanumeric (as `alphanumeric` says), `-` or `_`;
/// `_` otherwise.
pub open spec fn safe_or_underscore(c: char, alphanumeric: bool) -> char {
    if alphanumeric || c == '-' || c == '_' { c } else { '_' }
}

/// The character that stands for `c` in a file name, given whether `c` is
/// alphanumeric: `c` itself when it is alphanumeric, `-` or `_`, else `_`.
pub fn file_name_char(c: char, alphanumeric: bool) -> (r: char)
    ensures
        r == safe_or_underscore(c, alphanumeric),
{
    if alphanumeric || c == '-' || c == '_' {
        c
    } else {
        '_'
    }
}

/// The name with every unsafe character replaced by `_`.
pub open spec fn sanitized(name: Seq<char>) -> Seq<char> {
    name.map_values(|c: char| sanitize_char(c))
}

/// Replace every character of `name` that is not alphanumeric, `-` or `_`
/// by `_`.
pub fn sanitize_name(name: &str) -> (r: String)
    ensures
        r@ == sanitized(name@),
{
    let mut out = String::new();
    let n = name.unicode_len();
    let mut i: usize = 0;
    while i < n
        invariant
            n == name@.len(),
            i <= n,
            out@ == sanitized(name@.take(i as int)),
        decreases n - i,
    {
        let c = name.get_char(i);
        let alphanumeric = is_alphanumeric(c);
        proof {
            assert(sanitized(name@.take(i + 1)) =~= sanitized(name@.take(i as int)).push(sanitize_char(c)));
        }
        push_char(&mut out, file_name_char(c, alphanumeric));
        i += 1;
    }
    proof {
        assert(name@.take(n as int) =~= name@);
    }
    out
}

/// Sanitized names are made of safe characters only, keep their length,
/// and sanitizing again changes nothing.
pub proof fn lemma_sanitized_is_safe(name: Seq<char>)
    ensures
        sanitized(name).len() == name.len(),
        forall|i: int| 0 <= i < name.len() ==> name_safe(#[trigger] sanitized(name)[i]),
        sanitized(sanitized(name)) == sanitized(name),
{
    assert(sanitized(sanitized(name)) =~= sanitized(name));
}

/// Sanitizing keeps every character that is alphanumeric, `-` or `_`, in
/// its place, and puts `_` in the place of every other one.
pub proof fn lemma_sanitize_keeps_safe(name: Seq<char>)
    ensures
        forall|i: int| 0 <= i < name.len() && (unicode_alphanumeric(name[i]) || name[i] == '-' || name[i] == '_')
            ==> #[trigger] sanitized(name)[i] == name[i],
        forall|i: int| 0 <= i < name.len() && !(unicode_alphanumeric(name[i]) || name[i] == '-' || name[i] == '_')
            ==> #[trigger] sanitized(name)[i] == '_',
{
}

/// The file name of the stem of track `index` named `name`: the 1-based
/// track number padded to two digits, `_`, the sanitized name and `.wav`.
pub open spec fn stem_name(index: nat, name: Seq<char>) -> Seq<char> {
    decimal_padded(index + 1, 2) + seq!['_'] + sanitized(name) + seq!['.', 'w', 'a', 'v']
}

/// Stems of different tracks get different file names, whatever the
/// tracks are called, so no stem overwrites another.
pub proof fn lemma_stem_names_distinct(i: nat, j: nat, a: Seq<char>, b: Seq<char>)
    requires
        i != j,
    ensures
        stem_name(i, a) != stem_name(j, b),
{
    let pa = decimal_padded(i + 1, 2);
    let pb = decimal_padded(j + 1, 2);
    lemma_decimal_padded2(i + 1, j + 1);
    lemma_decimal_padded2(j + 1, i + 1);
    let sa = stem_name(i, a);
    let sb = stem_name(j, b);
    if sa == sb {
        assert(sa[pa.len() as int] == '_');
        assert(sb[pb.len() as int] == '_');
        if pa.len() < pb.len() {
            assert(sb[pa.len() as int] == pb[pa.len() as int]);
            assert(is_digit(pb[pa.len() as int]));
        } else if pb.len() < pa.len() {
            assert(sa[pb.len() as int] == pa[pb.len() as int]);
            assert(is_digit(pa[pb.len() as int]));
        } else {
            assert(pa =~= sa.take(pa.len() as int));
            assert(pb =~= sb.take(pb.len() as int));
        }
    }
}

/// The file name of the stem of track `index` named `name`.
pub fn stem_file_name(index: usize, name: &str) -> (r: String)
    requires
        index < usize::MAX,
    ensures
        r@ == stem_name(index as nat, name@),
{
    let mut out = String::new();
    push_decimal_padded(&mut out, (index + 1) as u64, 2);
    push_char(&mut out, '_');
    let clean = sanitize_name(name);
    push_chars(&mut out, clean.as_str());
    push_chars(&mut out, ".wav");
    proof {
        reveal_strlit(".wav");
        assert(out@ =~= stem_name(index as nat, name@));
    }
    out
}

/// The single-track project whose bounce is the stem of track `index`: the
/// project's settings with that track alone.
pub fn stem_project(project: &Project, index: usize) -> (r: Project)
    requires
        index < project.tracks@.len(),
    ensures
        r.same_settings(*project),
        r.tracks@.len() == 1,
        r.tracks@[0].same_content(project.tracks@[index as int]),
{
    let track: Track = project.tracks[index].clone();
    let mut tracks: Vec<Track> = Vec::new();
    tracks.push(track);
    Project {
        name: project.name.clone(),
        sample_rate: project.sample_rate,
        bpm_bits: project.bpm_bits,
        time_sig_numerator: project.time_sig_numerator,
        time_sig_denominator: project.time_sig_denominator,
        tracks,
        path: project.path.clone(),
    }
}

} // verus!
