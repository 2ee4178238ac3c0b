//! Per-block render planning for the real-time engine: which cached clip
//! sounds in which frames of an output block.

use vstd::prelude::*;

use crate::project::Project;
use crate::render::{clip_span, span_before, span_of, ClipSpan};
use crate::track::{sounds_in, AudioClip, Track};

verus! {

/// A clip heard in an output block, and the index of its decoded samples in
/// the engine's clip cache (clips are cached in track order, then clip
/// order).
#[derive(Clone, Copy, Debug, PartialEq, Eq, Structural)]
pub struct BlockSpan {
    pub cache_index: usize,
    pub span: ClipSpan,
}

/// Number of clips on the tracks before track `ti`: the cache index of the
/// first clip of track `ti`.
pub open spec fn clips_before(tracks: Seq<Track>, ti: int) -> nat
    decreases ti,
{
    if ti <= 0 {
        0
    } else {
        clips_before(tracks, ti - 1) + tracks[ti - 1].clips@.len()
    }
}

/// The clip lists of the tracks, in track order.
pub open spec fn clip_lists(tracks: Seq<Track>) -> Seq<Seq<AudioClip>> {
    tracks.map_values(|t: Track| t.clips@)
}

/// Every clip of the project, track after track and in clip order within a
/// track: the order in which the engine caches decoded clips.
pub open spec fn cache_order(tracks: Seq<Track>) -> Seq<AudioClip> {
    clip_lists(tracks).flatten()
}

proof fn lemma_clips_before_grows(tracks: Seq<Track>, ti: int, n: int)
    requires
        0 <= ti < n <= tracks.len(),
    ensures
        clips_before(tracks, ti) + tracks[ti].clips@.len() <= clips_before(tracks, n),
    decreases n,
{
    if ti < n - 1 {
        lemma_clips_before_grows(tracks, ti, n - 1);
    }
}

proof fn lemma_cache_order_prefix(tracks: Seq<Track>, n: int)
    requires
        0 <= n <= tracks.len(),
    ensures
        clip_lists(tracks.take(n)).flatten_alt().len() == clips_before(tracks, n),
        forall|ti: int, ci: int| 0 <= ti < n && 0 <= ci < tracks[ti].clips@.len()
            ==> clip_lists(tracks.take(n)).flatten_alt()[clips_before(tracks, ti) + ci]
                == #[trigger] tracks[ti].clips@[ci],
    decreases n,
{
    let l = clip_lists(tracks.take(n));
    if n == 0 {
        assert(l.len() == 0);
    } else {
        lemma_cache_order_prefix(tracks, n - 1);
        let l0 = clip_lists(tracks.take(n - 1));
        let f0 = l0.flatten_alt();
        let last = tracks[n - 1].clips@;
        assert(l.drop_last() =~= l0);
        assert(l.last() == last);
        assert(l.flatten_alt() == f0 + last);
        assert(clips_before(tracks, n) == clips_before(tracks, n - 1) + last.len());
        assert forall|ti: int, ci: int| 0 <= ti < n && 0 <= ci < tracks[ti].clips@.len()
            implies l.flatten_alt()[clips_before(tracks, ti) + ci] == #[trigger] tracks[ti].clips@[ci] by {
            let idx = clips_before(tracks, ti) + ci;
            if ti < n - 1 {
                lemma_clips_before_grows(tracks, ti, n - 1);
                assert(tracks[ti].clips@[ci] == f0[idx]);
                assert((f0 + last)[idx] == f0[idx]);
            } else {
                assert((f0 + last)[idx] == last[ci]);
            }
        }
    }
}

/// A cache index names the right clip: clip `ci` of track `ti` sits at
/// index `clips_before(tracks, ti) + ci` of the clips taken track after
/// track, in clip order.
pub proof fn lemma_cache_index(tracks: Seq<Track>, ti: int, ci: int)
    requires
        0 <= ti < tracks.len(),
        0 <= ci < tracks[ti].clips@.len(),
    ensures
        clips_before(tracks, ti) + ci < cache_order(tracks).len(),
        cache_order(tracks)[clips_before(tracks, ti) + ci] == tracks[ti].clips@[ci],
{
    let n = tracks.len() as int;
    lemma_cache_order_prefix(tracks, n);
    lemma_clips_before_grows(tracks, ti, n);
    assert(tracks.take(n) =~= tracks);
    clip_lists(tracks).lemma_flatten_and_flatten_alt_are_equivalent();
    assert(tracks[ti].clips@[ci] == tracks[ti].clips@[ci]);
    assert(cache_order(tracks).len() == clips_before(tracks, n));
}

/// Clip `ci` of track `ti` is heard in the block `[pos, pos + frames)`: its
/// track is not muted, its samples are in the cache of `cache_len` clips,
/// and it is unmuted and overlaps the block. (The engine ignores solo.)
pub open spec fn rendered(p: Project, ti: int, ci: int, pos: int, frames: int, cache_len: int) -> bool {
    &&& 0 <= ti < p.tracks@.len()
    &&& 0 <= ci < p.tracks@[ti].clips@.len()
    &&& !p.tracks@[ti].muted
    &&& clips_before(p.tracks@, ti) + ci < cache_len
    &&& sounds_in(p.tracks@[ti].clips@[ci], pos, pos + frames)
}

/// The end position of every clip the engine looks at fits in a `u64`:
/// the unmuted clips of unmuted tracks within the cache.
pub open spec fn block_ends_fit(p: Project, cache_len: int) -> bool {
    forall|ti: int, ci: int| 0 <= ti < p.tracks@.len() && 0 <= ci < p.tracks@[ti].clips@.len()
        && !p.tracks@[ti].muted && clips_before(p.tracks@, ti) + ci < cache_len
        && !(#[trigger] p.tracks@[ti].clips@[ci]).muted ==> p.tracks@[ti].clips@[ci].end_fits()
}

/// Some block span in `spans` belongs to clip `ci` of track `ti`.
pub open spec fn has_block_span(spans: Seq<BlockSpan>, ti: int, ci: int) -> bool {
    exists|k: int| 0 <= k < spans.len() && spans[k].span.track == ti && spans[k].span.clip == ci
}

/// `spans` holds only clips heard in the block, each with its cache index
/// and span, in track and clip order.
pub open spec fn block_spans_sound(p: Project, spans: Seq<BlockSpan>, pos: int, frames: int, cache_len: int) -> bool {
    &&& forall|k: int| 0 <= k < spans.len() ==> {
        let ti = (#[trigger] spans[k]).span.track as int;
        let ci = spans[k].span.clip as int;
        &&& rendered(p, ti, ci, pos, frames, cache_len)
        &&& spans[k].cache_index == clips_before(p.tracks@, ti) + ci
        &&& spans[k].span == span_of(p.tracks@[ti].clips@[ci], ti, ci, pos, pos + frames)
    }
    &&& forall|k1: int, k2: int| 0 <= k1 < k2 < spans.len() ==> span_before(spans[k1].span, spans[k2].span)
}

proof fn lemma_push_keeps_block_span(spans: Seq<BlockSpan>, x: BlockSpan, ti: int, ci: int)
    requires
        has_block_span(spans, ti, ci),
    ensures
        has_block_span(spans.push(x), ti, ci),
{
    let k = choose|k: int| 0 <= k < spans.len() && spans[k].span.track == ti && spans[k].span.clip == ci;
    assert(spans.push(x)[k] == spans[k]);
}

/// The clips heard in the output block that starts at timeline position
/// `pos` and lasts `frames` frames, given `cache_len` decoded clips.
pub fn block_plan(project: &Project, pos: u64, frames: u64, cache_len: usize) -> (r: Vec<BlockSpan>)
    requires
        block_ends_fit(*project, cache_len as int),
        pos + frames <= u64::MAX,
    ensures
        block_spans_sound(*project, r@, pos as int, frames as int, cache_len as int),
        forall|ti: int, ci: int| #[trigger] rendered(*project, ti, ci, pos as int, frames as int, cache_len as int)
            ==> has_block_span(r@, ti, ci),
{
    let ghost p = *project;
    let end = pos + frames;
    let mut spans: Vec<BlockSpan> = Vec::new();
    let mut g: usize = 0;
    let nt = project.tracks.len();
    let mut ti: usize = 0;
    while ti < nt
        invariant
            nt == p.tracks@.len(),
            p == *project,
            block_ends_fit(p, cache_len as int),
            ti <= nt,
            end == pos + frames,
            clips_before(p.tracks@, ti as int) < cache_len ==> g == clips_before(p.tracks@, ti as int),
            clips_before(p.tracks@, ti as int) >= cache_len ==> g >= cache_len,
            block_spans_sound(p, spans@, pos as int, frames as int, cache_len as int),
            forall|k: int| 0 <= k < spans@.len() ==> (#[trigger] spans@[k]).span.track < ti,
            forall|tj: int, cj: int| #[trigger] rendered(p, tj, cj, pos as int, frames as int, cache_len as int) && tj < ti
                ==> has_block_span(spans@, tj, cj),
        decreases nt - ti,
    {
        let track = &project.tracks[ti];
        let ghost cb = clips_before(p.tracks@, ti as int);
        proof {
            assert(clips_before(p.tracks@, ti + 1) == cb + track.clips@.len());
        }
        if track.muted {
            g = g.saturating_add(track.clips.len());
            proof {
                assert forall|cj: int| !#[trigger] rendered(p, ti as int, cj, pos as int, frames as int, cache_len as int) by {}
            }
        } else {
            let nc = track.clips.len();
            let mut ci: usize = 0;
            while ci < nc && g < cache_len
                invariant
                    nt == p.tracks@.len(),
                    p == *project,
                    ti < nt,
                    *track == p.tracks@[ti as int],
                    !track.muted,
                    nc == track.clips@.len(),
                    block_ends_fit(p, cache_len as int),
                    ci <= nc,
                    end == pos + frames,
                    cb == clips_before(p.tracks@, ti as int),
                    g == cb + ci || (ci == 0 && g >= cache_len && cb >= cache_len),
                    block_spans_sound(p, spans@, pos as int, frames as int, cache_len as int),
                    forall|k: int| 0 <= k < spans@.len() ==> (#[trigger] spans@[k]).span.track < ti
                        || (spans@[k].span.track == ti && spans@[k].span.clip < ci),
                    forall|tj: int, cj: int| #[trigger] rendered(p, tj, cj, pos as int, frames as int, cache_len as int)
                        && (tj < ti || (tj == ti && cj < ci)) ==> has_block_span(spans@, tj, cj),
                decreases nc - ci,
            {
                let index = g;
                g = g + 1;
                let clip = &track.clips[ci];
                if !clip.muted && !(pos >= clip.timeline_end() || end <= clip.timeline_start) {
                    let span = clip_span(clip, ti, ci, pos, end);
                    let b = BlockSpan { cache_index: index, span };
                    let ghost prev = spans@;
                    spans.push(b);
                    proof {
                        assert(rendered(p, ti as int, ci as int, pos as int, frames as int, cache_len as int));
                        assert forall|tj: int, cj: int| #[trigger] rendered(p, tj, cj, pos as int, frames as int, cache_len as int)
                            && (tj < ti || (tj == ti && cj < ci + 1)) implies has_block_span(spans@, tj, cj) by {
                            if tj == ti && cj == ci {
                                assert(spans@[prev.len() as int] == b);
                            } else {
                                lemma_push_keeps_block_span(prev, b, tj, cj);
                            }
                        }
                        assert forall|k: int| 0 <= k < spans@.len() implies ({
                            let tk = (#[trigger] spans@[k]).span.track as int;
                            let ck = spans@[k].span.clip as int;
                            &&& rendered(p, tk, ck, pos as int, frames as int, cache_len as int)
                            &&& spans@[k].cache_index == clips_before(p.tracks@, tk) + ck
                            &&& spans@[k].span == span_of(p.tracks@[tk].clips@[ck], tk, ck, pos as int, pos + frames)
                        }) by {
                            if k < prev.len() {
                                assert(spans@[k] == prev[k]);
                            }
                        }
                    }
                } else {
                    proof {
                        assert(!rendered(p, ti as int, ci as int, pos as int, frames as int, cache_len as int));
                    }
                }
                ci += 1;
            }
            proof {
                assert forall|cj: int| #[trigger] rendered(p, ti as int, cj, pos as int, frames as int, cache_len as int)
                    implies has_block_span(spans@, ti as int, cj) by {
                    assert(cb + cj < cache_len);
                }
            }
        }
        ti += 1;
    }
    spans
}

} // verus!
