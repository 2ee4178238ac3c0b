//! The transport: play/stop/record/seek/loop state shared between the
//! control thread and the audio thread through atomics.

use std::sync::atomic::{AtomicBool, AtomicU64, Ordering};
use std::sync::Arc;
use vstd::prelude::*;

verus! {

/// Where the playhead goes after a block of `frames` that started at `pos`
/// while looping over `[loop_start, loop_end)`: the overshoot past the loop
/// end is carried over to the loop start. `None` when the region is empty
/// or the block does not reach its end, so the playhead runs on.
pub open spec fn spec_loop_target(pos: u64, frames: u64, loop_start: u64, loop_end: u64) -> Option<int> {
    if loop_end > loop_start && pos + frames >= loop_end {
        Some(loop_start + (pos + frames - loop_end))
    } else {
        None
    }
}

/// The loop decision that follows a block advance (see `spec_loop_target`).
/// The target is reduced modulo 2^64, as the position register holds it;
/// it needs no reduction whenever `pos + frames` fits in a `u64`.
pub fn loop_target(pos: u64, frames: u64, loop_start: u64, loop_end: u64) -> (r: Option<u64>)
    ensures
        match spec_loop_target(pos, frames, loop_start, loop_end) {
            None => r is None,
            Some(t) => r is Some && r->0 as int == t % 0x1_0000_0000_0000_0000,
        },
        pos + frames <= u64::MAX && r is Some ==> r->0 as int == spec_loop_target(pos, frames, loop_start, loop_end)->0,
{
    if loop_end > loop_start {
        let over = (pos as u128) + (frames as u128);
        if over >= loop_end as u128 {
            let t: u128 = (loop_start as u128) + (over - loop_end as u128);
            let r: u64 = #[verifier::truncate] (t as u64);
            assert(r == t % 0x1_0000_0000_0000_0000) by (bit_vector)
                requires r == #[verifier::truncate] (t as u64);
            return Some(r);
        }
    }
    None
}

/// A block that overshoots the loop end by less than the loop's length
/// lands inside the loop region.
pub proof fn lemma_loop_target_in_region(pos: u64, frames: u64, loop_start: u64, loop_end: u64)
    requires
        loop_end > loop_start,
        pos + frames >= loop_end,
        pos + frames - loop_end < loop_end - loop_start,
    ensures
        spec_loop_target(pos, frames, loop_start, loop_end) is Some,
        loop_start <= spec_loop_target(pos, frames, loop_start, loop_end)->0 < loop_end,
{
}

/// Wrapping at the loop end moves the playhead back by exactly one loop
/// length from where the block ended; a block that ends before the loop end,
/// or an empty loop, does not wrap.
pub proof fn lemma_loop_target_jumps_one_loop(pos: u64, frames: u64, loop_start: u64, loop_end: u64)
    ensures
        loop_end > loop_start && pos + frames >= loop_end ==> spec_loop_target(pos, frames, loop_start, loop_end) is Some
            && pos + frames - spec_loop_target(pos, frames, loop_start, loop_end)->0 == loop_end - loop_start,
        pos + frames < loop_end || loop_end <= loop_start ==> spec_loop_target(pos, frames, loop_start, loop_end) is None,
{
}

/// `Arc::clone`: another pointer to the same allocation, so the clone
/// points to the very value the original points to.
#[verifier::external_body]
fn share<T>(this: &Arc<T>) -> (r: Arc<T>)
    ensures
        r == *this,
{
    Arc::clone(this)
}

/// Transport playback state shared between the UI thread and the audio thread.
///
/// Every field is an atomic, so the audio callback reads them without
/// locking. The values live in shared memory that other threads may change
/// at any moment, so no contract below can speak of their values: what is
/// verified here is that a transport and its handle share their state
/// cells, that the operations cannot fail or overflow, and the loop
/// arithmetic of `advance` (see `loop_target`).
#[derive(Debug)]
pub struct Transport {
    position: Arc<AtomicU64>,
    playing: Arc<AtomicBool>,
    recording: Arc<AtomicBool>,
    looping: Arc<AtomicBool>,
    loop_start: Arc<AtomicU64>,
    loop_end: Arc<AtomicU64>,
    metronome: Arc<AtomicBool>,
}

/// A cheap handle to the state of a `Transport`, owned by the audio thread.
#[derive(Clone, Debug)]
pub struct TransportHandle {
    position: Arc<AtomicU64>,
    playing: Arc<AtomicBool>,
    recording: Arc<AtomicBool>,
    looping: Arc<AtomicBool>,
    loop_start: Arc<AtomicU64>,
    loop_end: Arc<AtomicU64>,
    metronome: Arc<AtomicBool>,
}

impl Transport {
    /// `handle` points to this transport's state cells, every one of them:
    /// what one of them writes, the other reads.
    pub closed spec fn shares_state_with(self, handle: TransportHandle) -> bool {
        &&& handle.position == self.position
        &&& handle.playing == self.playing
        &&& handle.recording == self.recording
        &&& handle.looping == self.looping
        &&& handle.loop_start == self.loop_start
        &&& handle.loop_end == self.loop_end
        &&& handle.metronome == self.metronome
    }

    /// A stopped transport at position zero, together with the handle that
    /// shares its state.
    pub fn new() -> (r: (Transport, TransportHandle))
        ensures
            r.0.shares_state_with(r.1),
    {
        let position = Arc::new(AtomicU64::new(0));
        let playing = Arc::new(AtomicBool::new(false));
        let recording = Arc::new(AtomicBool::new(false));
        let looping = Arc::new(AtomicBool::new(false));
        let loop_start = Arc::new(AtomicU64::new(0));
        let loop_end = Arc::new(AtomicU64::new(0));
        let metronome = Arc::new(AtomicBool::new(false));

        let handle = TransportHandle {
            position: share(&position),
            playing: share(&playing),
            recording: share(&recording),
            looping: share(&looping),
            loop_start: share(&loop_start),
            loop_end: share(&loop_end),
            metronome: share(&metronome),
        };

        let transport = Transport {
            position,
            playing,
            recording,
            looping,
            loop_start,
            loop_end,
            metronome,
        };

        (transport, handle)
    }

    pub fn play(&self) {
        self.playing.store(true, Ordering::Release);
    }

    pub fn stop(&self) {
        self.playing.store(false, Ordering::Release);
        self.recording.store(false, Ordering::Release);
    }

    pub fn record(&self) {
        self.recording.store(true, Ordering::Release);
        self.playing.store(true, Ordering::Release);
    }

    pub fn rewind(&self) {
        self.position.store(0, Ordering::Release);
    }

    pub fn seek(&self, sample: u64) {
        self.position.store(sample, Ordering::Release);
    }

    pub fn set_loop(&self, start: u64, end: u64, enabled: bool) {
        self.loop_start.store(start, Ordering::Release);
        self.loop_end.store(end, Ordering::Release);
        self.looping.store(enabled, Ordering::Release);
    }

    pub fn set_metronome(&self, enabled: bool) {
        self.metronome.store(enabled, Ordering::Release);
    }

    pub fn position(&self) -> u64 {
        self.position.load(Ordering::Acquire)
    }

    pub fn is_playing(&self) -> bool {
        self.playing.load(Ordering::Acquire)
    }

    pub fn is_recording(&self) -> bool {
        self.recording.load(Ordering::Acquire)
    }

    pub fn is_looping(&self) -> bool {
        self.looping.load(Ordering::Acquire)
    }

    pub fn metronome_enabled(&self) -> bool {
        self.metronome.load(Ordering::Acquire)
    }
}

impl Default for Transport {
    fn default() -> Transport {
        Transport::new().0
    }
}

impl TransportHandle {
    /// Called from the audio thread each block to advance the playhead and
    /// handle looping. Returns the position before advancing.
    ///
    /// When the transport is not playing, the position is returned and left
    /// as it is. Otherwise the position is advanced by `frames` (wrapping, as
    /// the atomic add does) and, if the loop region wraps the block, reset to
    /// the target that `loop_target` computes from the values read here.
    pub fn advance(&self, frames: u64) -> u64 {
        if !self.playing.load(Ordering::Acquire) {
            return self.position.load(Ordering::Acquire);
        }

        let pos = self.position.fetch_add(frames, Ordering::AcqRel);

        if self.looping.load(Ordering::Acquire) {
            let end = self.loop_end.load(Ordering::Acquire);
            let start = self.loop_start.load(Ordering::Acquire);
            if let Some(target) = loop_target(pos, frames, start, end) {
                self.position.store(target, Ordering::Release);
            }
        }

        pos
    }

    pub fn is_playing(&self) -> bool {
        self.playing.load(Ordering::Acquire)
    }

    pub fn is_recording(&self) -> bool {
        self.recording.load(Ordering::Acquire)
    }

    pub fn position(&self) -> u64 {
        self.position.load(Ordering::Acquire)
    }

    pub fn metronome_enabled(&self) -> bool {
        self.metronome.load(Ordering::Acquire)
    }
}

} // verus!
