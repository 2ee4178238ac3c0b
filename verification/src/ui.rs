//! The state of the terminal front end: playback simulated from a clock,
//! track selection and editing, timeline scrolling and zoom, and key
//! handling. Drawing lives with the terminal code; the geometry it needs is
//! computed here.

use vstd::prelude::*;

use crate::project::Project;
use crate::text::{decimal_padded, push_char, push_decimal_padded};
use crate::track::Track;

verus! {

/// Playback state tracked purely inside the front end (no audio hardware).
#[derive(Clone, Copy, Debug, PartialEq, Eq, Structural)]
pub enum PlayState {
    Stopped,
    Playing,
    Recording,
}

/// A key press, as far as the front end tells keys apart.
#[derive(Clone, Copy, Debug, PartialEq, Eq, Structural)]
pub enum Key {
    Char(char),
    Home,
    Up,
    Down,
    Left,
    Right,
    Tab,
    Other,
}

/// A change to the selected track's volume or pan, which the caller applies
/// (the values are floating point).
#[derive(Clone, Copy, Debug, PartialEq, Eq, Structural)]
pub enum MixerAdjust {
    VolumeUp,
    VolumeDown,
    PanLeft,
    PanRight,
}

/// The top-level front-end state.
#[derive(Debug)]
pub struct App {
    pub project: Project,
    /// Simulated playhead position in samples.
    pub playhead: u64,
    pub play_state: PlayState,
    /// Clock reading when play was last started; `None` while stopped.
    pub play_started_at: Option<u64>,
    /// Playhead position when play was started.
    pub play_started_pos: u64,
    /// Index of the selected track.
    pub selected_track: usize,
    /// Horizontal scroll offset of the timeline in samples.
    pub timeline_offset: u64,
    /// Samples shown per terminal column.
    pub samples_per_col: u64,
    /// Show the help overlay.
    pub show_help: bool,
    /// Whether the app should quit.
    pub should_quit: bool,
    /// Position of the track list's scrollbar.
    pub track_scroll: usize,
}

pub open spec fn spec_max(a: u64, b: u64) -> u64 {
    if a >= b { a } else { b }
}

pub open spec fn spec_min(a: u64, b: u64) -> u64 {
    if a <= b { a } else { b }
}

pub open spec fn spec_saturating_sub(a: u64, b: u64) -> u64 {
    if a >= b { (a - b) as u64 } else { 0 }
}

/// Playback started at clock reading `now`.
pub open spec fn spec_play(a: App, now: u64) -> App {
    App { play_state: PlayState::Playing, play_started_at: Some(now), play_started_pos: a.playhead, ..a }
}

/// Playback stopped.
pub open spec fn spec_stop(a: App) -> App {
    App { play_state: PlayState::Stopped, play_started_at: None, ..a }
}

/// Recording started at clock reading `now`.
pub open spec fn spec_record(a: App, now: u64) -> App {
    App { play_state: PlayState::Recording, play_started_at: Some(now), play_started_pos: a.playhead, ..a }
}

/// Stop when playing or recording, play when stopped.
pub open spec fn spec_toggle_play(a: App, now: u64) -> App {
    match a.play_state {
        PlayState::Stopped => spec_play(a, now),
        _ => spec_stop(a),
    }
}

/// Stopped, with the playhead back at the start.
pub open spec fn spec_rewind(a: App) -> App {
    App { playhead: 0, ..spec_stop(a) }
}

/// The previous track selected (none before the first).
pub open spec fn spec_track_up(a: App) -> App {
    let sel = if a.selected_track > 0 { (a.selected_track - 1) as usize } else { a.selected_track };
    App { selected_track: sel, track_scroll: sel, ..a }
}

/// The next track selected (none after the last).
pub open spec fn spec_track_down(a: App) -> App {
    let sel = if a.selected_track + 1 < a.project.tracks@.len() { (a.selected_track + 1) as usize } else { a.selected_track };
    App { selected_track: sel, track_scroll: sel, ..a }
}

/// Half as many samples per column, at least one.
pub open spec fn spec_zoom_in(a: App) -> App {
    App { samples_per_col: spec_max(a.samples_per_col / 2, 1), ..a }
}

/// Twice as many samples per column, at most an hour's worth.
pub open spec fn spec_zoom_out(a: App) -> App {
    App { samples_per_col: spec_min((a.samples_per_col * 2) as u64, (a.project.sample_rate * 3600) as u64), ..a }
}

/// The timeline scrolled ten columns to the left, stopping at the start.
pub open spec fn spec_scroll_left(a: App) -> App {
    App { timeline_offset: spec_saturating_sub(a.timeline_offset, (a.samples_per_col * 10) as u64), ..a }
}

/// The timeline scrolled ten columns to the right.
pub open spec fn spec_scroll_right(a: App) -> App {
    App { timeline_offset: (a.timeline_offset + a.samples_per_col * 10) as u64, ..a }
}

/// The timeline scrolled so that the playhead is visible in a view of
/// `cols` columns: when it is past the view, the view jumps to put it a
/// quarter of the width in; when it is before the view, the view starts at it.
pub open spec fn spec_follow_playhead(a: App, cols: u16) -> App {
    let tl_end = a.timeline_offset + a.samples_per_col * cols;
    let o1 = if a.playhead >= tl_end {
        spec_saturating_sub(a.playhead, (a.samples_per_col * (cols / 4)) as u64)
    } else {
        a.timeline_offset
    };
    let o2 = if a.playhead < o1 { a.playhead } else { o1 };
    App { timeline_offset: o2, ..a }
}

/// The simulated playhead `elapsed` samples past where play started; at or
/// past the end of a non-empty project playback stops and rewinds. Nothing
/// happens while stopped.
pub open spec fn spec_tick(a: App, elapsed: u64) -> App {
    let new_pos = a.play_started_pos + elapsed;
    let total = a.project.spec_length();
    if a.play_started_at is Some && a.play_state != PlayState::Stopped {
        if total > 0 && new_pos >= total {
            App { playhead: 0, ..spec_stop(a) }
        } else {
            App { playhead: new_pos as u64, ..a }
        }
    } else {
        a
    }
}

/// The project's tracks with the selected one replaced by `f` of itself.
pub open spec fn update_selected(a: App, new_tracks: Seq<Track>, f: spec_fn(Track) -> Track) -> bool {
    if a.selected_track < a.project.tracks@.len() {
        new_tracks == a.project.tracks@.update(a.selected_track as int, f(a.project.tracks@[a.selected_track as int]))
    } else {
        new_tracks == a.project.tracks@
    }
}

/// `b` is `a` with only its project's tracks changed.
pub open spec fn same_but_tracks(a: App, b: App) -> bool {
    &&& b.project.same_settings(a.project)
    &&& b.playhead == a.playhead
    &&& b.play_state == a.play_state
    &&& b.play_started_at == a.play_started_at
    &&& b.play_started_pos == a.play_started_pos
    &&& b.selected_track == a.selected_track
    &&& b.timeline_offset == a.timeline_offset
    &&& b.samples_per_col == a.samples_per_col
    &&& b.show_help == a.show_help
    &&& b.should_quit == a.should_quit
    &&& b.track_scroll == a.track_scroll
}

pub open spec fn flip_mute(t: Track) -> Track {
    Track { muted: !t.muted, ..t }
}

pub open spec fn flip_solo(t: Track) -> Track {
    Track { soloed: !t.soloed, ..t }
}

pub open spec fn flip_arm(t: Track) -> Track {
    Track { arm: !t.arm, ..t }
}

impl App {
    /// A stopped front end at the start of `project`, first track selected,
    /// zoomed to one second per column.
    pub fn new(project: Project) -> (r: App)
        ensures
            r.project == project,
            r.playhead == 0,
            r.play_state == PlayState::Stopped,
            r.play_started_at is None,
            r.play_started_pos == 0,
            r.selected_track == 0,
            r.timeline_offset == 0,
            r.samples_per_col == spec_max(project.sample_rate as u64, 1),
            !r.show_help,
            !r.should_quit,
            r.track_scroll == 0,
    {
        let sr = project.sample_rate as u64;
        let samples_per_col = if sr >= 1 { sr } else { 1 };
        App {
            project,
            playhead: 0,
            play_state: PlayState::Stopped,
            play_started_at: None,
            play_started_pos: 0,
            selected_track: 0,
            timeline_offset: 0,
            samples_per_col,
            show_help: false,
            should_quit: false,
            track_scroll: 0,
        }
    }

    pub fn toggle_play(&mut self, now: u64)
        ensures
            *final(self) == spec_toggle_play(*old(self), now),
    {
        match self.play_state {
            PlayState::Playing | PlayState::Recording => self.stop(),
            PlayState::Stopped => self.play(now),
        }
    }

    pub fn play(&mut self, now: u64)
        ensures
            *final(self) == spec_play(*old(self), now),
    {
        self.play_state = PlayState::Playing;
        self.play_started_at = Some(now);
        self.play_started_pos = self.playhead;
    }

    pub fn stop(&mut self)
        ensures
            *final(self) == spec_stop(*old(self)),
    {
        self.play_state = PlayState::Stopped;
        self.play_started_at = None;
    }

    pub fn record(&mut self, now: u64)
        ensures
            *final(self) == spec_record(*old(self), now),
    {
        self.play_state = PlayState::Recording;
        self.play_started_at = Some(now);
        self.play_started_pos = self.playhead;
    }

    pub fn rewind(&mut self)
        ensures
            *final(self) == spec_rewind(*old(self)),
    {
        self.stop();
        self.playhead = 0;
    }

    /// Advance the simulated playhead to `elapsed_samples` past the position
    /// where play started (the caller measures the time since
    /// `play_started_at`). Nothing happens while stopped. Reaching the end
    /// of a non-empty project stops playback and rewinds the playhead.
    pub fn tick(&mut self, elapsed_samples: u64)
        requires
            old(self).play_started_at is Some && old(self).play_state != PlayState::Stopped ==> {
                &&& old(self).play_started_pos + elapsed_samples <= u64::MAX
                &&& old(self).project.ends_fit()
            },
        ensures
            ({
                let a = *old(self);
                let new_pos = a.play_started_pos + elapsed_samples;
                let total = a.project.spec_length();
                if a.play_started_at is Some && a.play_state != PlayState::Stopped {
                    if total > 0 && new_pos >= total {
                        *final(self) == App { playhead: 0, ..spec_stop(a) }
                    } else {
                        *final(self) == App { playhead: new_pos as u64, ..a }
                    }
                } else {
                    *final(self) == a
                }
            }),
            *final(self) == spec_tick(*old(self), elapsed_samples),
    {
        if self.play_started_at.is_some() {
            if self.play_state != PlayState::Stopped {
                let new_pos = self.play_started_pos + elapsed_samples;
                let total = self.project.length_samples();
                if total > 0 && new_pos >= total {
                    self.playhead = 0;
                    self.stop();
                } else {
                    self.playhead = new_pos;
                }
            }
        }
    }

    /// The selected track, for editing; `None` when no track is selected.
    pub fn selected_track_mut(&mut self) -> (r: Option<&mut Track>)
        ensures
            old(self).selected_track < old(self).project.tracks@.len() ==> r is Some
                && *r->0 == old(self).project.tracks@[old(self).selected_track as int]
                && final(self).project.tracks@ == old(self).project.tracks@.update(
                    old(self).selected_track as int, *final(r->0)),
            old(self).selected_track >= old(self).project.tracks@.len() ==> r is None
                && final(self).project.tracks@ == old(self).project.tracks@,
            same_but_tracks(*old(self), *final(self)),
    {
        let i = self.selected_track;
        if i < self.project.tracks.len() {
            Some(&mut self.project.tracks[i])
        } else {
            None
        }
    }

    pub fn toggle_mute(&mut self)
        ensures
            same_but_tracks(*old(self), *final(self)),
            update_selected(*old(self), final(self).project.tracks@, |t: Track| flip_mute(t)),
    {
        if let Some(t) = self.selected_track_mut() {
            t.muted = !t.muted;
        }
    }

    pub fn track_up(&mut self)
        ensures
            *final(self) == spec_track_up(*old(self)),
    {
        if self.selected_track > 0 {
            self.selected_track -= 1;
        }
        self.track_scroll = self.selected_track;
    }

    pub fn track_down(&mut self)
        requires
            old(self).selected_track < usize::MAX,
        ensures
            *final(self) == spec_track_down(*old(self)),
    {
        if self.selected_track + 1 < self.project.tracks.len() {
            self.selected_track += 1;
        }
        self.track_scroll = self.selected_track;
    }

    pub fn toggle_solo(&mut self)
        ensures
            same_but_tracks(*old(self), *final(self)),
            update_selected(*old(self), final(self).project.tracks@, |t: Track| flip_solo(t)),
    {
        if let Some(t) = self.selected_track_mut() {
            t.soloed = !t.soloed;
        }
    }

    pub fn toggle_arm(&mut self)
        ensures
            same_but_tracks(*old(self), *final(self)),
            update_selected(*old(self), final(self).project.tracks@, |t: Track| flip_arm(t)),
    {
        if let Some(t) = self.selected_track_mut() {
            t.arm = !t.arm;
        }
    }

    pub fn zoom_in(&mut self)
        ensures
            *final(self) == spec_zoom_in(*old(self)),
    {
        let half = self.samples_per_col / 2;
        self.samples_per_col = if half >= 1 { half } else { 1 };
    }

    pub fn zoom_out(&mut self)
        requires
            old(self).samples_per_col * 2 <= u64::MAX,
        ensures
            *final(self) == spec_zoom_out(*old(self)),
    {
        let doubled = self.samples_per_col * 2;
        let cap = self.project.sample_rate as u64 * 3600;
        self.samples_per_col = if doubled <= cap { doubled } else { cap };
    }

    pub fn scroll_left(&mut self)
        requires
            old(self).samples_per_col * 10 <= u64::MAX,
        ensures
            *final(self) == spec_scroll_left(*old(self)),
    {
        let step = self.samples_per_col * 10;
        self.timeline_offset = self.timeline_offset.saturating_sub(step);
    }

    pub fn scroll_right(&mut self)
        requires
            old(self).timeline_offset + old(self).samples_per_col * 10 <= u64::MAX,
        ensures
            *final(self) == spec_scroll_right(*old(self)),
    {
        let step = self.samples_per_col * 10;
        self.timeline_offset = self.timeline_offset + step;
    }

    /// Make sure the playhead is visible in a timeline of `timeline_cols`
    /// columns.
    pub fn follow_playhead(&mut self, timeline_cols: u16)
        requires
            old(self).timeline_offset + old(self).samples_per_col * timeline_cols <= u64::MAX,
        ensures
            *final(self) == spec_follow_playhead(*old(self), timeline_cols),
            final(self).timeline_offset <= final(self).playhead,
            timeline_cols >= 1 && final(self).samples_per_col >= 1 ==>
                final(self).playhead < final(self).timeline_offset + final(self).samples_per_col * timeline_cols,
    {
        let cols = timeline_cols as u64;
        proof {
            assert(self.samples_per_col * cols <= self.timeline_offset + self.samples_per_col * cols) by (nonlinear_arith)
                requires self.timeline_offset >= 0;
            assert(self.samples_per_col * (cols / 4) <= self.samples_per_col * cols) by (nonlinear_arith)
                requires cols / 4 <= cols;
        }
        let tl_end = self.timeline_offset + self.samples_per_col * cols;
        if self.playhead >= tl_end {
            self.timeline_offset = self.playhead.saturating_sub(self.samples_per_col * (cols / 4));
        }
        if self.playhead < self.timeline_offset {
            self.timeline_offset = self.playhead;
        }
        proof {
            let a = *old(self);
            let spc = a.samples_per_col as int;
            let c = cols as int;
            if c >= 1 && spc >= 1 {
                assert(spc * (c / 4) < spc * c) by (nonlinear_arith)
                    requires spc >= 1, c >= 1;
            }
        }
    }

    /// A sample position as `mm:ss.cc` (minutes, seconds, centiseconds).
    pub fn format_pos(&self, samples: u64) -> (r: String)
        requires
            self.project.sample_rate > 0,
        ensures
            r@ == time_label(samples as nat, self.project.sample_rate as nat),
    {
        let sr = self.project.sample_rate as u64;
        let secs = samples / sr;
        proof {
            assert(samples % sr < sr);
            assert((samples % sr) * 100 < sr * 100) by (nonlinear_arith)
                requires samples % sr < sr;
        }
        let cs = (samples % sr) * 100 / sr;
        let m = secs / 60;
        let s = secs % 60;
        let mut out = String::new();
        push_decimal_padded(&mut out, m, 2);
        push_char(&mut out, ':');
        push_decimal_padded(&mut out, s, 2);
        push_char(&mut out, '.');
        push_decimal_padded(&mut out, cs, 2);
        proof {
            assert(out@ =~= time_label(samples as nat, self.project.sample_rate as nat));
        }
        out
    }
}

/// `samples` at `rate` written as `mm:ss.cc`: whole minutes, seconds past
/// the minute and hundredths of a second, each at least two digits.
pub open spec fn time_label(samples: nat, rate: nat) -> Seq<char> {
    let secs = samples / rate;
    let cs = (samples % rate) * 100 / rate;
    decimal_padded(secs / 60, 2) + seq![':'] + decimal_padded(secs % 60, 2) + seq!['.'] + decimal_padded(cs, 2)
}

/// A position reads as its whole minutes, then its seconds past the minute,
/// then the hundredths of a second past the second (rounded down), each
/// padded to two digits: `m:s.c` where `m` minutes and `s` seconds
/// (`s < 60`) have passed and `c` hundredths of the second after them.
pub proof fn lemma_time_label(samples: nat, rate: nat, m: nat, s: nat, c: nat)
    requires
        rate > 0,
        s < 60,
        (60 * m + s) * rate <= samples < (60 * m + s + 1) * rate,
        c * rate <= (samples - (60 * m + s) * rate) * 100 < (c + 1) * rate,
    ensures
        time_label(samples, rate) == decimal_padded(m, 2) + seq![':'] + decimal_padded(s, 2) + seq!['.']
            + decimal_padded(c, 2),
{
    let k: int = (60 * m + s) as int;
    let r0: int = samples - k * rate;
    assert((k + 1) * rate == k * rate + rate) by (nonlinear_arith);
    vstd::arithmetic::div_mod::lemma_fundamental_div_mod_converse(samples as int, rate as int, k, r0);
    vstd::arithmetic::div_mod::lemma_fundamental_div_mod_converse(k, 60, m as int, s as int);
    let x: int = r0 * 100;
    assert((c + 1) * rate == c * rate + rate) by (nonlinear_arith);
    vstd::arithmetic::div_mod::lemma_fundamental_div_mod_converse(x, rate as int, c as int, x - c * rate);
}

/// What a key may ask of the state: the arithmetic of the step it takes
/// must fit in a `u64`.
pub open spec fn key_fits(a: App, key: Key) -> bool {
    a.show_help || match key {
        Key::Left | Key::Char('h') => a.samples_per_col * 10 <= u64::MAX,
        Key::Right | Key::Char('l') => a.timeline_offset + a.samples_per_col * 10 <= u64::MAX,
        Key::Char('o') => a.samples_per_col * 2 <= u64::MAX,
        Key::Down | Key::Char('j') => a.selected_track < usize::MAX,
        _ => true,
    }
}

/// The mixer change a key asks for: `+`/`=` and `-` change the volume,
/// `[` and `]` the pan (none while the help overlay shows).
pub open spec fn key_adjust(show_help: bool, key: Key) -> Option<MixerAdjust> {
    if show_help {
        None
    } else {
        match key {
            Key::Char('+') | Key::Char('=') => Some(MixerAdjust::VolumeUp),
            Key::Char('-') => Some(MixerAdjust::VolumeDown),
            Key::Char('[') => Some(MixerAdjust::PanLeft),
            Key::Char(']') => Some(MixerAdjust::PanRight),
            _ => None,
        }
    }
}

/// What a key press does to the state, from `a` to `b`. While the help
/// overlay shows, any key closes it. Otherwise: `q`/`Q` (or Ctrl-`c`) quits,
/// space plays or stops, `r`/`R` records, Home rewinds, Up/`k` and Down/`j`
/// move the selection, `m`, `s` and `a` toggle mute, solo and arm of the
/// selected track, Left/`h` and Right/`l` scroll, `i`/`o` zoom, `?` shows
/// help; other keys (the mixer keys among them) change nothing.
pub open spec fn key_effect(a: App, b: App, key: Key, ctrl: bool, now: u64) -> bool {
    if a.show_help {
        b == App { show_help: false, ..a }
    } else {
        match key {
            Key::Char('q') | Key::Char('Q') => b == App { should_quit: true, ..a },
            Key::Char('c') => b == (if ctrl { App { should_quit: true, ..a } } else { a }),
            Key::Char(' ') => b == spec_toggle_play(a, now),
            Key::Char('r') | Key::Char('R') => b == spec_record(a, now),
            Key::Home => b == spec_rewind(a),
            Key::Up | Key::Char('k') => b == spec_track_up(a),
            Key::Down | Key::Char('j') => b == spec_track_down(a),
            Key::Char('m') => same_but_tracks(a, b) && update_selected(a, b.project.tracks@, |t: Track| flip_mute(t)),
            Key::Char('s') => same_but_tracks(a, b) && update_selected(a, b.project.tracks@, |t: Track| flip_solo(t)),
            Key::Char('a') => same_but_tracks(a, b) && update_selected(a, b.project.tracks@, |t: Track| flip_arm(t)),
            Key::Left | Key::Char('h') => b == spec_scroll_left(a),
            Key::Right | Key::Char('l') => b == spec_scroll_right(a),
            Key::Char('i') => b == spec_zoom_in(a),
            Key::Char('o') => b == spec_zoom_out(a),
            Key::Char('?') => b == App { show_help: true, ..a },
            _ => b == a,
        }
    }
}

/// Handle a key press (see `key_effect`); returns the mixer change the key
/// asks for, which the caller applies to the selected track.
pub fn handle_key(app: &mut App, key: Key, ctrl: bool, now: u64) -> (r: Option<MixerAdjust>)
    requires
        key_fits(*old(app), key),
    ensures
        key_effect(*old(app), *final(app), key, ctrl, now),
        r == key_adjust(old(app).show_help, key),
{
    if app.show_help {
        app.show_help = false;
        return None;
    }

    match key {
        Key::Char('q') | Key::Char('Q') => app.should_quit = true,
        Key::Char('c') if ctrl => app.should_quit = true,
        Key::Char(' ') => app.toggle_play(now),
        Key::Char('r') | Key::Char('R') => app.record(now),
        Key::Home => app.rewind(),
        Key::Up | Key::Char('k') => app.track_up(),
        Key::Down | Key::Char('j') => app.track_down(),
        Key::Char('m') => app.toggle_mute(),
        Key::Char('s') => app.toggle_solo(),
        Key::Char('a') => app.toggle_arm(),
        Key::Char('+') | Key::Char('=') => return Some(MixerAdjust::VolumeUp),
        Key::Char('-') => return Some(MixerAdjust::VolumeDown),
        Key::Char('[') => return Some(MixerAdjust::PanLeft),
        Key::Char(']') => return Some(MixerAdjust::PanRight),
        Key::Left | Key::Char('h') => app.scroll_left(),
        Key::Right | Key::Char('l') => app.scroll_right(),
        Key::Char('i') => app.zoom_in(),
        Key::Char('o') => app.zoom_out(),
        Key::Tab => {},
        Key::Char('?') => app.show_help = true,
        _ => {},
    }
    None
}

/// The selection points at a track, or at the first slot of an empty
/// project.
pub open spec fn selection_valid(a: App) -> bool {
    a.selected_track < a.project.tracks@.len() || (a.project.tracks@.len() == 0 && a.selected_track == 0)
}

/// Moving the selection up or down keeps it on a track.
pub proof fn lemma_selection_stays_valid(a: App)
    requires
        selection_valid(a),
    ensures
        selection_valid(spec_track_up(a)),
        selection_valid(spec_track_down(a)),
{
}

/// Toggling play twice from a stopped state stops again, with the playhead
/// where it was.
pub proof fn lemma_toggle_play_twice(a: App, now1: u64, now2: u64)
    requires
        a.play_state == PlayState::Stopped,
        a.play_started_at is None,
    ensures
        spec_toggle_play(spec_toggle_play(a, now1), now2) == (App { play_started_pos: a.playhead, ..a }),
        spec_toggle_play(spec_toggle_play(a, now1), now2).playhead == a.playhead,
{
}

/// Rewinding stops playback at the start, from any state.
pub proof fn lemma_rewind_stops_at_start(a: App)
    ensures
        spec_rewind(a).play_state == PlayState::Stopped,
        spec_rewind(a).playhead == 0,
        spec_rewind(a).play_started_at is None,
{
}

pub open spec fn is_involution(f: spec_fn(Track) -> Track) -> bool {
    forall|t: Track| #[trigger] f(f(t)) == t
}

/// Flipping the mute, solo or arm flag twice gives the track back.
pub proof fn lemma_flips_are_involutions()
    ensures
        is_involution(|t: Track| flip_mute(t)),
        is_involution(|t: Track| flip_solo(t)),
        is_involution(|t: Track| flip_arm(t)),
{
    assert forall|t: Track| #[trigger] flip_mute(flip_mute(t)) == t by {}
    assert forall|t: Track| #[trigger] flip_solo(flip_solo(t)) == t by {}
    assert forall|t: Track| #[trigger] flip_arm(flip_arm(t)) == t by {}
}

/// Toggling the same flag of the selected track twice (mute, solo or arm)
/// restores every track.
pub proof fn lemma_toggle_twice_restores(a: App, b: App, c: App, f: spec_fn(Track) -> Track)
    requires
        is_involution(f),
        same_but_tracks(a, b),
        update_selected(a, b.project.tracks@, f),
        same_but_tracks(b, c),
        update_selected(b, c.project.tracks@, f),
    ensures
        c.project.tracks@ == a.project.tracks@,
{
    if a.selected_track < a.project.tracks@.len() {
        let i = a.selected_track as int;
        assert(f(f(a.project.tracks@[i])) == a.project.tracks@[i]);
        assert(c.project.tracks@ =~= a.project.tracks@);
    }
}

/// Scrolling right then left returns the timeline to where it was.
pub proof fn lemma_scroll_right_then_left(a: App)
    requires
        a.timeline_offset + a.samples_per_col * 10 <= u64::MAX,
    ensures
        spec_scroll_left(spec_scroll_right(a)) == a,
{
}

/// Zooming out then in gives back the zoom level, unless zooming out hit
/// the one-hour limit.
pub proof fn lemma_zoom_out_then_in(a: App)
    requires
        a.samples_per_col >= 1,
        a.samples_per_col * 2 <= a.project.sample_rate * 3600,
    ensures
        spec_zoom_in(spec_zoom_out(a)) == a,
{
}

/// Starting playback or recording runs from where the playhead is:
/// the start position becomes the current playhead, the clock reading is
/// kept, and a later tick puts the playhead that many samples further on,
/// or, at or past the end of a non-empty project, stops and rewinds.
pub proof fn lemma_start_then_tick(a: App, now: u64, elapsed: u64)
    requires
        a.playhead + elapsed <= u64::MAX,
    ensures
        spec_play(a, now).play_state == PlayState::Playing,
        spec_record(a, now).play_state == PlayState::Recording,
        spec_play(a, now).play_started_pos == a.playhead,
        spec_record(a, now).play_started_pos == a.playhead,
        spec_play(a, now).play_started_at == Some(now),
        spec_record(a, now).play_started_at == Some(now),
        spec_play(a, now).playhead == a.playhead,
        spec_record(a, now).playhead == a.playhead,
        spec_play(a, now).project == a.project,
        spec_record(a, now).project == a.project,
        a.project.spec_length() == 0 || a.playhead + elapsed < a.project.spec_length() ==> {
            &&& spec_tick(spec_play(a, now), elapsed).playhead == a.playhead + elapsed
            &&& spec_tick(spec_play(a, now), elapsed).play_state == PlayState::Playing
            &&& spec_tick(spec_record(a, now), elapsed).playhead == a.playhead + elapsed
            &&& spec_tick(spec_record(a, now), elapsed).play_state == PlayState::Recording
        },
        a.project.spec_length() > 0 && a.playhead + elapsed >= a.project.spec_length() ==> {
            &&& spec_tick(spec_record(a, now), elapsed).playhead == 0
            &&& spec_tick(spec_record(a, now), elapsed).play_state == PlayState::Stopped
            &&& spec_tick(spec_play(a, now), elapsed).playhead == 0
            &&& spec_tick(spec_play(a, now), elapsed).play_state == PlayState::Stopped
        },
{
}

/// Stopping keeps the playhead and forgets the clock; a tick while stopped
/// changes nothing.
pub proof fn lemma_stop_then_tick(a: App, elapsed: u64)
    ensures
        spec_stop(a).play_state == PlayState::Stopped,
        spec_stop(a).playhead == a.playhead,
        spec_stop(a).play_started_at is None,
        spec_tick(spec_stop(a), elapsed) == spec_stop(a),
{
}

/// What each key does, told field by field. While help shows, a key only
/// closes it. Otherwise `m`, `s` and `a` flip exactly the mute, solo and arm
/// flag of the selected track and leave every other track alone; space plays
/// from stopped and stops otherwise; `r`/`R` records from the playhead; Home
/// stops at the start; Up/`k` and Down/`j` move the selection by one within
/// the tracks; Left/`h` and Right/`l` scroll ten columns; `i` halves and `o`
/// doubles the samples per column (within one and an hour); `q`, `Q` and
/// Ctrl-`c` quit; `?` shows help; the mixer keys change no state and ask for
/// their change.
pub proof fn lemma_key_effects(a: App, b: App, key: Key, ctrl: bool, now: u64)
    requires
        key_fits(a, key),
        key_effect(a, b, key, ctrl, now),
    ensures
        a.show_help ==> !b.show_help && b.project == a.project && b.playhead == a.playhead
            && b.play_state == a.play_state && b.selected_track == a.selected_track
            && b.timeline_offset == a.timeline_offset && b.samples_per_col == a.samples_per_col
            && b.should_quit == a.should_quit && key_adjust(a.show_help, key) is None,
        !a.show_help ==> ({
            let n = a.project.tracks@.len();
            let sel = a.selected_track as int;
            &&& (key == Key::Char('m') || key == Key::Char('s') || key == Key::Char('a')) ==> {
                &&& b.project.tracks@.len() == n
                &&& b.selected_track == a.selected_track
                &&& b.playhead == a.playhead
                &&& b.play_state == a.play_state
                &&& forall|i: int| 0 <= i < n && i != sel ==> b.project.tracks@[i] == a.project.tracks@[i]
                &&& sel < n ==> {
                    let o = a.project.tracks@[sel];
                    let t = b.project.tracks@[sel];
                    &&& t.name == o.name
                    &&& t.clips@ == o.clips@
                    &&& t.volume_bits == o.volume_bits
                    &&& t.pan_bits == o.pan_bits
                    &&& t.muted == (if key == Key::Char('m') { !o.muted } else { o.muted })
                    &&& t.soloed == (if key == Key::Char('s') { !o.soloed } else { o.soloed })
                    &&& t.arm == (if key == Key::Char('a') { !o.arm } else { o.arm })
                }
            }
            &&& key == Key::Char(' ') ==> b.playhead == a.playhead && b.project == a.project
                && (a.play_state == PlayState::Stopped ==> b.play_state == PlayState::Playing
                    && b.play_started_pos == a.playhead && b.play_started_at == Some(now))
                && (a.play_state != PlayState::Stopped ==> b.play_state == PlayState::Stopped
                    && b.play_started_at is None)
            &&& (key == Key::Char('r') || key == Key::Char('R')) ==> b.play_state == PlayState::Recording
                && b.play_started_pos == a.playhead && b.playhead == a.playhead && b.play_started_at == Some(now)
            &&& key == Key::Home ==> b.play_state == PlayState::Stopped && b.playhead == 0
            &&& (key == Key::Up || key == Key::Char('k')) ==> b.selected_track
                == (if a.selected_track > 0 { a.selected_track - 1 } else { 0 }) && b.track_scroll == b.selected_track
            &&& (key == Key::Down || key == Key::Char('j')) ==> b.selected_track
                == (if a.selected_track + 1 < n { a.selected_track + 1 } else { a.selected_track as int })
                && b.track_scroll == b.selected_track
            &&& (key == Key::Left || key == Key::Char('h')) ==> b.timeline_offset
                == (if a.timeline_offset >= a.samples_per_col * 10 { a.timeline_offset - a.samples_per_col * 10 } else { 0 })
            &&& (key == Key::Right || key == Key::Char('l')) ==> b.timeline_offset
                == a.timeline_offset + a.samples_per_col * 10
            &&& key == Key::Char('i') ==> b.samples_per_col
                == (if a.samples_per_col >= 2 { a.samples_per_col / 2 } else { 1 })
            &&& key == Key::Char('o') ==> b.samples_per_col
                == (if a.samples_per_col * 2 <= a.project.sample_rate * 3600 { a.samples_per_col * 2 }
                    else { a.project.sample_rate * 3600 })
            &&& (key == Key::Char('q') || key == Key::Char('Q') || (key == Key::Char('c') && ctrl)) ==> b.should_quit
            &&& key == Key::Char('?') ==> b.show_help
            &&& (key == Key::Char('+') || key == Key::Char('=')) ==> b == a
                && key_adjust(false, key) == Some(MixerAdjust::VolumeUp)
            &&& key == Key::Char('-') ==> b == a && key_adjust(false, key) == Some(MixerAdjust::VolumeDown)
            &&& key == Key::Char('[') ==> b == a && key_adjust(false, key) == Some(MixerAdjust::PanLeft)
            &&& key == Key::Char(']') ==> b == a && key_adjust(false, key) == Some(MixerAdjust::PanRight)
        }),
{
    if !a.show_help && (key == Key::Char('m') || key == Key::Char('s') || key == Key::Char('a')) {
        let f = if key == Key::Char('m') {
            |t: Track| flip_mute(t)
        } else if key == Key::Char('s') {
            |t: Track| flip_solo(t)
        } else {
            |t: Track| flip_arm(t)
        };
        assert(update_selected(a, b.project.tracks@, f));
        if a.selected_track < a.project.tracks@.len() {
            let o = a.project.tracks@[a.selected_track as int];
            assert(b.project.tracks@[a.selected_track as int] == f(o));
        }
    }
}

} // verus!
