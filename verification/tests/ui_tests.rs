use daw_reabs::project::Project;
use daw_reabs::screen::{
    clip_columns, clip_label, flag_tone, help_popup, playhead_column, track_flags, track_label,
    track_rows, Area, FlagTone,
};
use daw_reabs::track::{AudioClip, Track};
use daw_reabs::ui::{handle_key, App, Key, MixerAdjust, PlayState};

fn project() -> Project {
    let mut p = Project::new("S".to_string(), 100);
    let mut t = Track::audio("One".to_string());
    let mut c = AudioClip::new("c".to_string(), "c.wav".to_string(), None, 0);
    c.length = Some(1000);
    t.add_clip(c);
    p.add_track(t);
    p.add_track(Track::audio("Two".to_string()));
    p
}

#[test]
fn new_app_state() {
    let app = App::new(project());
    assert_eq!(app.playhead, 0);
    assert_eq!(app.play_state, PlayState::Stopped);
    assert_eq!(app.samples_per_col, 100);
    assert_eq!(app.selected_track, 0);
    let empty = App::new(Project::new("E".to_string(), 0));
    assert_eq!(empty.samples_per_col, 1);
}

#[test]
fn play_stop_record_rewind() {
    let mut app = App::new(project());
    app.playhead = 40;
    app.toggle_play(7);
    assert_eq!(app.play_state, PlayState::Playing);
    assert_eq!(app.play_started_at, Some(7));
    assert_eq!(app.play_started_pos, 40);
    app.toggle_play(9);
    assert_eq!(app.play_state, PlayState::Stopped);
    assert_eq!(app.play_started_at, None);
    assert_eq!(app.playhead, 40);
    app.record(11);
    assert_eq!(app.play_state, PlayState::Recording);
    app.toggle_play(12);
    assert_eq!(app.play_state, PlayState::Stopped);
    app.play(13);
    app.rewind();
    assert_eq!(app.play_state, PlayState::Stopped);
    assert_eq!(app.playhead, 0);
}

#[test]
fn tick_advances_and_stops_at_end() {
    let mut app = App::new(project());
    app.tick(50);
    assert_eq!(app.playhead, 0);
    app.playhead = 100;
    app.play(0);
    app.tick(250);
    assert_eq!(app.playhead, 350);
    assert_eq!(app.play_state, PlayState::Playing);
    app.tick(900);
    assert_eq!(app.playhead, 0);
    assert_eq!(app.play_state, PlayState::Stopped);
}

#[test]
fn track_flags_toggle() {
    let mut app = App::new(project());
    app.toggle_mute();
    app.toggle_solo();
    app.toggle_arm();
    assert!(app.project.tracks[0].muted && app.project.tracks[0].soloed && app.project.tracks[0].arm);
    assert!(!app.project.tracks[1].muted);
    app.toggle_mute();
    assert!(!app.project.tracks[0].muted);
    app.selected_track = 9;
    app.toggle_mute();
    assert!(app.selected_track_mut().is_none());
}

#[test]
fn selection_moves_within_tracks() {
    let mut app = App::new(project());
    app.track_up();
    assert_eq!(app.selected_track, 0);
    app.track_down();
    assert_eq!(app.selected_track, 1);
    assert_eq!(app.track_scroll, 1);
    app.track_down();
    assert_eq!(app.selected_track, 1);
    app.track_up();
    assert_eq!(app.selected_track, 0);
    assert_eq!(app.selected_track_mut().unwrap().name, "One");
}

#[test]
fn zoom_and_scroll() {
    let mut app = App::new(project());
    app.zoom_in();
    assert_eq!(app.samples_per_col, 50);
    app.zoom_out();
    assert_eq!(app.samples_per_col, 100);
    app.samples_per_col = 1;
    app.zoom_in();
    assert_eq!(app.samples_per_col, 1);
    app.samples_per_col = 300_000;
    app.zoom_out();
    assert_eq!(app.samples_per_col, 360_000);
    app.samples_per_col = 10;
    app.scroll_right();
    assert_eq!(app.timeline_offset, 100);
    app.scroll_left();
    assert_eq!(app.timeline_offset, 0);
    app.scroll_left();
    assert_eq!(app.timeline_offset, 0);
}

#[test]
fn follow_playhead_keeps_it_visible() {
    let mut app = App::new(project());
    app.samples_per_col = 10;
    app.playhead = 1000;
    app.follow_playhead(40);
    // Past the view: jump so the playhead sits a quarter in.
    assert_eq!(app.timeline_offset, 900);
    app.playhead = 500;
    app.follow_playhead(40);
    assert_eq!(app.timeline_offset, 500);
    app.playhead = 600;
    app.follow_playhead(40);
    assert_eq!(app.timeline_offset, 500);
}

#[test]
fn format_positions() {
    let app = App::new(project());
    assert_eq!(app.format_pos(0), "00:00.00");
    assert_eq!(app.format_pos(6150), "01:01.50");
    assert_eq!(app.format_pos(100 * 60 * 125 + 99), "125:00.99");
}

#[test]
fn keys() {
    let mut app = App::new(project());
    assert_eq!(handle_key(&mut app, Key::Char(' '), false, 5), None);
    assert_eq!(app.play_state, PlayState::Playing);
    assert_eq!(handle_key(&mut app, Key::Char('+'), false, 5), Some(MixerAdjust::VolumeUp));
    assert_eq!(handle_key(&mut app, Key::Char('-'), false, 5), Some(MixerAdjust::VolumeDown));
    assert_eq!(handle_key(&mut app, Key::Char('['), false, 5), Some(MixerAdjust::PanLeft));
    assert_eq!(handle_key(&mut app, Key::Char(']'), false, 5), Some(MixerAdjust::PanRight));
    handle_key(&mut app, Key::Home, false, 6);
    assert_eq!(app.play_state, PlayState::Stopped);
    handle_key(&mut app, Key::Char('j'), false, 6);
    assert_eq!(app.selected_track, 1);
    handle_key(&mut app, Key::Char('m'), false, 6);
    assert!(app.project.tracks[1].muted);
    handle_key(&mut app, Key::Char('?'), false, 6);
    assert!(app.show_help);
    // Any key closes help and does nothing else.
    assert_eq!(handle_key(&mut app, Key::Char('+'), false, 6), None);
    assert!(!app.show_help);
    handle_key(&mut app, Key::Char('c'), false, 6);
    assert!(!app.should_quit);
    handle_key(&mut app, Key::Char('c'), true, 6);
    assert!(app.should_quit);
}

#[test]
fn screen_geometry() {
    let mut c = AudioClip::new("clip".to_string(), "c.wav".to_string(), None, 100);
    c.length = Some(50);
    assert_eq!(clip_columns(&c, 0, 10, 80), Some((10, 5)));
    assert_eq!(clip_columns(&c, 120, 10, 80), Some((0, 3)));
    assert_eq!(clip_columns(&c, 150, 10, 80), None);
    assert_eq!(clip_columns(&c, 0, 10, 10), None);
    assert_eq!(clip_columns(&c, 0, 100, 80), Some((1, 1)));
    assert_eq!(playhead_column(250, 100, 10, 80), Some(15));
    assert_eq!(playhead_column(50, 100, 10, 80), None);
    assert_eq!(playhead_column(2000, 100, 10, 80), None);
    let popup = help_popup(Area { x: 0, y: 0, width: 100, height: 30 });
    assert_eq!(popup, Area { x: 24, y: 4, width: 52, height: 22 });
    let small = help_popup(Area { x: 2, y: 1, width: 40, height: 10 });
    assert_eq!(small, Area { x: 2, y: 1, width: 40, height: 10 });
    let area = Area { x: 0, y: 5, width: 60, height: 5 };
    assert_eq!(track_rows(area, 0), Some(Area { x: 0, y: 5, width: 60, height: 2 }));
    assert_eq!(track_rows(area, 2), Some(Area { x: 0, y: 9, width: 60, height: 1 }));
    assert_eq!(track_rows(area, 3), None);
}

#[test]
fn track_row_text() {
    let mut t = Track::audio("Drums".to_string());
    assert_eq!(track_flags(&t), "   ");
    assert_eq!(flag_tone(&t), FlagTone::Plain);
    t.soloed = true;
    t.arm = true;
    assert_eq!(track_flags(&t), " S●");
    assert_eq!(flag_tone(&t), FlagTone::Soloed);
    t.muted = true;
    assert_eq!(track_flags(&t), "MS●");
    assert_eq!(flag_tone(&t), FlagTone::Muted);
    assert_eq!(track_label("Drums"), "Drums");
    assert_eq!(track_label("Percussion"), "Percussion");
    assert_eq!(track_label("Percussion 2"), "Percussio…");
    assert_eq!(clip_label("Long clip name", 4), "");
    assert_eq!(clip_label("Long clip name", 8), "Long c");
    assert_eq!(clip_label("Kick", 8), "Kick");
}
