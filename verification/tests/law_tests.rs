use daw_reabs::export::{sanitize_name, stem_file_name};
use daw_reabs::project::Project;
use daw_reabs::track::{AudioClip, Track};
use daw_reabs::transport::loop_target;
use daw_reabs::ui::{App, PlayState};

fn clip(start: u64, length: Option<u64>) -> AudioClip {
    let mut c = AudioClip::new("c".to_string(), "c.wav".to_string(), None, start);
    c.length = length;
    c
}

#[test]
fn sanitizing_twice_changes_nothing() {
    for name in ["Lead Vox (take 2)", "a/b\\c", "ünï cødé", "ok-name_1"] {
        let once = sanitize_name(name);
        assert_eq!(sanitize_name(&once), once);
        assert_eq!(once.chars().count(), name.chars().count());
        assert!(once.chars().all(|c| c.is_alphanumeric() || c == '-' || c == '_'));
    }
}

#[test]
fn stem_names_differ_between_tracks() {
    // Names chosen so that number and name could run into each other.
    assert_ne!(stem_file_name(0, "1_a"), stem_file_name(10, "a"));
    assert_ne!(stem_file_name(10, "1_a"), stem_file_name(110, "a"));
    assert_ne!(stem_file_name(3, "x"), stem_file_name(4, "x"));
}

#[test]
fn split_keeps_every_source_frame_in_place() {
    let mut t = Track::audio("T".to_string());
    let mut c = clip(1000, Some(400));
    c.source_offset = 50;
    t.add_clip(c);
    let before = t.length_samples();
    t.split_clip(0, 1100).unwrap();
    assert_eq!(t.length_samples(), before);
    for pos in [1000u64, 1099, 1100, 1399] {
        let part = if pos < 1100 { &t.clips[0] } else { &t.clips[1] };
        assert!(part.timeline_start <= pos && pos < part.timeline_end());
        assert_eq!(part.source_offset + (pos - part.timeline_start), 50 + (pos - 1000));
    }
}

#[test]
fn add_then_remove_gives_the_track_back() {
    let mut p = Project::new("P".to_string(), 44100);
    p.add_track(Track::audio("keep".to_string()));
    let idx = p.add_track(Track::bus("temp".to_string()));
    let t = p.remove_track(idx).unwrap();
    assert_eq!(t.name, "temp");
    assert_eq!(p.tracks.len(), 1);
    assert_eq!(p.tracks[0].name, "keep");
}

#[test]
fn project_length_bounds_every_clip() {
    let mut p = Project::new("P".to_string(), 44100);
    let mut a = Track::audio("a".to_string());
    a.add_clip(clip(5, Some(10)));
    a.add_clip(clip(100, Some(1)));
    let mut b = Track::audio("b".to_string());
    b.add_clip(clip(50, Some(20)));
    p.add_track(a);
    p.add_track(b);
    let len = p.length_samples();
    assert_eq!(len, 101);
    for t in &p.tracks {
        for c in &t.clips {
            assert!(c.timeline_end() <= len);
        }
    }
}

#[test]
fn loop_overshoot_lands_in_region() {
    for (pos, frames) in [(990u64, 20u64), (999, 1), (500, 1399)] {
        let t = loop_target(pos, frames, 100, 1000).unwrap();
        assert!((100..1000).contains(&t));
    }
}

#[test]
fn app_round_trips() {
    let mut p = Project::new("P".to_string(), 1000);
    p.add_track(Track::audio("a".to_string()));
    p.add_track(Track::audio("b".to_string()));
    let mut app = App::new(p);
    app.playhead = 77;
    app.toggle_play(1);
    app.toggle_play(2);
    assert_eq!(app.play_state, PlayState::Stopped);
    assert_eq!(app.playhead, 77);

    app.toggle_solo();
    app.toggle_solo();
    assert!(!app.project.tracks[0].soloed);

    app.timeline_offset = 12345;
    app.scroll_right();
    app.scroll_left();
    assert_eq!(app.timeline_offset, 12345);

    app.samples_per_col = 333;
    app.zoom_out();
    app.zoom_in();
    assert_eq!(app.samples_per_col, 333);

    for _ in 0..5 {
        app.track_down();
        assert!(app.selected_track < app.project.tracks.len());
    }
    for _ in 0..5 {
        app.track_up();
        assert!(app.selected_track < app.project.tracks.len());
    }

    app.playhead = 10_000;
    app.samples_per_col = 7;
    app.follow_playhead(33);
    assert!(app.timeline_offset <= app.playhead);
    assert!(app.playhead < app.timeline_offset + 7 * 33);
}
