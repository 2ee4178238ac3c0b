use daw_reabs::project::{Project, ProjectError, DEFAULT_BPM_BITS};
use daw_reabs::track::{AudioClip, SourceInfo, SplitError, Track, TrackKind, UNITY_F32_BITS};

fn clip(name: &str, start: u64, length: Option<u64>) -> AudioClip {
    let mut c = AudioClip::new(name.to_string(), format!("{name}.wav"), None, start);
    c.length = length;
    c
}

#[test]
fn source_info_frames() {
    let info = SourceInfo::from_header(88200, 2).unwrap();
    assert_eq!(info.frames(), 44100);
    assert_eq!(info.channels(), 2);
    assert_eq!(info.total_samples(), 88200);
    assert!(SourceInfo::from_header(100, 0).is_none());
}

#[test]
fn clip_defaults_and_lengths() {
    let info = SourceInfo::from_header(1000, 2).unwrap();
    let c = AudioClip::new("kick".to_string(), "kick.wav".to_string(), Some(info), 10);
    assert_eq!(c.gain_bits, UNITY_F32_BITS);
    assert_eq!(f32::from_bits(c.gain_bits), 1.0);
    assert_eq!(c.effective_length(), 500);
    assert_eq!(c.timeline_end(), 510);
    assert_eq!(c.source_channels(), 2);

    let unread = clip("gone", 10, None);
    assert_eq!(unread.effective_length(), 0);
    assert_eq!(unread.source_channels(), 1);

    let set = clip("set", 10, Some(40));
    assert_eq!(set.timeline_end(), 50);
}

#[test]
fn track_constructors() {
    let a = Track::audio("Drums".to_string());
    assert_eq!(a.kind, TrackKind::Audio);
    assert_eq!(f32::from_bits(a.volume_bits), 1.0);
    assert_eq!(f32::from_bits(a.pan_bits), 0.0);
    assert!(!a.muted && !a.soloed && !a.arm);
    let b = Track::bus("Bus".to_string());
    assert_eq!(b.kind, TrackKind::Bus);
    assert!(b.clips.is_empty());
}

#[test]
fn add_clip_returns_index() {
    let mut t = Track::audio("T".to_string());
    assert_eq!(t.add_clip(clip("a", 0, Some(10))), 0);
    assert_eq!(t.add_clip(clip("b", 20, Some(10))), 1);
    assert_eq!(t.clips.len(), 2);
}

#[test]
fn track_length_is_last_end() {
    let mut t = Track::audio("T".to_string());
    assert_eq!(t.length_samples(), 0);
    t.add_clip(clip("a", 100, Some(50)));
    t.add_clip(clip("b", 0, Some(20)));
    assert!(t.check_ends_fit());
    assert_eq!(t.length_samples(), 150);
    let mut huge = Track::audio("H".to_string());
    huge.add_clip(clip("x", u64::MAX, Some(1)));
    assert!(!huge.check_ends_fit());
}

#[test]
fn split_clip_with_length() {
    let mut t = Track::audio("T".to_string());
    let mut c = clip("a", 100, Some(50));
    c.source_offset = 7;
    t.add_clip(c);
    t.add_clip(clip("b", 300, Some(10)));
    assert_eq!(t.split_clip(0, 120), Ok(()));
    assert_eq!(t.clips.len(), 3);
    let l = &t.clips[0];
    let r = &t.clips[1];
    assert_eq!((l.timeline_start, l.source_offset, l.length), (100, 7, Some(20)));
    assert_eq!((r.timeline_start, r.source_offset, r.length), (120, 27, Some(30)));
    assert_eq!(t.clips[2].name, "b");
    assert_eq!(t.length_samples(), 310);
}

#[test]
fn split_clip_without_length_ends_at_clip_end() {
    let info = SourceInfo::from_header(100, 1).unwrap();
    let mut t = Track::audio("T".to_string());
    t.add_clip(AudioClip::new("a".to_string(), "a.wav".to_string(), Some(info), 0));
    assert_eq!(t.split_clip(0, 40), Ok(()));
    assert_eq!(t.clips[0].length, Some(40));
    assert_eq!(t.clips[1].length, Some(60));
    assert_eq!(t.clips[1].source_offset, 40);
    // The two halves tile the clip: the right half ends where it ended.
    assert_eq!(t.clips[1].timeline_end(), 100);
    assert_eq!(t.length_samples(), 100);
}

#[test]
fn split_clip_errors() {
    let mut t = Track::audio("T".to_string());
    t.add_clip(clip("a", 100, Some(50)));
    assert_eq!(t.split_clip(3, 120), Err(SplitError::ClipIndexOutOfRange));
    assert_eq!(
        t.split_clip(0, 100),
        Err(SplitError::OutsideClip { split_point: 100, start: 100, end: 150 })
    );
    assert_eq!(
        t.split_clip(0, 150),
        Err(SplitError::OutsideClip { split_point: 150, start: 100, end: 150 })
    );
    assert_eq!(t.clips.len(), 1);
    assert_eq!(t.clips[0].length, Some(50));
}

#[test]
fn clips_in_range_filters_muted_and_outside() {
    let mut t = Track::audio("T".to_string());
    t.add_clip(clip("a", 0, Some(10)));
    t.add_clip(clip("b", 10, Some(10)));
    let mut m = clip("m", 5, Some(10));
    m.muted = true;
    t.add_clip(m);
    t.add_clip(clip("c", 30, Some(10)));
    assert_eq!(t.clips_in_range(5, 10), vec![0, 1]);
    assert_eq!(t.clips_in_range(10, 1), vec![1]);
    assert_eq!(t.clips_in_range(20, 10), Vec::<usize>::new());
    assert_eq!(t.clips_in_range(0, 100), vec![0, 1, 3]);
    // An empty range holds no clip, even one that spans its start.
    assert_eq!(t.clips_in_range(5, 0), Vec::<usize>::new());
}

#[test]
fn project_defaults() {
    let p = Project::new("Test".to_string(), 44100);
    assert_eq!(p.name, "Test");
    assert_eq!(p.sample_rate, 44100);
    assert_eq!(p.bpm_bits, DEFAULT_BPM_BITS);
    assert_eq!(f64::from_bits(p.bpm_bits), 120.0);
    assert_eq!((p.time_sig_numerator, p.time_sig_denominator), (4, 4));
    assert!(p.tracks.is_empty());
    assert!(p.path.is_none());
}

#[test]
fn project_add_remove_and_length() {
    let mut p = Project::new("P".to_string(), 48000);
    assert_eq!(p.length_samples(), 0);
    let mut a = Track::audio("a".to_string());
    a.add_clip(clip("x", 0, Some(100)));
    let mut b = Track::audio("b".to_string());
    b.add_clip(clip("y", 200, Some(100)));
    assert_eq!(p.add_track(a), 0);
    assert_eq!(p.add_track(b), 1);
    assert!(p.check_ends_fit());
    assert_eq!(p.length_samples(), 300);
    let removed = p.remove_track(1).unwrap();
    assert_eq!(removed.name, "b");
    assert_eq!(p.length_samples(), 100);
    assert!(p.remove_track(5).is_none());
    assert_eq!(p.tracks.len(), 1);
}

#[test]
fn save_target_rules() {
    let mut p = Project::new("P".to_string(), 44100);
    assert_eq!(p.save_target(None), Err(ProjectError::NoSavePath));
    assert_eq!(p.save_target(Some("a.dawproj".to_string())), Ok("a.dawproj".to_string()));
    assert_eq!(p.path.as_deref(), Some("a.dawproj"));
    assert_eq!(p.save_target(None), Ok("a.dawproj".to_string()));
    assert_eq!(p.save_target(Some("b.dawproj".to_string())), Ok("b.dawproj".to_string()));
    assert_eq!(p.path.as_deref(), Some("b.dawproj"));
}

#[test]
fn clones_keep_everything() {
    let mut t = Track::audio("T".to_string());
    t.add_clip(clip("a", 1, Some(2)));
    let t2 = t.clone();
    assert_eq!(t2.name, "T");
    assert_eq!(t2.clips.len(), 1);
    assert_eq!(t2.clips[0].timeline_start, 1);
    let mut p = Project::new("P".to_string(), 1);
    p.add_track(t);
    let p2 = p.clone();
    assert_eq!(p2.tracks.len(), 1);
    assert_eq!(p2.tracks[0].clips[0].length, Some(2));
}
