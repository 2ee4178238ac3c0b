use daw_reabs::engine::block_plan;
use daw_reabs::export::{
    file_name_char, plan_export, sanitize_name, stem_file_name, stem_project, wav_format, BitDepth, ExportError,
    ExportOptions, SampleKind,
};
use daw_reabs::project::Project;
use daw_reabs::render::{any_soloed, ClipSpan};
use daw_reabs::track::{AudioClip, Track};

fn clip(start: u64, length: u64) -> AudioClip {
    let mut c = AudioClip::new("c".to_string(), "c.wav".to_string(), None, start);
    c.length = Some(length);
    c
}

fn track(name: &str, clips: Vec<AudioClip>) -> Track {
    let mut t = Track::audio(name.to_string());
    for c in clips {
        t.add_clip(c);
    }
    t
}

#[test]
fn default_options() {
    let o = ExportOptions::default();
    assert_eq!(o.sample_rate, 44100);
    assert_eq!(o.bit_depth, BitDepth::Int24);
    assert_eq!(o.channels, 2);
    assert!(o.range.is_none());
    assert!(o.normalize_peak_db_bits.is_none());
}

#[test]
fn bit_depths() {
    assert_eq!(BitDepth::from_bits(16), Ok(BitDepth::Int16));
    assert_eq!(BitDepth::from_bits(24), Ok(BitDepth::Int24));
    assert_eq!(BitDepth::from_bits(32), Ok(BitDepth::Float32));
    assert_eq!(BitDepth::from_bits(8), Err(ExportError::UnsupportedBitDepth(8)));
    let mut o = ExportOptions::default();
    o.bit_depth = BitDepth::Float32;
    let f = wav_format(&o);
    assert_eq!((f.channels, f.sample_rate, f.bits_per_sample, f.sample_kind), (2, 44100, 32, SampleKind::Float));
    o.bit_depth = BitDepth::Int16;
    assert_eq!(wav_format(&o).bits_per_sample, 16);
    assert_eq!(wav_format(&o).sample_kind, SampleKind::Int);
}

#[test]
fn export_of_empty_project_fails() {
    let p = Project::new("P".to_string(), 44100);
    assert_eq!(plan_export(&p, &ExportOptions::default()).unwrap_err(), ExportError::NoContent);
}

#[test]
fn export_of_inverted_range_fails() {
    let mut p = Project::new("P".to_string(), 44100);
    p.add_track(track("a", vec![clip(0, 100)]));
    let mut o = ExportOptions::default();
    o.range = Some((50, 50));
    assert_eq!(plan_export(&p, &o).unwrap_err(), ExportError::EmptyRange);
    o.range = Some((60, 50));
    assert_eq!(plan_export(&p, &o).unwrap_err(), ExportError::EmptyRange);
}

#[test]
fn export_plan_spans() {
    let mut p = Project::new("P".to_string(), 44100);
    p.add_track(track("a", vec![clip(10, 100), clip(500, 10)]));
    let mut muted = track("m", vec![clip(0, 1000)]);
    muted.muted = true;
    p.add_track(muted);
    let mut o = ExportOptions::default();
    o.range = Some((50, 300));
    let plan = plan_export(&p, &o).unwrap();
    assert_eq!((plan.start, plan.end), (50, 300));
    assert_eq!(
        plan.spans,
        vec![ClipSpan { track: 0, clip: 0, first_frame: 0, end_frame: 60, first_clip_pos: 40 }]
    );

    let whole = plan_export(&p, &ExportOptions::default()).unwrap();
    assert_eq!((whole.start, whole.end), (0, 1000));
    assert_eq!(whole.spans.len(), 2);
    assert_eq!(whole.spans[1], ClipSpan { track: 0, clip: 1, first_frame: 500, end_frame: 510, first_clip_pos: 0 });
}

#[test]
fn export_honours_solo() {
    let mut p = Project::new("P".to_string(), 44100);
    p.add_track(track("a", vec![clip(0, 100)]));
    let mut s = track("s", vec![clip(0, 50)]);
    s.soloed = true;
    p.add_track(s);
    assert!(any_soloed(&p.tracks));
    let plan = plan_export(&p, &ExportOptions::default()).unwrap();
    assert_eq!(plan.spans.len(), 1);
    assert_eq!(plan.spans[0].track, 1);
    assert_eq!(plan.spans[0].end_frame, 50);
}

#[test]
fn sanitize_names() {
    assert_eq!(sanitize_name("Lead Vox (take 2)"), "Lead_Vox__take_2_");
    assert_eq!(sanitize_name("a-b_c.wav"), "a-b_c_wav");
    assert_eq!(sanitize_name("Café/ñ"), "Café_ñ");
    assert_eq!(sanitize_name(""), "");
}

#[test]
fn stem_names() {
    assert_eq!(stem_file_name(0, "Drums"), "01_Drums.wav");
    assert_eq!(stem_file_name(9, "Bass Gtr"), "10_Bass_Gtr.wav");
    assert_eq!(stem_file_name(122, "x"), "123_x.wav");
}

#[test]
fn stem_project_has_one_track() {
    let mut p = Project::new("P".to_string(), 44100);
    p.add_track(track("a", vec![clip(0, 100)]));
    p.add_track(track("b", vec![clip(0, 300)]));
    let s = stem_project(&p, 1);
    assert_eq!(s.name, "P");
    assert_eq!(s.tracks.len(), 1);
    assert_eq!(s.tracks[0].name, "b");
    assert_eq!(s.length_samples(), 300);
}

#[test]
fn block_plan_spans_and_cache_indices() {
    let mut p = Project::new("P".to_string(), 44100);
    let mut muted = track("m", vec![clip(0, 1000), clip(0, 1000)]);
    muted.muted = true;
    p.add_track(muted);
    let mut quiet = clip(0, 1000);
    quiet.muted = true;
    p.add_track(track("a", vec![quiet, clip(90, 20), clip(200, 5)]));
    // Block [100, 164): clip (1, 1) covers 90..110.
    let plan = block_plan(&p, 100, 64, 5);
    assert_eq!(plan.len(), 1);
    assert_eq!(plan[0].cache_index, 3);
    assert_eq!(
        plan[0].span,
        ClipSpan { track: 1, clip: 1, first_frame: 0, end_frame: 10, first_clip_pos: 10 }
    );
    // A cache that does not hold the clip leaves it out.
    assert!(block_plan(&p, 100, 64, 3).is_empty());
    // The engine ignores solo.
    p.tracks[0].soloed = true;
    assert_eq!(block_plan(&p, 100, 64, 5).len(), 1);
}

#[test]
fn file_name_chars() {
    assert_eq!(file_name_char('a', true), 'a');
    assert_eq!(file_name_char('-', false), '-');
    assert_eq!(file_name_char('_', false), '_');
    assert_eq!(file_name_char(' ', false), '_');
    assert_eq!(file_name_char('ß', true), 'ß');
}

#[test]
fn unheard_parts_leave_the_plan_alone() {
    let mut p = Project::new("P".to_string(), 44100);
    let mut muted = track("m", vec![clip(0, 5000)]);
    muted.muted = true;
    p.add_track(muted);
    let mut quiet = clip(10, 100);
    quiet.muted = true;
    let mut a = track("a", vec![quiet, clip(20, 50)]);
    a.volume_bits = 0.5f32.to_bits();
    p.add_track(a);

    let mut kept = Project::new("P".to_string(), 44100);
    let mut a2 = track("a", vec![clip(20, 50)]);
    a2.volume_bits = 0.5f32.to_bits();
    kept.add_track(a2);

    let mut o = ExportOptions::default();
    o.range = Some((0, 1000));
    let full = plan_export(&p, &o).unwrap();
    let small = plan_export(&kept, &o).unwrap();
    assert_eq!(full.spans.len(), small.spans.len());
    for (x, y) in full.spans.iter().zip(small.spans.iter()) {
        assert_eq!((x.first_frame, x.end_frame, x.first_clip_pos), (y.first_frame, y.end_frame, y.first_clip_pos));
        let cx = &p.tracks[x.track].clips[x.clip];
        let cy = &kept.tracks[y.track].clips[y.clip];
        assert_eq!((cx.timeline_start, cx.length), (cy.timeline_start, cy.length));
        assert_eq!(p.tracks[x.track].volume_bits, kept.tracks[y.track].volume_bits);
    }
}
