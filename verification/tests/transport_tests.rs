use daw_reabs::transport::{loop_target, Transport};

#[test]
fn new_transport_is_stopped_at_zero() {
    let (t, h) = Transport::new();
    assert_eq!(t.position(), 0);
    assert!(!t.is_playing());
    assert!(!t.is_recording());
    assert!(!t.is_looping());
    assert!(!t.metronome_enabled());
    assert_eq!(h.position(), 0);
    assert!(!h.is_playing());
}

#[test]
fn handle_sees_what_transport_writes() {
    let (t, h) = Transport::new();
    t.play();
    assert!(h.is_playing());
    assert!(!h.is_recording());
    t.record();
    assert!(h.is_playing());
    assert!(h.is_recording());
    t.stop();
    assert!(!h.is_playing());
    assert!(!h.is_recording());
    t.seek(1234);
    assert_eq!(h.position(), 1234);
    t.rewind();
    assert_eq!(h.position(), 0);
    t.set_metronome(true);
    assert!(h.metronome_enabled());
    assert!(t.metronome_enabled());
}

#[test]
fn advance_when_stopped_keeps_position() {
    let (t, h) = Transport::new();
    t.seek(500);
    assert_eq!(h.advance(128), 500);
    assert_eq!(t.position(), 500);
}

#[test]
fn advance_moves_playhead_and_returns_previous() {
    let (t, h) = Transport::new();
    t.play();
    assert_eq!(h.advance(256), 0);
    assert_eq!(h.advance(256), 256);
    assert_eq!(t.position(), 512);
}

#[test]
fn advance_wraps_at_loop_end() {
    let (t, h) = Transport::new();
    t.set_loop(100, 1000, true);
    assert!(t.is_looping());
    t.seek(900);
    t.play();
    assert_eq!(h.advance(150), 900);
    // 900 + 150 = 1050, 50 past the loop end: back to 100 + 50.
    assert_eq!(t.position(), 150);
}

#[test]
fn advance_ignores_loop_when_disabled_or_empty() {
    let (t, h) = Transport::new();
    t.set_loop(100, 1000, false);
    t.seek(900);
    t.play();
    h.advance(150);
    assert_eq!(t.position(), 1050);

    t.set_loop(500, 500, true);
    t.seek(400);
    h.advance(200);
    assert_eq!(t.position(), 600);
}

#[test]
fn default_transport_is_stopped() {
    let t = Transport::default();
    assert_eq!(t.position(), 0);
    assert!(!t.is_playing());
}

#[test]
fn loop_target_values() {
    assert_eq!(loop_target(900, 150, 100, 1000), Some(150));
    assert_eq!(loop_target(900, 100, 100, 1000), Some(100));
    assert_eq!(loop_target(900, 99, 100, 1000), None);
    assert_eq!(loop_target(900, 150, 1000, 1000), None);
    assert_eq!(loop_target(u64::MAX, 2, 0, 10), Some(((u64::MAX as u128 + 2 - 10) % (1u128 << 64)) as u64));
}
