use molview::cursor::FrameCursor;
use molview::cursor::keyboard_animation_control;

#[test]
fn fresh_cursor_selects_first_frame() {
    let c = FrameCursor::new();
    assert_eq!(c.current(3), Some(0));
    assert_eq!(c.current(1), Some(0));
}

#[test]
fn backward_wraparound_is_euclidean() {
    // Two backward steps over three frames land on index 1, not -2.
    let mut c = FrameCursor::new();
    c.prev();
    c.prev();
    assert_eq!(c.current(3), Some(1));
    // One more backward step wraps to 0.
    c.prev();
    assert_eq!(c.current(3), Some(0));
    // And a fourth reaches the last frame again.
    c.prev();
    assert_eq!(c.current(3), Some(2));
}

#[test]
fn forward_advances_wrap_modulo_frame_count() {
    let mut c = FrameCursor::new();
    for _ in 0..7 {
        c.next();
    }
    // 7 mod 3 == 1
    assert_eq!(c.current(3), Some(1));
    // The same raw position resolves against other frame counts too.
    assert_eq!(c.current(7), Some(0));
    assert_eq!(c.current(4), Some(3));
}

#[test]
fn zero_frames_is_always_absent() {
    let mut c = FrameCursor::new();
    assert_eq!(c.current(0), None);
    for _ in 0..5 {
        c.next();
    }
    assert_eq!(c.current(0), None);
    for _ in 0..11 {
        c.prev();
    }
    assert_eq!(c.current(0), None);
}

#[test]
fn advance_takes_either_unit_step() {
    let mut c = FrameCursor::new();
    c.advance(1);
    c.advance(1);
    c.advance(-1);
    assert_eq!(c.current(5), Some(1));
}

#[test]
fn reset_returns_to_first_frame() {
    let mut c = FrameCursor::new();
    c.next();
    c.next();
    c.reset();
    assert_eq!(c.current(3), Some(0));
}

#[test]
fn default_cursor_is_reset() {
    let c = FrameCursor::default();
    assert_eq!(c.current(2), Some(0));
}

#[test]
fn keyboard_control_maps_keys_to_steps() {
    let mut c = FrameCursor::new();
    keyboard_animation_control(&mut c, true, false);
    assert_eq!(c.current(3), Some(1));
    keyboard_animation_control(&mut c, false, true);
    keyboard_animation_control(&mut c, false, true);
    assert_eq!(c.current(3), Some(2));
    // Neither key: no movement.
    keyboard_animation_control(&mut c, false, false);
    assert_eq!(c.current(3), Some(2));
    // Both keys: forward wins.
    keyboard_animation_control(&mut c, true, true);
    assert_eq!(c.current(3), Some(0));
}
