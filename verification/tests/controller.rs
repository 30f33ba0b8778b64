use voxeltree::controller::{CameraController, KeyInput};

#[test]
fn default_controller_is_idle() {
    let c = CameraController::default();
    assert_eq!(c.cur_dir(), (0, 0, 0));
    assert!(!c.is_left_pressed);
    assert!(!c.is_right_pressed);
    assert!(!c.is_forward_pressed);
    assert!(!c.is_backward_pressed);
    assert!(!c.is_up_pressed);
    assert!(!c.is_down_pressed);
}

#[test]
fn movement_keys_steer_each_axis() {
    let mut c = CameraController::default();
    c.handle_key_event(KeyInput::Character('a'), true);
    assert_eq!(c.cur_dir(), (-1, 0, 0));
    c.handle_key_event(KeyInput::Character('d'), true);
    assert_eq!(c.cur_dir(), (0, 0, 0));
    c.handle_key_event(KeyInput::Character('a'), false);
    assert_eq!(c.cur_dir(), (1, 0, 0));
    c.handle_key_event(KeyInput::Character('w'), true);
    c.handle_key_event(KeyInput::Space, true);
    assert_eq!(c.cur_dir(), (1, 1, 1));
    c.handle_key_event(KeyInput::Shift, true);
    c.handle_key_event(KeyInput::Character('s'), true);
    assert_eq!(c.cur_dir(), (1, 0, 0));
}

#[test]
fn other_keys_are_ignored() {
    let mut c = CameraController::default();
    c.handle_key_event(KeyInput::Character('q'), true);
    c.handle_key_event(KeyInput::Other, true);
    assert_eq!(c, CameraController::default());
}

#[test]
fn release_clears_only_that_key() {
    let mut c = CameraController::default();
    c.handle_key_event(KeyInput::Character('w'), true);
    c.handle_key_event(KeyInput::Space, true);
    c.handle_key_event(KeyInput::Space, false);
    assert!(c.is_forward_pressed);
    assert!(!c.is_up_pressed);
    assert_eq!(c.cur_dir(), (0, 0, 1));
}
