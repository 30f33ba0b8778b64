//! Keyboard state of the camera controller: which movement controls are held
//! down, and the axis direction they add up to. Reading the window's key
//! events and turning the direction into a unit vector stay with the caller;
//! this module owns the decision logic in between.
use vstd::prelude::*;

verus! {

/// A key the controller reacts to, already stripped of windowing detail: a
/// printable character, one of the two named movement keys, or anything
/// else.
#[derive(Clone, Copy, Debug, PartialEq, Eq, Structural)]
pub enum KeyInput {
    Character(char),
    Space,
    Shift,
    Other,
}

/// Which movement controls are currently held down.
#[derive(Clone, Copy, Debug, PartialEq, Eq, Structural)]
pub struct CameraController {
    pub is_left_pressed: bool,
    pub is_right_pressed: bool,
    pub is_forward_pressed: bool,
    pub is_backward_pressed: bool,
    pub is_up_pressed: bool,
    pub is_down_pressed: bool,
}

impl Default for CameraController {
    /// A controller with no key held down.
    fn default() -> (c: CameraController)
        ensures
            c == CameraController::spec_default(),
    {
        CameraController {
            is_left_pressed: false,
            is_right_pressed: false,
            is_forward_pressed: false,
            is_backward_pressed: false,
            is_up_pressed: false,
            is_down_pressed: false,
        }
    }
}

impl CameraController {
    /// The state with no key held down.
    pub open spec fn spec_default() -> CameraController {
        CameraController {
            is_left_pressed: false,
            is_right_pressed: false,
            is_forward_pressed: false,
            is_backward_pressed: false,
            is_up_pressed: false,
            is_down_pressed: false,
        }
    }

    /// The flags after a key changes state: `a`/`d` steer left/right,
    /// `w`/`s` forward/backward, space/shift up/down; any other key leaves
    /// the controller alone.
    pub open spec fn spec_after_key(self, key: KeyInput, pressed: bool) -> CameraController {
        match key {
            KeyInput::Character(c) => {
                if c == 'a' {
                    CameraController { is_left_pressed: pressed, ..self }
                } else if c == 'd' {
                    CameraController { is_right_pressed: pressed, ..self }
                } else if c == 'w' {
                    CameraController { is_forward_pressed: pressed, ..self }
                } else if c == 's' {
                    CameraController { is_backward_pressed: pressed, ..self }
                } else {
                    self
                }
            },
            KeyInput::Space => CameraController { is_up_pressed: pressed, ..self },
            KeyInput::Shift => CameraController { is_down_pressed: pressed, ..self },
            KeyInput::Other => self,
        }
    }

    /// Record that `key` is now pressed or released.
    pub fn handle_key_event(&mut self, key: KeyInput, pressed: bool)
        ensures
            *final(self) == old(self).spec_after_key(key, pressed),
    {
        match key {
            KeyInput::Character(c) => {
                if c == 'a' {
                    self.is_left_pressed = pressed;
                } else if c == 'd' {
                    self.is_right_pressed = pressed;
                } else if c == 'w' {
                    self.is_forward_pressed = pressed;
                } else if c == 's' {
                    self.is_backward_pressed = pressed;
                }
            },
            KeyInput::Space => {
                self.is_up_pressed = pressed;
            },
            KeyInput::Shift => {
                self.is_down_pressed = pressed;
            },
            KeyInput::Other => {},
        }
    }

    /// The movement direction the held keys add up to, one component per
    /// axis: right minus left, up minus down, forward minus backward, each
    /// in `-1..=1`. Scaling this into a unit vector is the caller's
    /// floating-point concern.
    pub fn cur_dir(&self) -> (dir: (i32, i32, i32))
        ensures
            dir.0 == (if self.is_right_pressed { 1int } else { 0 }) - (
            if self.is_left_pressed { 1int } else { 0 }),
            dir.1 == (if self.is_up_pressed { 1int } else { 0 }) - (
            if self.is_down_pressed { 1int } else { 0 }),
            dir.2 == (if self.is_forward_pressed { 1int } else { 0 }) - (
            if self.is_backward_pressed { 1int } else { 0 }),
    {
        let mut x: i32 = 0;
        let mut y: i32 = 0;
        let mut z: i32 = 0;
        if self.is_right_pressed {
            x = x + 1;
        }
        if self.is_left_pressed {
            x = x - 1;
        }
        if self.is_up_pressed {
            y = y + 1;
        }
        if self.is_down_pressed {
            y = y - 1;
        }
        if self.is_forward_pressed {
            z = z + 1;
        }
        if self.is_backward_pressed {
            z = z - 1;
        }
        (x, y, z)
    }
}

} // verus!
