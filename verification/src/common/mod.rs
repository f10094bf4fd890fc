use vstd::prelude::*;

pub mod util;

verus! {

/// Number of controllers the input record carries; slot 0 is the keyboard.
pub const MAX_CONTROLLERS: usize = 5;

/// The contents of a whole file as read by the platform layer.
pub struct ReadFileResult {
    pub size: u32,
    pub contents: Vec<u8>,
}

/// The frame buffer the game draws into: pixels are `BB GG RR xx`,
/// rows `pitch` pixels apart.
pub struct VideoBuffer {
    pub memory: Vec<u32>,
    pub width: usize,
    pub height: usize,
    pub pitch: usize,
}

/// Sound samples the game fills, two channels interleaved.
pub struct SoundBuffer {
    pub samples: Vec<i16>,
    pub samples_per_second: u32,
}

/// The state of one digital button over a frame: whether it ended the frame
/// held down and how many times it changed state during the frame.
#[derive(Clone, Copy, PartialEq, Eq, Structural)]
pub struct Button {
    pub ended_down: bool,
    pub half_transitions: u8,
}

impl Default for Button {
    fn default() -> (r: Button)
        ensures
            r == Button::default_spec(),
    {
        Button { ended_down: false, half_transitions: 0 }
    }
}

/// One controller's input for a frame. The analog stick averages are
/// floating point and are kept by the platform layer; this record keeps
/// whether each of them is present.
#[derive(Clone, Copy, PartialEq, Eq, Structural)]
pub struct ControllerInput {
    pub is_connected: bool,
    pub average_x_present: bool,
    pub average_y_present: bool,
    pub move_up: Button,
    pub move_down: Button,
    pub move_left: Button,
    pub move_right: Button,
    pub action_up: Button,
    pub action_down: Button,
    pub action_left: Button,
    pub action_right: Button,
    pub left_shoulder: Button,
    pub right_shoulder: Button,
    pub start: Button,
    pub back: Button,
}

/// The twelve buttons of a controller, in declaration order.
pub open spec fn controller_buttons(c: ControllerInput) -> Seq<Button> {
    seq![
        c.move_up,
        c.move_down,
        c.move_left,
        c.move_right,
        c.action_up,
        c.action_down,
        c.action_left,
        c.action_right,
        c.left_shoulder,
        c.right_shoulder,
        c.start,
        c.back,
    ]
}

/// The controller `c` with its button number `i` (declaration order)
/// replaced by `b`; any other `i` leaves it unchanged.
pub open spec fn set_button(c: ControllerInput, i: int, b: Button) -> ControllerInput {
    if i == 0 {
        ControllerInput { move_up: b, ..c }
    } else if i == 1 {
        ControllerInput { move_down: b, ..c }
    } else if i == 2 {
        ControllerInput { move_left: b, ..c }
    } else if i == 3 {
        ControllerInput { move_right: b, ..c }
    } else if i == 4 {
        ControllerInput { action_up: b, ..c }
    } else if i == 5 {
        ControllerInput { action_down: b, ..c }
    } else if i == 6 {
        ControllerInput { action_left: b, ..c }
    } else if i == 7 {
        ControllerInput { action_right: b, ..c }
    } else if i == 8 {
        ControllerInput { left_shoulder: b, ..c }
    } else if i == 9 {
        ControllerInput { right_shoulder: b, ..c }
    } else if i == 10 {
        ControllerInput { start: b, ..c }
    } else if i == 11 {
        ControllerInput { back: b, ..c }
    } else {
        c
    }
}

impl Default for ControllerInput {
    fn default() -> (r: ControllerInput)
        ensures
            r == ControllerInput::default_spec(),
    {
        ControllerInput {
            is_connected: false,
            average_x_present: false,
            average_y_present: false,
            move_up: Button::default(),
            move_down: Button::default(),
            move_left: Button::default(),
            move_right: Button::default(),
            action_up: Button::default(),
            action_down: Button::default(),
            action_left: Button::default(),
            action_right: Button::default(),
            left_shoulder: Button::default(),
            right_shoulder: Button::default(),
            start: Button::default(),
            back: Button::default(),
        }
    }
}

impl ControllerInput {
    /// Starts a new frame: every button forgets its transitions and keeps
    /// whether it is held down.
    pub fn zero_half_transitions(&mut self)
        ensures
            final(self).is_connected == old(self).is_connected,
            final(self).average_x_present == old(self).average_x_present,
            final(self).average_y_present == old(self).average_y_present,
            forall|i: int|
                0 <= i < 12 ==> #[trigger] controller_buttons(*final(self))[i] == (Button {
                    ended_down: controller_buttons(*old(self))[i].ended_down,
                    half_transitions: 0,
                }),
    {
        self.move_up.half_transitions = 0;
        self.move_down.half_transitions = 0;
        self.move_left.half_transitions = 0;
        self.move_right.half_transitions = 0;
        self.action_up.half_transitions = 0;
        self.action_down.half_transitions = 0;
        self.action_left.half_transitions = 0;
        self.action_right.half_transitions = 0;
        self.left_shoulder.half_transitions = 0;
        self.right_shoulder.half_transitions = 0;
        self.start.half_transitions = 0;
        self.back.half_transitions = 0;
    }

    /// The controller reports analog movement when both stick averages are present.
    pub fn is_analog(&self) -> (r: bool)
        ensures
            r == (self.average_x_present && self.average_y_present),
    {
        self.average_x_present && self.average_y_present
    }
}

/// The calling thread, as handed to the platform callbacks.
pub struct ThreadContext;

/// All input for one frame: the mouse and the controllers. The frame's
/// duration is floating point and is kept by the platform layer.
pub struct Input {
    pub mouse_x: i32,
    pub mouse_y: i32,
    pub mouse_z: i32,
    pub mouse_l: Button,
    pub mouse_r: Button,
    pub mouse_m: Button,
    pub mouse_x1: Button,
    pub mouse_x2: Button,
    pub controllers: [ControllerInput; 5],
}

impl Default for Input {
    fn default() -> (r: Input)
        ensures
            r.mouse_x == 0 && r.mouse_y == 0 && r.mouse_z == 0,
            r.mouse_l == Button::default_spec(),
            r.mouse_r == Button::default_spec(),
            r.mouse_m == Button::default_spec(),
            r.mouse_x1 == Button::default_spec(),
            r.mouse_x2 == Button::default_spec(),
            forall|c: int| 0 <= c < 5 ==> #[trigger] r.controllers[c] == ControllerInput::default_spec(),
    {
        let c = ControllerInput::default();
        let r = Input {
            mouse_x: 0,
            mouse_y: 0,
            mouse_z: 0,
            mouse_l: Button::default(),
            mouse_r: Button::default(),
            mouse_m: Button::default(),
            mouse_x1: Button::default(),
            mouse_x2: Button::default(),
            controllers: [c, c, c, c, c],
        };
        assert(r.controllers@ =~= seq![c, c, c, c, c]);
        r
    }
}

impl Button {
    /// A button that is up and did not change.
    pub open spec fn default_spec() -> Button {
        Button { ended_down: false, half_transitions: 0 }
    }
}

impl ControllerInput {
    /// A disconnected controller with every button up and unchanged.
    pub open spec fn default_spec() -> ControllerInput {
        ControllerInput {
            is_connected: false,
            average_x_present: false,
            average_y_present: false,
            move_up: Button::default_spec(),
            move_down: Button::default_spec(),
            move_left: Button::default_spec(),
            move_right: Button::default_spec(),
            action_up: Button::default_spec(),
            action_down: Button::default_spec(),
            action_left: Button::default_spec(),
            action_right: Button::default_spec(),
            left_shoulder: Button::default_spec(),
            right_shoulder: Button::default_spec(),
            start: Button::default_spec(),
            back: Button::default_spec(),
        }
    }
}

} // verus!
