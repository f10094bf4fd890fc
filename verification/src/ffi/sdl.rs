use vstd::prelude::*;

verus! {

pub const SDL_WINDOWEVENT_EXPOSED: u8 = 3;
pub const SDL_WINDOWEVENT_RESIZED: u8 = 5;
pub const SDL_WINDOWEVENT_SIZE_CHANGED: u8 = 6;

pub const SDL_QUIT: u32 = 0x100;
pub const SDL_WINDOWEVENT: u32 = 0x200;
pub const SDL_KEYDOWN: u32 = 0x300;
pub const SDL_KEYUP: u32 = 0x301;

pub const SDL_PRESSED: u8 = 1;

/// Either Alt key among the keyboard modifiers.
pub const KMOD_ALT: u16 = 0x0300;

pub const SDLK_w: i32 = 119;
pub const SDLK_a: i32 = 97;
pub const SDLK_s: i32 = 115;
pub const SDLK_d: i32 = 100;
pub const SDLK_e: i32 = 101;
pub const SDLK_p: i32 = 112;
pub const SDLK_q: i32 = 113;
pub const SDLK_l: i32 = 108;
pub const SDLK_ESCAPE: i32 = 27;
pub const SDLK_SPACE: i32 = 32;
pub const SDLK_F4: i32 = 0x4000_003D;
pub const SDLK_RIGHT: i32 = 0x4000_004F;
pub const SDLK_LEFT: i32 = 0x4000_0050;
pub const SDLK_DOWN: i32 = 0x4000_0051;
pub const SDLK_UP: i32 = 0x4000_0052;

/// An SDL window, only ever handled by pointer.
pub struct SDL_Window;

/// An SDL renderer, only ever handled by pointer.
pub struct SDL_Renderer;

/// An SDL game controller, only ever handled by pointer.
pub struct SDL_GameController;

/// An SDL texture, only ever handled by pointer.
pub struct SDL_Texture;

/// SDL's boolean.
#[derive(PartialEq, Eq, Structural)]
pub enum SDL_bool {
    SDL_FALSE,
    SDL_TRUE,
}

/// Scan codes this program names; SDL's scan codes themselves are plain numbers.
pub enum SDL_Scancode {
    SDL_SCANCODE_UNKNOWN,
    SDL_SCANCODE_MAX,
}

/// The game controller axes SDL can report.
pub enum SDL_GameControllerAxis {
    SDL_CONTROLLER_AXIS_INVALID,
    SDL_CONTROLLER_AXIS_LEFTX,
    SDL_CONTROLLER_AXIS_LEFTY,
    SDL_CONTROLLER_AXIS_RIGHTX,
    SDL_CONTROLLER_AXIS_RIGHTY,
    SDL_CONTROLLER_AXIS_TRIGGERLEFT,
    SDL_CONTROLLER_AXIS_TRIGGERRIGHT,
    SDL_CONTROLLER_AXIS_MAX,
}

/// The game controller buttons SDL can report.
pub enum SDL_GameControllerButton {
    SDL_CONTROLLER_BUTTON_INVALID,
    SDL_CONTROLLER_BUTTON_A,
    SDL_CONTROLLER_BUTTON_B,
    SDL_CONTROLLER_BUTTON_X,
    SDL_CONTROLLER_BUTTON_Y,
    SDL_CONTROLLER_BUTTON_BACK,
    SDL_CONTROLLER_BUTTON_GUIDE,
    SDL_CONTROLLER_BUTTON_START,
    SDL_CONTROLLER_BUTTON_LEFTSTICK,
    SDL_CONTROLLER_BUTTON_RIGHTSTICK,
    SDL_CONTROLLER_BUTTON_LEFTSHOULDER,
    SDL_CONTROLLER_BUTTON_RIGHTSHOULDER,
    SDL_CONTROLLER_BUTTON_DPAD_UP,
    SDL_CONTROLLER_BUTTON_DPAD_DOWN,
    SDL_CONTROLLER_BUTTON_DPAD_LEFT,
    SDL_CONTROLLER_BUTTON_DPAD_RIGHT,
    SDL_CONTROLLER_BUTTON_MAX,
}

/// A window event as laid out by SDL.
#[derive(Clone, Copy)]
pub struct SDL_WindowEvent {
    pub _type: u32,
    pub timestamp: u32,
    pub windowID: u32,
    pub event: u8,
    pub padding1: u8,
    pub padding2: u8,
    pub padding3: u8,
    pub data1: i32,
    pub data2: i32,
}

/// A key and its modifiers as laid out by SDL.
#[derive(Clone, Copy)]
pub struct SDL_Keysym {
    pub scancode: u32,
    pub sym: i32,
    pub _mod: u16,
    pub unused: u32,
}

/// A keyboard event as laid out by SDL.
#[derive(Clone, Copy)]
pub struct SDL_KeyboardEvent {
    pub _type: u32,
    pub timestamp: u32,
    pub windowID: u32,
    pub state: u8,
    pub repeat: u8,
    pub padding2: u8,
    pub padding3: u8,
    pub keysym: SDL_Keysym,
}

/// The quit event as laid out by SDL.
pub struct SDL_Quit {
    pub _type: u32,
    pub timestamp: u32,
}

/// A rectangle as laid out by SDL.
pub struct SDL_Rect {
    pub x: i32,
    pub y: i32,
    pub w: i32,
    pub h: i32,
}

/// An SDL event: the raw bytes of SDL's event union.
pub struct SDL_Event {
    pub data: [u8; 56],
}

/// The little-endian 16-bit number at byte `o` of `d`.
pub open spec fn le_u16(d: Seq<u8>, o: int) -> u16 {
    (d[o] as int + 256 * d[o + 1] as int) as u16
}

/// The little-endian 32-bit number at byte `o` of `d`.
pub open spec fn le_u32(d: Seq<u8>, o: int) -> u32 {
    (d[o] as int + 256 * d[o + 1] as int + 65536 * d[o + 2] as int + 16777216 * d[o + 3] as int) as u32
}

/// The 32-bit number read at byte `o` is little-endian: its lowest byte is
/// the byte at `o` and its highest the byte at `o + 3`.
pub proof fn lemma_le_u32_bytes(d: Seq<u8>, o: int)
    ensures
        le_u32(d, o) % 256 == d[o],
        (le_u32(d, o) / 256) % 256 == d[o + 1],
        (le_u32(d, o) / 65536) % 256 == d[o + 2],
        le_u32(d, o) / 16777216 == d[o + 3],
{
    let b0 = d[o] as int;
    let b1 = d[o + 1] as int;
    let b2 = d[o + 2] as int;
    let b3 = d[o + 3] as int;
    let v = b0 + 256 * b1 + 65536 * b2 + 16777216 * b3;
    assert(0 <= v <= 0xffff_ffff);
    assert(le_u32(d, o) as int == v);
    assert(v % 256 == b0 && (v / 256) % 256 == b1 && (v / 65536) % 256 == b2 && v / 16777216 == b3)
        by (nonlinear_arith)
        requires
            0 <= b0 < 256,
            0 <= b1 < 256,
            0 <= b2 < 256,
            0 <= b3 < 256,
            v == b0 + 256 * b1 + 65536 * b2 + 16777216 * b3,
    ;
}

/// Reads the little-endian 16-bit number at byte `o`.
pub fn read_u16(d: &[u8; 56], o: usize) -> (r: u16)
    requires
        o + 2 <= 56,
    ensures
        r == le_u16(d@, o as int),
{
    d[o] as u16 + 256 * (d[o + 1] as u16)
}

/// Reads the little-endian 32-bit number at byte `o`.
pub fn read_u32(d: &[u8; 56], o: usize) -> (r: u32)
    requires
        o + 4 <= 56,
    ensures
        r == le_u32(d@, o as int),
{
    d[o] as u32 + 256 * (d[o + 1] as u32) + 65536 * (d[o + 2] as u32) + 16777216 * (d[o + 3] as u32)
}

/// The keyboard event that the bytes `d` hold.
pub open spec fn keyboard_event_of(d: Seq<u8>) -> SDL_KeyboardEvent {
    SDL_KeyboardEvent {
        _type: le_u32(d, 0),
        timestamp: le_u32(d, 4),
        windowID: le_u32(d, 8),
        state: d[12],
        repeat: d[13],
        padding2: d[14],
        padding3: d[15],
        keysym: SDL_Keysym {
            scancode: le_u32(d, 16),
            sym: le_u32(d, 20) as i32,
            _mod: le_u16(d, 24),
            unused: le_u32(d, 28),
        },
    }
}

/// The window event that the bytes `d` hold.
pub open spec fn window_event_of(d: Seq<u8>) -> SDL_WindowEvent {
    SDL_WindowEvent {
        _type: le_u32(d, 0),
        timestamp: le_u32(d, 4),
        windowID: le_u32(d, 8),
        event: d[12],
        padding1: d[13],
        padding2: d[14],
        padding3: d[15],
        data1: le_u32(d, 16) as i32,
        data2: le_u32(d, 20) as i32,
    }
}

impl Default for SDL_Event {
    fn default() -> (r: SDL_Event)
        ensures
            forall|i: int| 0 <= i < 56 ==> #[trigger] r.data[i] == 0,
    {
        SDL_Event { data: [0u8; 56] }
    }
}

impl SDL_Event {
    /// The event's type, the first field of every SDL event.
    pub fn _type(&self) -> (r: u32)
        ensures
            r == le_u32(self.data@, 0),
    {
        read_u32(&self.data, 0)
    }

    /// The bytes read as a window event.
    pub fn window_event(&self) -> (r: SDL_WindowEvent)
        ensures
            r == window_event_of(self.data@),
    {
        SDL_WindowEvent {
            _type: read_u32(&self.data, 0),
            timestamp: read_u32(&self.data, 4),
            windowID: read_u32(&self.data, 8),
            event: self.data[12],
            padding1: self.data[13],
            padding2: self.data[14],
            padding3: self.data[15],
            data1: read_u32(&self.data, 16) as i32,
            data2: read_u32(&self.data, 20) as i32,
        }
    }

    /// The bytes read as a keyboard event.
    pub fn keyboard_event(&self) -> (r: SDL_KeyboardEvent)
        ensures
            r == keyboard_event_of(self.data@),
    {
        SDL_KeyboardEvent {
            _type: read_u32(&self.data, 0),
            timestamp: read_u32(&self.data, 4),
            windowID: read_u32(&self.data, 8),
            state: self.data[12],
            repeat: self.data[13],
            padding2: self.data[14],
            padding3: self.data[15],
            keysym: SDL_Keysym {
                scancode: read_u32(&self.data, 16),
                sym: read_u32(&self.data, 20) as i32,
                _mod: read_u16(&self.data, 24),
                unused: read_u32(&self.data, 28),
            },
        }
    }
}

} // verus!
