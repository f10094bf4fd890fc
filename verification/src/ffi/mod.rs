use vstd::prelude::*;

pub mod sdl;
pub mod linux;
pub mod direct_sound;

verus! {

pub const WM_CLOSE: u32 = 0x0010;
pub const WM_SIZE: u32 = 0x0005;
pub const WM_DESTROY: u32 = 0x0002;
pub const WM_PAINT: u32 = 0x000F;
pub const WM_ACTIVATEAPP: u32 = 0x001C;
pub const WM_QUIT: u32 = 0x0012;
pub const WM_SETCURSOR: u32 = 0x0020;
pub const WM_KEYDOWN: u32 = 0x0100;
pub const WM_KEYUP: u32 = 0x0101;
pub const WM_SYSKEYDOWN: u32 = 0x0104;
pub const WM_SYSKEYUP: u32 = 0x0105;

pub const VK_RETURN: u8 = 0x0D;
pub const VK_ESCAPE: u8 = 0x1B;
pub const VK_SPACE: u8 = 0x20;
pub const VK_LEFT: u8 = 0x25;
pub const VK_UP: u8 = 0x26;
pub const VK_RIGHT: u8 = 0x27;
pub const VK_DOWN: u8 = 0x28;
pub const VK_F4: u8 = 0x73;

pub const XINPUT_GAMEPAD_DPAD_UP: u16 = 0x0001;
pub const XINPUT_GAMEPAD_DPAD_DOWN: u16 = 0x0002;
pub const XINPUT_GAMEPAD_DPAD_LEFT: u16 = 0x0004;
pub const XINPUT_GAMEPAD_DPAD_RIGHT: u16 = 0x0008;
pub const XINPUT_GAMEPAD_START: u16 = 0x0010;
pub const XINPUT_GAMEPAD_BACK: u16 = 0x0020;
pub const XINPUT_GAMEPAD_LEFT_SHOULDER: u16 = 0x0100;
pub const XINPUT_GAMEPAD_RIGHT_SHOULDER: u16 = 0x0200;
pub const XINPUT_GAMEPAD_A: u16 = 0x1000;
pub const XINPUT_GAMEPAD_B: u16 = 0x2000;
pub const XINPUT_GAMEPAD_X: u16 = 0x4000;
pub const XINPUT_GAMEPAD_Y: u16 = 0x8000;

/// Stick deflection that the left thumb stick reports without being touched.
pub const XINPUT_GAMEPAD_LEFT_THUMB_DEADZONE: i16 = 7849;

pub const XUSER_MAX_COUNT: u32 = 4;

pub const ERROR_SUCCESS: u32 = 0;
pub const ERROR_DEVICE_NOT_CONNECTED: u32 = 1167;

/// The state of an XInput gamepad.
#[derive(Clone, Copy, PartialEq, Eq, Structural)]
pub struct XINPUT_GAMEPAD {
    pub wButtons: u16,
    pub bLeftTrigger: u8,
    pub bRightTrigger: u8,
    pub sThumbLX: i16,
    pub sThumbLY: i16,
    pub sThumbRX: i16,
    pub sThumbRY: i16,
}

impl Default for XINPUT_GAMEPAD {
    fn default() -> (r: XINPUT_GAMEPAD)
        ensures
            r == (XINPUT_GAMEPAD {
                wButtons: 0,
                bLeftTrigger: 0,
                bRightTrigger: 0,
                sThumbLX: 0,
                sThumbLY: 0,
                sThumbRX: 0,
                sThumbRY: 0,
            }),
    {
        XINPUT_GAMEPAD {
            wButtons: 0,
            bLeftTrigger: 0,
            bRightTrigger: 0,
            sThumbLX: 0,
            sThumbLY: 0,
            sThumbRX: 0,
            sThumbRY: 0,
        }
    }
}

/// A numbered reading of an XInput gamepad.
#[derive(Clone, Copy, PartialEq, Eq, Structural)]
pub struct XINPUT_STATE {
    pub dwPacketNumber: u32,
    pub Gamepad: XINPUT_GAMEPAD,
}

impl Default for XINPUT_STATE {
    fn default() -> (r: XINPUT_STATE)
        ensures
            r.dwPacketNumber == 0,
            r.Gamepad == (XINPUT_GAMEPAD {
                wButtons: 0,
                bLeftTrigger: 0,
                bRightTrigger: 0,
                sThumbLX: 0,
                sThumbLY: 0,
                sThumbRX: 0,
                sThumbRY: 0,
            }),
    {
        XINPUT_STATE { dwPacketNumber: 0, Gamepad: XINPUT_GAMEPAD::default() }
    }
}

/// Motor speeds for an XInput gamepad's rumble.
pub struct XINPUT_VIBRATION {
    pub wLeftMotorSpeed: u16,
    pub wRightMotorSpeed: u16,
}

/// A point in window coordinates.
pub struct POINT {
    pub x: i32,
    pub y: i32,
}

/// A rectangle in window coordinates.
#[derive(Clone, Copy, PartialEq, Eq, Structural)]
pub struct RECT {
    pub left: i32,
    pub top: i32,
    pub right: i32,
    pub bottom: i32,
}

impl Default for RECT {
    fn default() -> (r: RECT)
        ensures
            r == (RECT { left: 0, top: 0, right: 0, bottom: 0 }),
    {
        RECT { left: 0, right: 0, bottom: 0, top: 0 }
    }
}

/// The header of a device independent bitmap.
pub struct BITMAPINFOHEADER {
    pub biSize: u32,
    pub biWidth: i32,
    pub biHeight: i32,
    pub biPlanes: u16,
    pub biBitCount: u16,
    pub biCompression: u32,
    pub biSizeImage: u32,
    pub biXPelsPerMeter: i32,
    pub biYPelsPerMeter: i32,
    pub biClrUsed: u32,
    pub biClrImportant: u32,
}

/// One palette colour of a device independent bitmap.
pub struct RGBQUAD {
    pub rgbBlue: u8,
    pub rgbGreen: u8,
    pub rgbRed: u8,
    pub rgbReserved: u8,
}

} // verus!
