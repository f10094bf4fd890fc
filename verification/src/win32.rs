use vstd::prelude::*;

use crate::ffi::direct_sound::{WAVEFORMATEX, WAVE_FORMAT_PCM};
use crate::common::{Button, ControllerInput, Input, controller_buttons, set_button};
use crate::ffi::{
    RECT, WM_CLOSE, WM_DESTROY, WM_QUIT, WM_KEYDOWN, WM_KEYUP, WM_PAINT, WM_SETCURSOR, WM_SYSKEYDOWN,
    WM_SYSKEYUP, XINPUT_GAMEPAD, ERROR_DEVICE_NOT_CONNECTED, ERROR_SUCCESS, VK_DOWN, VK_ESCAPE, VK_F4, VK_LEFT,
    VK_RETURN, VK_RIGHT, VK_SPACE, VK_UP, XINPUT_GAMEPAD_A, XINPUT_GAMEPAD_B,
    XINPUT_GAMEPAD_BACK, XINPUT_GAMEPAD_DPAD_DOWN, XINPUT_GAMEPAD_DPAD_LEFT,
    XINPUT_GAMEPAD_DPAD_RIGHT, XINPUT_GAMEPAD_DPAD_UP, XINPUT_GAMEPAD_LEFT_SHOULDER,
    XINPUT_GAMEPAD_LEFT_THUMB_DEADZONE, XINPUT_GAMEPAD_RIGHT_SHOULDER, XINPUT_GAMEPAD_START,
    XINPUT_GAMEPAD_X, XINPUT_GAMEPAD_Y,
};

verus! {

/// Positions of the audio cursors at the moments of one frame, kept for
/// debugging the sound timing.
#[derive(Clone, Copy, PartialEq, Eq, Structural)]
pub struct SoundTimeMarker {
    pub flip_play_cursor: u32,
    pub flip_write_cursor: u32,
    pub output_play_cursor: u32,
    pub output_write_cursor: u32,
    pub output_location: u32,
    pub output_byte_count: u32,
    pub expected_frame_byte: u32,
}

impl Default for SoundTimeMarker {
    fn default() -> (r: SoundTimeMarker)
        ensures
            r == (SoundTimeMarker {
                flip_play_cursor: 0,
                flip_write_cursor: 0,
                output_play_cursor: 0,
                output_write_cursor: 0,
                output_location: 0,
                output_byte_count: 0,
                expected_frame_byte: 0,
            }),
    {
        SoundTimeMarker {
            flip_play_cursor: 0,
            flip_write_cursor: 0,
            output_play_cursor: 0,
            output_write_cursor: 0,
            output_location: 0,
            output_byte_count: 0,
            expected_frame_byte: 0,
        }
    }
}

/// Bytes of one sample frame: two channels of 16 bits.
pub const WIN32_BYTES_PER_SAMPLE: u32 = 4;

/// Where one frame's sound goes in the sound buffer: the byte to start at,
/// the byte to stop at, and how many bytes lie between them around the
/// buffer.
#[derive(Clone, Copy, PartialEq, Eq, Structural)]
pub struct SoundWriteRegion {
    pub byte_to_lock: u32,
    pub target_cursor: u32,
    pub bytes_to_write: u32,
}

/// The first byte past the write cursor that is safe to write at, counted
/// past the buffer's end when the write cursor has wrapped around.
pub open spec fn safe_write_cursor(play_cursor: int, write_cursor: int, safety_bytes: int, size: int) -> int {
    if write_cursor < play_cursor {
        write_cursor + safety_bytes + size
    } else {
        write_cursor + safety_bytes
    }
}

/// The byte the frame's sound runs up to: a frame past the frame boundary
/// when the sound card keeps up with it, else a frame and the safety margin
/// past the write cursor; rounded down to a whole sample frame and taken
/// around the buffer.
pub open spec fn sound_target(
    size: int,
    play_cursor: int,
    write_cursor: int,
    safety_bytes: int,
    expected_sound_bytes_per_frame: int,
    expected_bytes_to_flip: int,
) -> int {
    let frame_boundary = play_cursor + expected_bytes_to_flip;
    if safe_write_cursor(play_cursor, write_cursor, safety_bytes, size) < frame_boundary {
        (((frame_boundary + expected_sound_bytes_per_frame) / 4) * 4) % size
    } else {
        (((write_cursor + expected_sound_bytes_per_frame + safety_bytes) / 4) * 4) % size
    }
}

/// Decides where one frame's sound goes, from the running byte count, the
/// buffer's size, its play and write cursors, the safety margin, a frame's
/// worth of bytes and the bytes the card plays until the frame flips.
pub fn sound_write_region(
    byte_index: u32,
    sound_buffer_size: u32,
    play_cursor: u32,
    write_cursor: u32,
    safety_bytes: u32,
    expected_sound_bytes_per_frame: u32,
    expected_bytes_to_flip: u32,
) -> (r: SoundWriteRegion)
    requires
        0 < sound_buffer_size,
        play_cursor < sound_buffer_size,
        write_cursor < sound_buffer_size,
        safe_write_cursor(
            play_cursor as int,
            write_cursor as int,
            safety_bytes as int,
            sound_buffer_size as int,
        ) <= u32::MAX,
        play_cursor + expected_bytes_to_flip <= u32::MAX,
        safe_write_cursor(
            play_cursor as int,
            write_cursor as int,
            safety_bytes as int,
            sound_buffer_size as int,
        ) < play_cursor + expected_bytes_to_flip ==> play_cursor + expected_bytes_to_flip
            + expected_sound_bytes_per_frame <= u32::MAX,
        !(safe_write_cursor(
            play_cursor as int,
            write_cursor as int,
            safety_bytes as int,
            sound_buffer_size as int,
        ) < play_cursor + expected_bytes_to_flip) ==> write_cursor
            + expected_sound_bytes_per_frame + safety_bytes <= u32::MAX,
    ensures
        r.byte_to_lock == byte_index % sound_buffer_size,
        r.target_cursor == sound_target(
            sound_buffer_size as int,
            play_cursor as int,
            write_cursor as int,
            safety_bytes as int,
            expected_sound_bytes_per_frame as int,
            expected_bytes_to_flip as int,
        ),
        r.bytes_to_write == if r.byte_to_lock > r.target_cursor {
            sound_buffer_size - r.byte_to_lock + r.target_cursor
        } else {
            r.target_cursor - r.byte_to_lock
        },
        r.bytes_to_write < sound_buffer_size,
        (r.byte_to_lock + r.bytes_to_write) % (sound_buffer_size as int) == r.target_cursor,
{
    let byte_to_lock: u32 = byte_index % sound_buffer_size;
    let safe_write: u32 = if write_cursor < play_cursor {
        write_cursor + safety_bytes + sound_buffer_size
    } else {
        write_cursor + safety_bytes
    };
    let expected_frame_boundary_byte: u32 = play_cursor + expected_bytes_to_flip;
    let audio_card_not_latent: bool = safe_write < expected_frame_boundary_byte;
    let target_cursor: u32 = if audio_card_not_latent {
        (((expected_frame_boundary_byte + expected_sound_bytes_per_frame) / WIN32_BYTES_PER_SAMPLE)
            * WIN32_BYTES_PER_SAMPLE) % sound_buffer_size
    } else {
        (((write_cursor + expected_sound_bytes_per_frame + safety_bytes) / WIN32_BYTES_PER_SAMPLE)
            * WIN32_BYTES_PER_SAMPLE) % sound_buffer_size
    };
    let bytes_to_write: u32 = if byte_to_lock > target_cursor {
        sound_buffer_size - byte_to_lock + target_cursor
    } else {
        target_cursor - byte_to_lock
    };
    proof {
        vstd::arithmetic::div_mod::lemma_small_mod(target_cursor as nat, sound_buffer_size as nat);
        vstd::arithmetic::div_mod::lemma_mod_add_multiples_vanish(
            target_cursor as int,
            sound_buffer_size as int,
        );
    }
    SoundWriteRegion { byte_to_lock, target_cursor, bytes_to_write }
}

/// The window commands of the keyboard: P pressed pauses, F4 with alt
/// quits, return pressed with alt toggles full screen, L pressed steps the
/// replay; the keys that drive buttons ask for no command.
pub proof fn lemma_vk_commands(is_down: bool, alt: bool)
    ensures
        vk_command(0x50u8, true, alt) == KeyCommand::TogglePause,
        vk_command(VK_F4, is_down, true) == KeyCommand::Quit,
        vk_command(VK_F4, is_down, false) == KeyCommand::NoCommand,
        vk_command(VK_RETURN, true, true) == KeyCommand::ToggleFullscreen,
        vk_command(VK_RETURN, false, alt) == KeyCommand::NoCommand,
        vk_command(VK_RETURN, is_down, false) == KeyCommand::NoCommand,
        vk_command(0x4Cu8, true, alt) == KeyCommand::StepReplay,
        vk_command(0x4Cu8, false, alt) == KeyCommand::NoCommand,
        vk_command(0x57u8, is_down, alt) == KeyCommand::NoCommand,
        vk_command(VK_SPACE, is_down, alt) == KeyCommand::NoCommand,
{
}

/// How a gamepad's buttons drive a controller: Y, A, X and B drive the
/// action buttons up, down, left and right, the shoulders, start and back
/// their own buttons, and a held d-pad switches the analog averages off.
/// Each button counts one transition when it changed.
pub proof fn lemma_gamepad_buttons(g: XINPUT_GAMEPAD, old_c: ControllerInput, new_c: ControllerInput)
    ensures
        ({
            let r = controller_from_gamepad(g, old_c, new_c);
            let w = g.wButtons;
            &&& r.is_connected
            &&& r.action_up.ended_down == (w & XINPUT_GAMEPAD_Y == XINPUT_GAMEPAD_Y)
            &&& r.action_down.ended_down == (w & XINPUT_GAMEPAD_A == XINPUT_GAMEPAD_A)
            &&& r.action_left.ended_down == (w & XINPUT_GAMEPAD_X == XINPUT_GAMEPAD_X)
            &&& r.action_right.ended_down == (w & XINPUT_GAMEPAD_B == XINPUT_GAMEPAD_B)
            &&& r.left_shoulder.ended_down == (w & XINPUT_GAMEPAD_LEFT_SHOULDER
                == XINPUT_GAMEPAD_LEFT_SHOULDER)
            &&& r.right_shoulder.ended_down == (w & XINPUT_GAMEPAD_RIGHT_SHOULDER
                == XINPUT_GAMEPAD_RIGHT_SHOULDER)
            &&& r.start.ended_down == (w & XINPUT_GAMEPAD_START == XINPUT_GAMEPAD_START)
            &&& r.back.ended_down == (w & XINPUT_GAMEPAD_BACK == XINPUT_GAMEPAD_BACK)
            &&& r.average_x_present == !dpad_used(w)
            &&& r.average_y_present == !dpad_used(w)
        }),
        forall|i: int|
            0 <= i < 12 ==> (#[trigger] controller_buttons(controller_from_gamepad(g, old_c, new_c))[i]).half_transitions
                == if controller_buttons(controller_from_gamepad(g, old_c, new_c))[i].ended_down
                != controller_buttons(old_c)[i].ended_down {
                1u8
            } else {
                0u8
            },
{
}

/// How a gamepad's d-pad and stick move a controller: a held d-pad
/// direction moves that way (up over down, left over right); without the
/// d-pad the stick pushed fully moves its way and a centered stick moves
/// nowhere.
pub proof fn lemma_gamepad_moves(g: XINPUT_GAMEPAD)
    ensures
        ({
            let (up, down, left, right) = gamepad_moves(g);
            let w = g.wButtons;
            &&& w & XINPUT_GAMEPAD_DPAD_UP != 0 ==> up && !down
            &&& w & XINPUT_GAMEPAD_DPAD_DOWN != 0 && w & XINPUT_GAMEPAD_DPAD_UP == 0 ==> down && !up
            &&& w & XINPUT_GAMEPAD_DPAD_LEFT != 0 ==> left && !right
            &&& w & XINPUT_GAMEPAD_DPAD_RIGHT != 0 && w & XINPUT_GAMEPAD_DPAD_LEFT == 0 ==> right && !left
            &&& !dpad_used(w) && g.sThumbLY == 32767 ==> up && !down
            &&& !dpad_used(w) && g.sThumbLY == -32768 ==> down && !up
            &&& !dpad_used(w) && g.sThumbLX == 32767 ==> right && !left
            &&& !dpad_used(w) && g.sThumbLX == -32768 ==> left && !right
            &&& !dpad_used(w) && g.sThumbLX == 0 && g.sThumbLY == 0 ==> !up && !down && !left && !right
        }),
{
}

/// A controller's movement buttons are the gamepad's movement directions.
pub proof fn lemma_gamepad_moves_drive_buttons(g: XINPUT_GAMEPAD, old_c: ControllerInput, new_c: ControllerInput)
    ensures
        ({
            let r = controller_from_gamepad(g, old_c, new_c);
            let (up, down, left, right) = gamepad_moves(g);
            &&& r.move_up.ended_down == up
            &&& r.move_down.ended_down == down
            &&& r.move_left.ended_down == left
            &&& r.move_right.ended_down == right
        }),
{
}

/// Reads one button out of an XInput button word: it is down when all the
/// bits of `button_bit` are set, and it made one transition when that
/// differs from the previous frame.
pub fn process_xinput_button(
    xinput_button_state: u16,
    old_state: &Button,
    new_state: &mut Button,
    button_bit: u16,
)
    ensures
        final(new_state).ended_down == (xinput_button_state & button_bit == button_bit),
        final(new_state).half_transitions == if old_state.ended_down
            != final(new_state).ended_down {
            1u8
        } else {
            0u8
        },
{
    new_state.ended_down = (xinput_button_state & button_bit) == button_bit;
    new_state.half_transitions = if old_state.ended_down != new_state.ended_down {
        1
    } else {
        0
    };
}

/// A button after a message that it is down or up: a change sets the new
/// state and counts one transition; the same state again changes nothing.
pub open spec fn after_key_message(button: Button, is_down: bool) -> Button {
    if is_down != button.ended_down {
        Button { ended_down: is_down, half_transitions: (button.half_transitions + 1) as u8 }
    } else {
        button
    }
}

/// Records a keyboard key's state: a change sets the new state and counts
/// one transition; the same state again changes nothing.
pub fn process_keyboard_message(button: &mut Button, is_down: bool)
    requires
        is_down != old(button).ended_down ==> old(button).half_transitions < 255,
    ensures
        *final(button) == after_key_message(*old(button), is_down),
{
    if is_down != button.ended_down {
        button.ended_down = is_down;
        button.half_transitions += 1;
    }
}

/// Whether a key state word says that the key is down: its high bit is set.
pub open spec fn key_state_down(state: i16) -> bool {
    state < 0
}

/// Whether a mouse button's message may count one more transition.
pub open spec fn mouse_button_ok(button: Button, state: i16) -> bool {
    key_state_down(state) != button.ended_down ==> button.half_transitions < 255
}

/// Records the mouse for a frame: the cursor's position in the window, and
/// the left, right, middle and two side buttons from their key state words,
/// in that order.
pub fn process_mouse_input(input: &mut Input, cursor_x: i32, cursor_y: i32, key_states: [i16; 5])
    requires
        mouse_button_ok(old(input).mouse_l, key_states[0]),
        mouse_button_ok(old(input).mouse_r, key_states[1]),
        mouse_button_ok(old(input).mouse_m, key_states[2]),
        mouse_button_ok(old(input).mouse_x1, key_states[3]),
        mouse_button_ok(old(input).mouse_x2, key_states[4]),
    ensures
        final(input).mouse_x == cursor_x,
        final(input).mouse_y == cursor_y,
        final(input).mouse_z == old(input).mouse_z,
        final(input).mouse_l == after_key_message(old(input).mouse_l, key_state_down(key_states[0])),
        final(input).mouse_r == after_key_message(old(input).mouse_r, key_state_down(key_states[1])),
        final(input).mouse_m == after_key_message(old(input).mouse_m, key_state_down(key_states[2])),
        final(input).mouse_x1 == after_key_message(
            old(input).mouse_x1,
            key_state_down(key_states[3]),
        ),
        final(input).mouse_x2 == after_key_message(
            old(input).mouse_x2,
            key_state_down(key_states[4]),
        ),
        final(input).controllers == old(input).controllers,
{
    input.mouse_x = cursor_x;
    input.mouse_y = cursor_y;
    process_keyboard_message(&mut input.mouse_l, key_states[0] < 0);
    process_keyboard_message(&mut input.mouse_r, key_states[1] < 0);
    process_keyboard_message(&mut input.mouse_m, key_states[2] < 0);
    process_keyboard_message(&mut input.mouse_x1, key_states[3] < 0);
    process_keyboard_message(&mut input.mouse_x2, key_states[4] < 0);
}

/// The width and height of a window's client area, from whether its
/// rectangle could be read and the rectangle itself.
pub fn get_client_dimensions(rect_read: bool, client_rect: &RECT) -> (r: Result<(i32, i32), &'static str>)
    requires
        rect_read ==> i32::MIN <= client_rect.right - client_rect.left <= i32::MAX,
        rect_read ==> i32::MIN <= client_rect.bottom - client_rect.top <= i32::MAX,
    ensures
        rect_read <==> r is Ok,
        r matches Ok((w, h)) ==> w == client_rect.right - client_rect.left && h
            == client_rect.bottom - client_rect.top,
{
    if !rect_read {
        Err("Client Rect not optainable")
    } else {
        let width = client_rect.right - client_rect.left;
        let height = client_rect.bottom - client_rect.top;
        Ok((width, height))
    }
}

/// What the window does about a message besides keeping or stopping its
/// loop: post the quit message, set the cursor, repaint from the back
/// buffer, leave the message to the default handling, or nothing more.
#[derive(Clone, Copy, PartialEq, Eq, Structural)]
pub enum WindowAction {
    PostQuit,
    SetCursor,
    Paint,
    DefaultHandling,
    Nothing,
}

/// Whether a message is a key message; those are read from the message
/// queue, never handed to the window.
pub open spec fn is_key_message(message: u32) -> bool {
    message == WM_SYSKEYDOWN || message == WM_SYSKEYUP || message == WM_KEYDOWN || message
        == WM_KEYUP
}

/// Decides what the window does with a message it is handed: destroying it
/// stops the loop and posts the quit message, closing it stops the loop,
/// the cursor and paint messages are served, and the rest go to the
/// default handling. Returns whether the loop keeps running and the action.
pub fn process_window_message(running: bool, message: u32) -> (r: (bool, WindowAction))
    requires
        !is_key_message(message),
    ensures
        r.0 == if message == WM_DESTROY || message == WM_CLOSE {
            false
        } else {
            running
        },
        r.1 == if message == WM_DESTROY {
            WindowAction::PostQuit
        } else if message == WM_CLOSE {
            WindowAction::Nothing
        } else if message == WM_SETCURSOR {
            WindowAction::SetCursor
        } else if message == WM_PAINT {
            WindowAction::Paint
        } else {
            WindowAction::DefaultHandling
        },
{
    if message == WM_DESTROY {
        (false, WindowAction::PostQuit)
    } else if message == WM_CLOSE {
        (false, WindowAction::Nothing)
    } else if message == WM_SETCURSOR {
        (running, WindowAction::SetCursor)
    } else if message == WM_PAINT {
        (running, WindowAction::Paint)
    } else {
        (running, WindowAction::DefaultHandling)
    }
}

/// The state of input recording and playback.
#[derive(Clone, Copy, PartialEq, Eq, Structural)]
pub enum ReplayState {
    Recording,
    Replaying,
    Nothing,
}

/// The state that the replay key moves to: recording turns into playback,
/// playback stops, and otherwise recording starts.
pub open spec fn next_replay_state_spec(state: ReplayState) -> ReplayState {
    match state {
        ReplayState::Recording => ReplayState::Replaying,
        ReplayState::Replaying => ReplayState::Nothing,
        ReplayState::Nothing => ReplayState::Recording,
    }
}

/// Steps the replay state as the replay key does.
pub fn next_replay_state(state: ReplayState) -> (r: ReplayState)
    ensures
        r == next_replay_state_spec(state),
{
    match state {
        ReplayState::Recording => ReplayState::Replaying,
        ReplayState::Replaying => ReplayState::Nothing,
        ReplayState::Nothing => ReplayState::Recording,
    }
}

/// Pressing the replay key three times comes back to where it started.
pub proof fn lemma_replay_cycle(state: ReplayState)
    ensures
        next_replay_state_spec(next_replay_state_spec(next_replay_state_spec(state))) == state,
{
}

/// What the window must do after a key message.
#[derive(Clone, Copy, PartialEq, Eq, Structural)]
pub enum KeyCommand {
    NoCommand,
    Quit,
    TogglePause,
    ToggleFullscreen,
    StepReplay,
}

/// Whether the key was down before the message (bit 30 of its parameter).
pub open spec fn key_was_down(lparam: i64) -> bool {
    lparam & (1i64 << 30) != 0
}

/// Whether the key is down after the message (bit 31 of its parameter clear).
pub open spec fn key_is_down(lparam: i64) -> bool {
    lparam & (1i64 << 31) == 0
}

/// Whether Alt was held (bit 29 of the parameter).
pub open spec fn key_alt_down(lparam: i64) -> bool {
    lparam & (1i64 << 29) != 0
}

/// The keyboard controller button (in declaration order) that a virtual key
/// drives, or -1 for one that drives none.
pub open spec fn vk_button(vk: u8) -> int {
    if vk == 0x57u8 {
        0
    } else if vk == 0x53u8 {
        1
    } else if vk == 0x41u8 {
        2
    } else if vk == 0x44u8 {
        3
    } else if vk == VK_UP {
        4
    } else if vk == VK_DOWN {
        5
    } else if vk == VK_LEFT {
        6
    } else if vk == VK_RIGHT {
        7
    } else if vk == 0x51u8 {
        8
    } else if vk == 0x45u8 {
        9
    } else if vk == VK_SPACE {
        10
    } else if vk == VK_ESCAPE {
        11
    } else {
        -1
    }
}

/// The keyboard's virtual-key table: W (0x57), S (0x53), A (0x41) and D
/// (0x44) drive the movement buttons up, down, left and right; the arrow
/// keys drive the action buttons of their direction; Q (0x51) and E (0x45)
/// the left and right shoulders; space drives start and escape back. A key
/// message changes that one button and nothing else; P (0x50), L (0x4C),
/// F4 and return drive no button.
pub proof fn lemma_vk_table(kb: ControllerInput, b: Button)
    ensures
        set_button(kb, vk_button(0x57u8), b) == (ControllerInput { move_up: b, ..kb }),
        set_button(kb, vk_button(0x53u8), b) == (ControllerInput { move_down: b, ..kb }),
        set_button(kb, vk_button(0x41u8), b) == (ControllerInput { move_left: b, ..kb }),
        set_button(kb, vk_button(0x44u8), b) == (ControllerInput { move_right: b, ..kb }),
        set_button(kb, vk_button(VK_UP), b) == (ControllerInput { action_up: b, ..kb }),
        set_button(kb, vk_button(VK_DOWN), b) == (ControllerInput { action_down: b, ..kb }),
        set_button(kb, vk_button(VK_LEFT), b) == (ControllerInput { action_left: b, ..kb }),
        set_button(kb, vk_button(VK_RIGHT), b) == (ControllerInput { action_right: b, ..kb }),
        set_button(kb, vk_button(0x51u8), b) == (ControllerInput { left_shoulder: b, ..kb }),
        set_button(kb, vk_button(0x45u8), b) == (ControllerInput { right_shoulder: b, ..kb }),
        set_button(kb, vk_button(VK_SPACE), b) == (ControllerInput { start: b, ..kb }),
        set_button(kb, vk_button(VK_ESCAPE), b) == (ControllerInput { back: b, ..kb }),
        !(0 <= vk_button(0x50u8) < 12),
        !(0 <= vk_button(0x4Cu8) < 12),
        !(0 <= vk_button(VK_F4) < 12),
        !(0 <= vk_button(VK_RETURN) < 12),
{
}

/// The command a changing key asks for.
pub open spec fn vk_command(vk: u8, is_down: bool, alt: bool) -> KeyCommand {
    if vk == 0x50u8 && is_down {
        KeyCommand::TogglePause
    } else if vk == VK_F4 && alt {
        KeyCommand::Quit
    } else if vk == VK_RETURN && alt && is_down {
        KeyCommand::ToggleFullscreen
    } else if vk == 0x4Cu8 && is_down {
        KeyCommand::StepReplay
    } else {
        KeyCommand::NoCommand
    }
}

/// What a key message asks of the keyboard: a changing key that drives a
/// button must leave room to count its transition.
pub open spec fn key_message_fits(wparam: u64, lparam: i64, keyboard: ControllerInput) -> bool {
    let i = vk_button(wparam as u8);
    (key_was_down(lparam) != key_is_down(lparam) && 0 <= i < 12 && key_is_down(lparam)
        != controller_buttons(keyboard)[i].ended_down) ==> controller_buttons(
        keyboard,
    )[i].half_transitions < 255
}

/// Sends a virtual key to the keyboard button it drives.
fn press_virtual_key(keyboard: &mut ControllerInput, vk: u8, is_down: bool)
    requires
        0 <= vk_button(vk) < 12 && is_down != controller_buttons(*old(keyboard))[vk_button(
            vk,
        )].ended_down ==> controller_buttons(*old(keyboard))[vk_button(vk)].half_transitions
            < 255,
    ensures
        *final(keyboard) == if 0 <= vk_button(vk) < 12 && is_down != controller_buttons(
            *old(keyboard),
        )[vk_button(vk)].ended_down {
            set_button(
                *old(keyboard),
                vk_button(vk),
                Button {
                    ended_down: is_down,
                    half_transitions: (controller_buttons(*old(keyboard))[vk_button(
                        vk,
                    )].half_transitions + 1) as u8,
                },
            )
        } else {
            *old(keyboard)
        },
{
    if vk == VK_UP {
        process_keyboard_message(&mut keyboard.action_up, is_down);
    } else if vk == VK_DOWN {
        process_keyboard_message(&mut keyboard.action_down, is_down);
    } else if vk == VK_LEFT {
        process_keyboard_message(&mut keyboard.action_left, is_down);
    } else if vk == VK_RIGHT {
        process_keyboard_message(&mut keyboard.action_right, is_down);
    } else if vk == 0x57u8 {
        process_keyboard_message(&mut keyboard.move_up, is_down);
    } else if vk == 0x41u8 {
        process_keyboard_message(&mut keyboard.move_left, is_down);
    } else if vk == 0x53u8 {
        process_keyboard_message(&mut keyboard.move_down, is_down);
    } else if vk == 0x44u8 {
        process_keyboard_message(&mut keyboard.move_right, is_down);
    } else if vk == 0x45u8 {
        process_keyboard_message(&mut keyboard.right_shoulder, is_down);
    } else if vk == 0x51u8 {
        process_keyboard_message(&mut keyboard.left_shoulder, is_down);
    } else if vk == VK_ESCAPE {
        process_keyboard_message(&mut keyboard.back, is_down);
    } else if vk == VK_SPACE {
        process_keyboard_message(&mut keyboard.start, is_down);
    }
}

/// The command a key message asks of the window: none unless the key
/// changed state.
pub open spec fn key_message_command(wparam: u64, lparam: i64) -> KeyCommand {
    if key_was_down(lparam) != key_is_down(lparam) {
        vk_command(wparam as u8, key_is_down(lparam), key_alt_down(lparam))
    } else {
        KeyCommand::NoCommand
    }
}

/// The keyboard after a key message: a key that changed state and drives a
/// button that is not already in that state moves the button.
pub open spec fn keyboard_after_key_message(keyboard: ControllerInput, wparam: u64, lparam: i64) -> ControllerInput {
    let vk = wparam as u8;
    let is_down = key_is_down(lparam);
    let i = vk_button(vk);
    if key_was_down(lparam) != is_down && 0 <= i < 12 && is_down != controller_buttons(keyboard)[i].ended_down {
        set_button(
            keyboard,
            i,
            Button {
                ended_down: is_down,
                half_transitions: (controller_buttons(keyboard)[i].half_transitions + 1) as u8,
            },
        )
    } else {
        keyboard
    }
}

/// Handles a key message (key or system key, down or up): a key whose state
/// changed drives its keyboard button, or asks the window for a command.
pub fn process_key_message(wparam: u64, lparam: i64, keyboard: &mut ControllerInput) -> (r:
    KeyCommand)
    requires
        key_message_fits(wparam, lparam, *old(keyboard)),
    ensures
        r == key_message_command(wparam, lparam),
        *final(keyboard) == keyboard_after_key_message(*old(keyboard), wparam, lparam),
{
    let vk_code = wparam as u8;
    let was_down = (lparam & (1i64 << 30)) != 0;
    let is_down = (lparam & (1i64 << 31)) == 0;
    let alt_key_down = (lparam & (1i64 << 29)) != 0;
    if was_down == is_down {
        return KeyCommand::NoCommand;
    }
    press_virtual_key(keyboard, vk_code, is_down);
    if vk_code == 0x50u8 && is_down {
        KeyCommand::TogglePause
    } else if vk_code == VK_F4 && alt_key_down {
        KeyCommand::Quit
    } else if vk_code == VK_RETURN && alt_key_down && is_down {
        KeyCommand::ToggleFullscreen
    } else if vk_code == 0x4Cu8 && is_down {
        KeyCommand::StepReplay
    } else {
        KeyCommand::NoCommand
    }
}

/// Whether a stick reading is pushed past half of its live range upwards
/// (or to the right): the normalized value beyond the dead zone exceeds 0.5.
pub open spec fn stick_high(v: i16) -> bool {
    v > XINPUT_GAMEPAD_LEFT_THUMB_DEADZONE && 2 * (v - XINPUT_GAMEPAD_LEFT_THUMB_DEADZONE)
        > 32767 - XINPUT_GAMEPAD_LEFT_THUMB_DEADZONE
}

/// Whether a stick reading is pushed past half of its live range downwards
/// (or to the left): the normalized value beyond the dead zone is below -0.5.
pub open spec fn stick_low(v: i16) -> bool {
    v < -XINPUT_GAMEPAD_LEFT_THUMB_DEADZONE && 2 * (-(v + XINPUT_GAMEPAD_LEFT_THUMB_DEADZONE))
        > 32768 - XINPUT_GAMEPAD_LEFT_THUMB_DEADZONE
}

/// Whether any direction of the gamepad's d-pad is held.
pub open spec fn dpad_used(w: u16) -> bool {
    w & XINPUT_GAMEPAD_DPAD_UP != 0 || w & XINPUT_GAMEPAD_DPAD_DOWN != 0 || w
        & XINPUT_GAMEPAD_DPAD_LEFT != 0 || w & XINPUT_GAMEPAD_DPAD_RIGHT != 0
}

/// The four movement directions a gamepad reading holds: the d-pad wins
/// over the stick on each axis it is pressed on.
pub open spec fn gamepad_moves(g: XINPUT_GAMEPAD) -> (bool, bool, bool, bool) {
    let w = g.wButtons;
    let up = w & XINPUT_GAMEPAD_DPAD_UP != 0;
    let down = w & XINPUT_GAMEPAD_DPAD_DOWN != 0;
    let left = w & XINPUT_GAMEPAD_DPAD_LEFT != 0;
    let right = w & XINPUT_GAMEPAD_DPAD_RIGHT != 0;
    (
        up || (!down && stick_high(g.sThumbLY)),
        !up && (down || stick_low(g.sThumbLY)),
        left || (!right && stick_low(g.sThumbLX)),
        !left && (right || stick_high(g.sThumbLX)),
    )
}

/// A button read against the previous frame: its new state, and one
/// transition when that differs from the old one.
pub open spec fn read_button(old_button: Button, down: bool) -> Button {
    Button { ended_down: down, half_transitions: if old_button.ended_down != down { 1u8 } else { 0u8 } }
}

/// The controller record that a successful gamepad reading gives.
pub open spec fn controller_from_gamepad(
    g: XINPUT_GAMEPAD,
    old_c: ControllerInput,
    new_c: ControllerInput,
) -> ControllerInput {
    let w = g.wButtons;
    let (up, down, left, right) = gamepad_moves(g);
    ControllerInput {
        is_connected: true,
        average_x_present: !dpad_used(w),
        average_y_present: !dpad_used(w),
        move_up: read_button(old_c.move_up, up),
        move_down: read_button(old_c.move_down, down),
        move_left: read_button(old_c.move_left, left),
        move_right: read_button(old_c.move_right, right),
        action_up: read_button(old_c.action_up, w & XINPUT_GAMEPAD_Y == XINPUT_GAMEPAD_Y),
        action_down: read_button(old_c.action_down, w & XINPUT_GAMEPAD_A == XINPUT_GAMEPAD_A),
        action_left: read_button(old_c.action_left, w & XINPUT_GAMEPAD_X == XINPUT_GAMEPAD_X),
        action_right: read_button(old_c.action_right, w & XINPUT_GAMEPAD_B == XINPUT_GAMEPAD_B),
        left_shoulder: read_button(
            old_c.left_shoulder,
            w & XINPUT_GAMEPAD_LEFT_SHOULDER == XINPUT_GAMEPAD_LEFT_SHOULDER,
        ),
        right_shoulder: read_button(
            old_c.right_shoulder,
            w & XINPUT_GAMEPAD_RIGHT_SHOULDER == XINPUT_GAMEPAD_RIGHT_SHOULDER,
        ),
        start: read_button(old_c.start, w & XINPUT_GAMEPAD_START == XINPUT_GAMEPAD_START),
        back: read_button(old_c.back, w & XINPUT_GAMEPAD_BACK == XINPUT_GAMEPAD_BACK),
    }
}

/// Whether a stick value is past half of its live range upwards.
fn stick_is_high(v: i16) -> (r: bool)
    ensures
        r == stick_high(v),
{
    v > XINPUT_GAMEPAD_LEFT_THUMB_DEADZONE && 2 * (v as i32 - XINPUT_GAMEPAD_LEFT_THUMB_DEADZONE
        as i32) > 32767 - XINPUT_GAMEPAD_LEFT_THUMB_DEADZONE as i32
}

/// Whether a stick value is past half of its live range downwards.
fn stick_is_low(v: i16) -> (r: bool)
    ensures
        r == stick_low(v),
{
    v < -XINPUT_GAMEPAD_LEFT_THUMB_DEADZONE && 2 * (-(v as i32
        + XINPUT_GAMEPAD_LEFT_THUMB_DEADZONE as i32)) > 32768
        - XINPUT_GAMEPAD_LEFT_THUMB_DEADZONE as i32
}

/// The four movement directions of a gamepad reading.
fn movement_of_gamepad(gamepad: &XINPUT_GAMEPAD) -> (r: (bool, bool, bool, bool))
    ensures
        r == gamepad_moves(*gamepad),
{
    let w = gamepad.wButtons;
    let dpad_up = (w & XINPUT_GAMEPAD_DPAD_UP) != 0;
    let dpad_down = (w & XINPUT_GAMEPAD_DPAD_DOWN) != 0;
    let dpad_left = (w & XINPUT_GAMEPAD_DPAD_LEFT) != 0;
    let dpad_right = (w & XINPUT_GAMEPAD_DPAD_RIGHT) != 0;
    let high_y = stick_is_high(gamepad.sThumbLY);
    let low_y = stick_is_low(gamepad.sThumbLY);
    let high_x = stick_is_high(gamepad.sThumbLX);
    let low_x = stick_is_low(gamepad.sThumbLX);
    (
        dpad_up || (!dpad_down && high_y),
        !dpad_up && (dpad_down || low_y),
        dpad_left || (!dpad_right && low_x),
        !dpad_left && (dpad_right || high_x),
    )
}

/// Updates one controller from the result of polling its gamepad: a
/// successful reading sets every button (movement from the d-pad, or from
/// the stick when the d-pad is idle), a missing device marks the controller
/// disconnected, and any other result leaves it as it was. Whether the stick
/// averages are present follows the d-pad; their values are computed by the
/// platform layer.
#[verifier::rlimit(40)]
pub fn process_xinput_controller(
    result: u32,
    gamepad: &XINPUT_GAMEPAD,
    old_controller: &ControllerInput,
    controller: &mut ControllerInput,
)
    ensures
        *final(controller) == if result == ERROR_SUCCESS {
            controller_from_gamepad(*gamepad, *old_controller, *old(controller))
        } else if result == ERROR_DEVICE_NOT_CONNECTED {
            ControllerInput { is_connected: false, ..*old(controller) }
        } else {
            *old(controller)
        },
{
    if result == ERROR_SUCCESS {
        controller.is_connected = true;
        let w = gamepad.wButtons;
        let dpad_up = (w & XINPUT_GAMEPAD_DPAD_UP) != 0;
        let dpad_down = (w & XINPUT_GAMEPAD_DPAD_DOWN) != 0;
        let dpad_left = (w & XINPUT_GAMEPAD_DPAD_LEFT) != 0;
        let dpad_right = (w & XINPUT_GAMEPAD_DPAD_RIGHT) != 0;
        let analog = !(dpad_up || dpad_down || dpad_left || dpad_right);
        controller.average_x_present = analog;
        controller.average_y_present = analog;
        let (up, down, left, right) = movement_of_gamepad(gamepad);
        let up_fake: u16 = if up { 1 } else { 0 };
        let down_fake: u16 = if down { 1 } else { 0 };
        let left_fake: u16 = if left { 1 } else { 0 };
        let right_fake: u16 = if right { 1 } else { 0 };
        assert(1u16 & 1u16 == 1u16 && 0u16 & 1u16 == 0u16) by (bit_vector);
        process_xinput_button(up_fake, &old_controller.move_up, &mut controller.move_up, 1);
        process_xinput_button(down_fake, &old_controller.move_down, &mut controller.move_down, 1);
        process_xinput_button(left_fake, &old_controller.move_left, &mut controller.move_left, 1);
        process_xinput_button(
            right_fake,
            &old_controller.move_right,
            &mut controller.move_right,
            1,
        );
        process_xinput_button(
            w,
            &old_controller.left_shoulder,
            &mut controller.left_shoulder,
            XINPUT_GAMEPAD_LEFT_SHOULDER,
        );
        process_xinput_button(
            w,
            &old_controller.right_shoulder,
            &mut controller.right_shoulder,
            XINPUT_GAMEPAD_RIGHT_SHOULDER,
        );
        process_xinput_button(
            w,
            &old_controller.action_up,
            &mut controller.action_up,
            XINPUT_GAMEPAD_Y,
        );
        process_xinput_button(
            w,
            &old_controller.action_down,
            &mut controller.action_down,
            XINPUT_GAMEPAD_A,
        );
        process_xinput_button(
            w,
            &old_controller.action_left,
            &mut controller.action_left,
            XINPUT_GAMEPAD_X,
        );
        process_xinput_button(
            w,
            &old_controller.action_right,
            &mut controller.action_right,
            XINPUT_GAMEPAD_B,
        );
        process_xinput_button(w, &old_controller.start, &mut controller.start, XINPUT_GAMEPAD_START);
        process_xinput_button(w, &old_controller.back, &mut controller.back, XINPUT_GAMEPAD_BACK);
    } else if result == ERROR_DEVICE_NOT_CONNECTED {
        controller.is_connected = false;
    }
}

/// What the window's message loop keeps between messages: whether it runs,
/// whether the game is paused, and the replay state.
#[derive(Clone, Copy, PartialEq, Eq, Structural)]
pub struct MessageLoopState {
    pub running: bool,
    pub pause: bool,
    pub replay: ReplayState,
}

/// What the message loop does besides updating its state: nothing, toggle
/// full screen, enter the given replay state (closing or opening the input
/// file and copying the game memory), or hand the message on to the window.
#[derive(Clone, Copy, PartialEq, Eq, Structural)]
pub enum MessageAction {
    Nothing,
    ToggleFullscreen,
    EnterReplay(ReplayState),
    Dispatch,
}

/// The loop's state and action after a key command.
pub open spec fn after_key_command(state: MessageLoopState, command: KeyCommand) -> (
    MessageLoopState,
    MessageAction,
) {
    match command {
        KeyCommand::NoCommand => (state, MessageAction::Nothing),
        KeyCommand::Quit => (MessageLoopState { running: false, ..state }, MessageAction::Nothing),
        KeyCommand::TogglePause => (
            MessageLoopState { pause: !state.pause, ..state },
            MessageAction::Nothing,
        ),
        KeyCommand::ToggleFullscreen => (state, MessageAction::ToggleFullscreen),
        KeyCommand::StepReplay => (
            MessageLoopState { replay: next_replay_state_spec(state.replay), ..state },
            MessageAction::EnterReplay(next_replay_state_spec(state.replay)),
        ),
    }
}

/// One message taken from the queue: the quit message stops the loop, a
/// key message drives the keyboard and may ask for a command, and any other
/// message is handed on to the window.
pub fn process_pending_message(
    state: MessageLoopState,
    message: u32,
    wparam: u64,
    lparam: i64,
    keyboard: &mut ControllerInput,
) -> (r: (MessageLoopState, MessageAction))
    requires
        is_key_message(message) ==> key_message_fits(wparam, lparam, *old(keyboard)),
    ensures
        r == if message == WM_QUIT {
            (MessageLoopState { running: false, ..state }, MessageAction::Nothing)
        } else if is_key_message(message) {
            after_key_command(state, key_message_command(wparam, lparam))
        } else {
            (state, MessageAction::Dispatch)
        },
        *final(keyboard) == if is_key_message(message) && message != WM_QUIT {
            keyboard_after_key_message(*old(keyboard), wparam, lparam)
        } else {
            *old(keyboard)
        },
{
    if message == WM_QUIT {
        return (MessageLoopState { running: false, ..state }, MessageAction::Nothing);
    }
    if !(message == WM_SYSKEYDOWN || message == WM_SYSKEYUP || message == WM_KEYDOWN || message
        == WM_KEYUP) {
        return (state, MessageAction::Dispatch);
    }
    match process_key_message(wparam, lparam, keyboard) {
        KeyCommand::NoCommand => (state, MessageAction::Nothing),
        KeyCommand::Quit => (MessageLoopState { running: false, ..state }, MessageAction::Nothing),
        KeyCommand::TogglePause => (
            MessageLoopState { pause: !state.pause, ..state },
            MessageAction::Nothing,
        ),
        KeyCommand::ToggleFullscreen => (state, MessageAction::ToggleFullscreen),
        KeyCommand::StepReplay => {
            let next = next_replay_state(state.replay);
            (MessageLoopState { replay: next, ..state }, MessageAction::EnterReplay(next))
        },
    }
}

/// Sound channels the game plays.
pub const CHANNELS: u16 = 2;

/// Bits of one channel's sample.
pub const BITS_PER_CHANNEL: u16 = 16;

/// The format of the sound buffer: PCM, two channels of 16 bits, at the
/// given rate; a sample frame takes the bytes of all its channels.
pub fn pcm_wave_format(samples_per_second: u32) -> (r: WAVEFORMATEX)
    requires
        samples_per_second * 4 <= u32::MAX,
    ensures
        r == (WAVEFORMATEX {
            wFormatTag: WAVE_FORMAT_PCM,
            nChannels: CHANNELS,
            nSamplesPerSec: samples_per_second,
            nAvgBytesPerSec: (samples_per_second * 4) as u32,
            nBlockAlign: 4,
            wBitsPerSample: BITS_PER_CHANNEL,
            cbSize: 0,
        }),
{
    let block_align: u16 = (CHANNELS * BITS_PER_CHANNEL) / 8;
    WAVEFORMATEX {
        wFormatTag: WAVE_FORMAT_PCM,
        nChannels: CHANNELS,
        nSamplesPerSec: samples_per_second,
        nAvgBytesPerSec: samples_per_second * (block_align as u32),
        nBlockAlign: block_align,
        wBitsPerSample: BITS_PER_CHANNEL,
        cbSize: 0,
    }
}

} // verus!
