use handmade::win32::{pcm_wave_format, process_pending_message, MessageAction, MessageLoopState};
use handmade::ffi::direct_sound::WAVE_FORMAT_PCM;
use handmade::ffi::WM_QUIT;
use handmade::win32::{process_window_message, WindowAction};
use handmade::ffi::{WM_CLOSE, WM_DESTROY, WM_PAINT, WM_SETCURSOR, WM_SIZE};
use handmade::win32::process_mouse_input;
use handmade::win32::get_client_dimensions;
use handmade::linux::open_controllers;
use handmade::linux::get_window_refresh_rate;
use handmade::common::{Button, ControllerInput, Input};
use handmade::ffi::linux::timespec;
use handmade::ffi::sdl::{
    SDL_Event, SDLK_F4, SDLK_SPACE, SDLK_w, SDL_KEYDOWN, SDL_KEYUP, SDL_PRESSED, SDL_QUIT,
    SDL_WINDOWEVENT, SDL_WINDOWEVENT_EXPOSED,
};
use handmade::ffi::{
    XINPUT_GAMEPAD, XINPUT_STATE, ERROR_DEVICE_NOT_CONNECTED, ERROR_SUCCESS, RECT,
    XINPUT_GAMEPAD_A, XINPUT_GAMEPAD_DPAD_LEFT, XINPUT_GAMEPAD_DPAD_UP, XINPUT_GAMEPAD_START,
};
use handmade::linux::{
    compare_file_time, handle_event, process_game_controller_button, process_key_press, TimeComp,
};
use handmade::win32::{
    next_replay_state, process_key_message, process_keyboard_message, process_xinput_button,
    process_xinput_controller, KeyCommand, ReplayState, SoundTimeMarker,
};

fn button(down: bool, transitions: u8) -> Button {
    Button { ended_down: down, half_transitions: transitions }
}

#[test]
fn default_input_is_all_up() {
    let input = Input::default();
    assert_eq!(input.mouse_x, 0);
    assert!(input.mouse_l == Button::default());
    for c in input.controllers.iter() {
        assert!(!c.is_connected);
        assert!(!c.is_analog());
        assert!(c.start == button(false, 0));
    }
}

#[test]
fn zero_half_transitions_keeps_state() {
    let mut c = ControllerInput::default();
    c.move_up = button(true, 3);
    c.back = button(false, 2);
    c.is_connected = true;
    c.zero_half_transitions();
    assert!(c.move_up == button(true, 0));
    assert!(c.back == button(false, 0));
    assert!(c.is_connected);
}

#[test]
fn analog_needs_both_axes() {
    let mut c = ControllerInput::default();
    c.average_x_present = true;
    assert!(!c.is_analog());
    c.average_y_present = true;
    assert!(c.is_analog());
}

#[test]
fn game_controller_button_counts_when_state_repeats() {
    let old = button(true, 0);
    let mut new = button(false, 0);
    process_game_controller_button(&old, &mut new, true);
    assert!(new == button(true, 1));
    let mut other = button(false, 5);
    process_game_controller_button(&old, &mut other, false);
    assert!(other == button(false, 5));
}

#[test]
fn key_press_counts_a_transition() {
    let mut b = button(false, 0);
    process_key_press(&mut b, true);
    assert!(b == button(true, 1));
    process_key_press(&mut b, false);
    assert!(b == button(false, 2));
}

fn key_event(event_type: u32, state: u8, repeat: u8, sym: i32, modifiers: u16) -> SDL_Event {
    let mut e = SDL_Event::default();
    e.data[0..4].copy_from_slice(&event_type.to_le_bytes());
    e.data[12] = state;
    e.data[13] = repeat;
    e.data[20..24].copy_from_slice(&sym.to_le_bytes());
    e.data[24..26].copy_from_slice(&modifiers.to_le_bytes());
    e
}

#[test]
fn sdl_event_decoding() {
    let e = key_event(SDL_KEYDOWN, SDL_PRESSED, 0, SDLK_F4, 0x0100);
    assert_eq!(e._type(), SDL_KEYDOWN);
    let k = e.keyboard_event();
    assert_eq!(k.keysym.sym, SDLK_F4);
    assert_eq!(k.keysym._mod, 0x0100);
    assert_eq!(k.state, SDL_PRESSED);
    let mut w = SDL_Event::default();
    w.data[0..4].copy_from_slice(&SDL_WINDOWEVENT.to_le_bytes());
    w.data[8..12].copy_from_slice(&7u32.to_le_bytes());
    w.data[12] = SDL_WINDOWEVENT_EXPOSED;
    w.data[16..20].copy_from_slice(&(-5i32).to_le_bytes());
    let we = w.window_event();
    assert_eq!(we.windowID, 7);
    assert_eq!(we.event, SDL_WINDOWEVENT_EXPOSED);
    assert_eq!(we.data1, -5);
}

#[test]
fn sdl_key_drives_keyboard_buttons() {
    let mut keyboard = ControllerInput::default();
    let down = key_event(SDL_KEYDOWN, SDL_PRESSED, 0, SDLK_w, 0);
    let out = handle_event(&down, &mut keyboard);
    assert!(out.keep_running);
    assert_eq!(out.redraw_window, None);
    assert!(keyboard.move_up == button(true, 1));
    // A repeated press changes nothing.
    let repeat = key_event(SDL_KEYDOWN, SDL_PRESSED, 1, SDLK_w, 0);
    handle_event(&repeat, &mut keyboard);
    assert!(keyboard.move_up == button(true, 1));
    let up = key_event(SDL_KEYUP, 0, 0, SDLK_w, 0);
    handle_event(&up, &mut keyboard);
    assert!(keyboard.move_up == button(false, 2));
    let space = key_event(SDL_KEYDOWN, SDL_PRESSED, 0, SDLK_SPACE, 0);
    handle_event(&space, &mut keyboard);
    assert!(keyboard.start == button(true, 1));
}

#[test]
fn sdl_quit_and_alt_f4_stop_the_loop() {
    let mut keyboard = ControllerInput::default();
    let mut quit = SDL_Event::default();
    quit.data[0..4].copy_from_slice(&SDL_QUIT.to_le_bytes());
    assert!(!handle_event(&quit, &mut keyboard).keep_running);
    let f4 = key_event(SDL_KEYDOWN, SDL_PRESSED, 0, SDLK_F4, 0);
    assert!(handle_event(&f4, &mut keyboard).keep_running);
    let alt_f4 = key_event(SDL_KEYDOWN, SDL_PRESSED, 0, SDLK_F4, 0x0100);
    assert!(!handle_event(&alt_f4, &mut keyboard).keep_running);
}

#[test]
fn sdl_exposed_window_is_redrawn() {
    let mut keyboard = ControllerInput::default();
    let mut w = SDL_Event::default();
    w.data[0..4].copy_from_slice(&SDL_WINDOWEVENT.to_le_bytes());
    w.data[8..12].copy_from_slice(&3u32.to_le_bytes());
    w.data[12] = SDL_WINDOWEVENT_EXPOSED;
    let out = handle_event(&w, &mut keyboard);
    assert!(out.keep_running);
    assert_eq!(out.redraw_window, Some(3));
}

#[test]
fn file_times_compare() {
    let a = timespec { tv_sec: 10, tv_nsec: 5 };
    let b = timespec { tv_sec: 10, tv_nsec: 7 };
    let c = timespec { tv_sec: 9, tv_nsec: 900 };
    assert!(compare_file_time(&a, &a) == TimeComp::Same);
    assert!(compare_file_time(&b, &a) == TimeComp::Earlier);
    assert!(compare_file_time(&a, &b) == TimeComp::Later);
    assert!(compare_file_time(&a, &c) == TimeComp::Earlier);
    assert!(compare_file_time(&c, &a) == TimeComp::Later);
}

#[test]
fn xinput_button_reads_bits() {
    let old = button(false, 0);
    let mut new = button(false, 9);
    process_xinput_button(XINPUT_GAMEPAD_A | XINPUT_GAMEPAD_START, &old, &mut new, XINPUT_GAMEPAD_A);
    assert!(new == button(true, 1));
    let old_down = button(true, 0);
    process_xinput_button(XINPUT_GAMEPAD_A, &old_down, &mut new, XINPUT_GAMEPAD_A);
    assert!(new == button(true, 0));
    process_xinput_button(0, &old_down, &mut new, XINPUT_GAMEPAD_A);
    assert!(new == button(false, 1));
}

#[test]
fn keyboard_message_counts_only_changes() {
    let mut b = button(false, 0);
    process_keyboard_message(&mut b, false);
    assert!(b == button(false, 0));
    process_keyboard_message(&mut b, true);
    assert!(b == button(true, 1));
    process_keyboard_message(&mut b, true);
    assert!(b == button(true, 1));
}

fn lparam(was_down: bool, is_down: bool, alt: bool) -> i64 {
    let mut l: i64 = 0;
    if was_down {
        l |= 1 << 30;
    }
    if !is_down {
        l |= 1 << 31;
    }
    if alt {
        l |= 1 << 29;
    }
    l
}

#[test]
fn key_messages_drive_buttons_and_commands() {
    let mut keyboard = ControllerInput::default();
    let r = process_key_message(b'W' as u64, lparam(false, true, false), &mut keyboard);
    assert!(r == KeyCommand::NoCommand);
    assert!(keyboard.move_up == button(true, 1));
    // Auto-repeat: was down and is down, nothing changes.
    let r = process_key_message(b'W' as u64, lparam(true, true, false), &mut keyboard);
    assert!(r == KeyCommand::NoCommand);
    assert!(keyboard.move_up == button(true, 1));
    assert!(process_key_message(b'P' as u64, lparam(false, true, false), &mut keyboard) == KeyCommand::TogglePause);
    assert!(process_key_message(b'P' as u64, lparam(true, false, false), &mut keyboard) == KeyCommand::NoCommand);
    assert!(process_key_message(0x73, lparam(false, true, true), &mut keyboard) == KeyCommand::Quit);
    assert!(process_key_message(0x73, lparam(false, true, false), &mut keyboard) == KeyCommand::NoCommand);
    assert!(process_key_message(0x0D, lparam(false, true, true), &mut keyboard) == KeyCommand::ToggleFullscreen);
    assert!(process_key_message(b'L' as u64, lparam(false, true, false), &mut keyboard) == KeyCommand::StepReplay);
    let r = process_key_message(0x1B, lparam(false, true, false), &mut keyboard);
    assert!(r == KeyCommand::NoCommand);
    assert!(keyboard.back == button(true, 1));
}

#[test]
fn replay_key_cycles_three_states() {
    assert!(next_replay_state(ReplayState::Nothing) == ReplayState::Recording);
    assert!(next_replay_state(ReplayState::Recording) == ReplayState::Replaying);
    assert!(next_replay_state(ReplayState::Replaying) == ReplayState::Nothing);
    let mut s = ReplayState::Recording;
    for _ in 0..3 {
        s = next_replay_state(s);
    }
    assert!(s == ReplayState::Recording);
}

#[test]
fn xinput_controller_from_dpad_and_stick() {
    let old = ControllerInput::default();
    let mut pad = XINPUT_GAMEPAD::default();
    pad.wButtons = XINPUT_GAMEPAD_DPAD_UP | XINPUT_GAMEPAD_DPAD_LEFT | XINPUT_GAMEPAD_A;
    let mut c = ControllerInput::default();
    process_xinput_controller(ERROR_SUCCESS, &pad, &old, &mut c);
    assert!(c.is_connected);
    assert!(!c.is_analog());
    assert!(c.move_up == button(true, 1));
    assert!(c.move_left == button(true, 1));
    assert!(c.move_down == button(false, 0));
    assert!(c.action_down == button(true, 1));

    // With the d-pad idle the stick decides, past half of its live range.
    let mut stick = XINPUT_GAMEPAD::default();
    stick.sThumbLY = 20309;
    stick.sThumbLX = -20309;
    let mut c2 = ControllerInput::default();
    process_xinput_controller(ERROR_SUCCESS, &stick, &old, &mut c2);
    assert!(c2.is_analog());
    assert!(c2.move_up.ended_down);
    assert!(c2.move_left.ended_down);
    stick.sThumbLY = 20308;
    stick.sThumbLX = -20308;
    let mut c3 = ControllerInput::default();
    process_xinput_controller(ERROR_SUCCESS, &stick, &old, &mut c3);
    assert!(!c3.move_up.ended_down);
    assert!(!c3.move_left.ended_down);
}

#[test]
fn xinput_controller_disconnect_and_error() {
    let old = ControllerInput::default();
    let pad = XINPUT_GAMEPAD::default();
    let mut c = ControllerInput::default();
    c.is_connected = true;
    c.move_up = button(true, 1);
    process_xinput_controller(ERROR_DEVICE_NOT_CONNECTED, &pad, &old, &mut c);
    assert!(!c.is_connected);
    assert!(c.move_up == button(true, 1));
    let mut d = ControllerInput::default();
    d.is_connected = true;
    process_xinput_controller(5, &pad, &old, &mut d);
    assert!(d.is_connected);
}

#[test]
fn ffi_defaults_are_zero() {
    let s = XINPUT_STATE::default();
    assert_eq!(s.dwPacketNumber, 0);
    assert!(s.Gamepad == XINPUT_GAMEPAD::default());
    assert_eq!(s.Gamepad.wButtons, 0);
    assert!(RECT::default() == RECT { left: 0, top: 0, right: 0, bottom: 0 });
    let m = SoundTimeMarker::default();
    assert_eq!(m.expected_frame_byte, 0);
    assert_eq!(m.flip_play_cursor, 0);
    let e = SDL_Event::default();
    assert!(e.data.iter().all(|&b| b == 0));
}

#[test]
fn mouse_input_reads_high_bits() {
    let mut input = Input::default();
    input.mouse_r = button(true, 0);
    process_mouse_input(&mut input, 13, -4, [-32768, 0, 1, -1, 0x7fff]);
    assert_eq!((input.mouse_x, input.mouse_y), (13, -4));
    assert!(input.mouse_l == button(true, 1));
    assert!(input.mouse_r == button(false, 1));
    assert!(input.mouse_m == button(false, 0));
    assert!(input.mouse_x1 == button(true, 1));
    assert!(input.mouse_x2 == button(false, 0));
}

#[test]
fn client_dimensions_from_rect() {
    let rect = RECT { left: 10, top: 20, right: 650, bottom: 500 };
    assert_eq!(get_client_dimensions(true, &rect), Ok((640, 480)));
    assert!(get_client_dimensions(false, &rect).is_err());
}

#[test]
fn controllers_opened_up_to_four() {
    assert_eq!(open_controllers(&[]), 0);
    assert_eq!(open_controllers(&[true, false, true]), 2);
    assert_eq!(open_controllers(&[true, true, false, true, true, true, true]), 4);
    assert_eq!(open_controllers(&[false, false]), 0);
}

#[test]
fn refresh_rate_defaults_to_sixty() {
    assert_eq!(get_window_refresh_rate(true, 144), 144);
    assert_eq!(get_window_refresh_rate(true, 0), 60);
    assert_eq!(get_window_refresh_rate(false, 75), 60);
}

#[test]
fn window_messages() {
    assert!(process_window_message(true, WM_DESTROY) == (false, WindowAction::PostQuit));
    assert!(process_window_message(true, WM_CLOSE) == (false, WindowAction::Nothing));
    assert!(process_window_message(true, WM_SETCURSOR) == (true, WindowAction::SetCursor));
    assert!(process_window_message(false, WM_PAINT) == (false, WindowAction::Paint));
    assert!(process_window_message(true, WM_SIZE) == (true, WindowAction::DefaultHandling));
}

#[test]
fn message_loop_steps() {
    let state = MessageLoopState { running: true, pause: false, replay: ReplayState::Nothing };
    let mut keyboard = ControllerInput::default();
    let (s1, a1) = process_pending_message(state, WM_QUIT, 0, 0, &mut keyboard);
    assert!(!s1.running && a1 == MessageAction::Nothing);
    // P pressed: pause toggles.
    let (s2, a2) = process_pending_message(state, 0x0100, 0x50, 0, &mut keyboard);
    assert!(s2.pause && a2 == MessageAction::Nothing);
    // L pressed: recording starts.
    let (s3, a3) = process_pending_message(state, 0x0100, 0x4C, 0, &mut keyboard);
    assert!(s3.replay == ReplayState::Recording);
    assert!(a3 == MessageAction::EnterReplay(ReplayState::Recording));
    // W pressed drives the keyboard; a paint message goes on to the window.
    let (s4, a4) = process_pending_message(state, 0x0100, 0x57, 0, &mut keyboard);
    assert!(s4 == state && a4 == MessageAction::Nothing);
    assert!(keyboard.move_up == button(true, 1));
    let (_, a5) = process_pending_message(state, WM_PAINT, 0, 0, &mut keyboard);
    assert!(a5 == MessageAction::Dispatch);
}

#[test]
fn sound_buffer_format() {
    let f = pcm_wave_format(48000);
    assert_eq!(f.wFormatTag, WAVE_FORMAT_PCM);
    assert_eq!((f.nChannels, f.wBitsPerSample, f.nBlockAlign), (2, 16, 4));
    assert_eq!(f.nAvgBytesPerSec, 192000);
    assert_eq!(f.cbSize, 0);
}
