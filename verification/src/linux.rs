use vstd::prelude::*;

use crate::common::{Button, ControllerInput, SoundBuffer, controller_buttons, set_button};
use crate::ffi::linux::timespec;
use crate::ffi::sdl::{
    keyboard_event_of, le_u32, window_event_of, SDL_Event, SDL_KeyboardEvent, KMOD_ALT,
    SDLK_DOWN, SDLK_ESCAPE, SDLK_F4, SDLK_LEFT, SDLK_RIGHT, SDLK_SPACE, SDLK_UP, SDLK_a, SDLK_d,
    SDLK_e, SDLK_q, SDLK_s, SDLK_w, SDL_KEYDOWN, SDL_KEYUP, SDL_PRESSED, SDL_QUIT,
    SDL_WINDOWEVENT, SDL_WINDOWEVENT_EXPOSED,
};

verus! {

/// How the first of two file times compares with the second. A later first
/// time reads `Earlier` and an earlier one `Later`.
#[derive(PartialEq, Eq, Structural)]
pub enum TimeComp {
    Earlier,
    Later,
    Same,
}

/// Records a controller button's new state. The transition count grows when
/// the new state equals the previous frame's.
pub fn process_game_controller_button(old_state: &Button, new_state: &mut Button, value: bool)
    requires
        value == old_state.ended_down ==> old(new_state).half_transitions < 255,
    ensures
        final(new_state).ended_down == value,
        final(new_state).half_transitions == if value == old_state.ended_down {
            old(new_state).half_transitions + 1
        } else {
            old(new_state).half_transitions as int
        },
{
    new_state.ended_down = value;
    if new_state.ended_down == old_state.ended_down {
        new_state.half_transitions += 1;
    }
}

/// Records a key press or release: the key must change state.
pub fn process_key_press(button: &mut Button, is_down: bool)
    requires
        old(button).ended_down != is_down,
        old(button).half_transitions < 255,
    ensures
        final(button).ended_down == is_down,
        final(button).half_transitions == old(button).half_transitions + 1,
{
    button.ended_down = is_down;
    button.half_transitions += 1;
}

/// The keyboard controller button (in declaration order) that an SDL key
/// code drives, or -1 for a key that drives none.
pub open spec fn sdl_key_button(code: i32) -> int {
    if code == SDLK_w {
        0
    } else if code == SDLK_s {
        1
    } else if code == SDLK_a {
        2
    } else if code == SDLK_d {
        3
    } else if code == SDLK_UP {
        4
    } else if code == SDLK_DOWN {
        5
    } else if code == SDLK_LEFT {
        6
    } else if code == SDLK_RIGHT {
        7
    } else if code == SDLK_q {
        8
    } else if code == SDLK_e {
        9
    } else if code == SDLK_SPACE {
        10
    } else if code == SDLK_ESCAPE {
        11
    } else {
        -1
    }
}

/// The keyboard's key table: W, S, A and D drive the movement buttons up,
/// down, left and right; the arrow keys drive the action buttons of their
/// direction; Q and E the left and right shoulders; space drives start and
/// escape back. A key press changes that one button and nothing else.
pub proof fn lemma_sdl_key_table(kb: ControllerInput, b: Button)
    ensures
        set_button(kb, sdl_key_button(SDLK_w), b) == (ControllerInput { move_up: b, ..kb }),
        set_button(kb, sdl_key_button(SDLK_s), b) == (ControllerInput { move_down: b, ..kb }),
        set_button(kb, sdl_key_button(SDLK_a), b) == (ControllerInput { move_left: b, ..kb }),
        set_button(kb, sdl_key_button(SDLK_d), b) == (ControllerInput { move_right: b, ..kb }),
        set_button(kb, sdl_key_button(SDLK_UP), b) == (ControllerInput { action_up: b, ..kb }),
        set_button(kb, sdl_key_button(SDLK_DOWN), b) == (ControllerInput { action_down: b, ..kb }),
        set_button(kb, sdl_key_button(SDLK_LEFT), b) == (ControllerInput { action_left: b, ..kb }),
        set_button(kb, sdl_key_button(SDLK_RIGHT), b) == (ControllerInput { action_right: b, ..kb }),
        set_button(kb, sdl_key_button(SDLK_q), b) == (ControllerInput { left_shoulder: b, ..kb }),
        set_button(kb, sdl_key_button(SDLK_e), b) == (ControllerInput { right_shoulder: b, ..kb }),
        set_button(kb, sdl_key_button(SDLK_SPACE), b) == (ControllerInput { start: b, ..kb }),
        set_button(kb, sdl_key_button(SDLK_ESCAPE), b) == (ControllerInput { back: b, ..kb }),
        !(0 <= sdl_key_button(SDLK_F4) < 12),
{
}

/// Whether an SDL event's type is a key press or release.
pub open spec fn is_key_event_type(t: u32) -> bool {
    t == SDL_KEYDOWN || t == SDL_KEYUP
}

/// Whether a keyboard event reports a change of the key's state: a press
/// that is not a repeat, or a release.
pub open spec fn key_changes(k: SDL_KeyboardEvent) -> bool {
    let is_down = k.state == SDL_PRESSED;
    let was_down = k.state != SDL_PRESSED || k.repeat != 0;
    was_down != is_down
}

/// What a key event asks of the keyboard: a changing key that drives a
/// button must find that button in the other state, with room to count.
pub open spec fn sdl_event_fits(data: Seq<u8>, keyboard: ControllerInput) -> bool {
    let k = keyboard_event_of(data);
    let i = sdl_key_button(k.keysym.sym);
    (is_key_event_type(le_u32(data, 0)) && key_changes(k) && 0 <= i < 12) ==> {
        &&& controller_buttons(keyboard)[i].ended_down != (k.state == SDL_PRESSED)
        &&& controller_buttons(keyboard)[i].half_transitions < 255
    }
}

/// What the platform loop does after one SDL event.
#[derive(PartialEq, Eq, Structural)]
pub struct EventOutcome {
    /// Whether the program keeps running.
    pub keep_running: bool,
    /// The window whose contents must be shown again, if any.
    pub redraw_window: Option<u32>,
}

/// Sends a key that changed state to the keyboard button it drives.
pub fn press_sdl_key(keyboard: &mut ControllerInput, code: i32, is_down: bool)
    requires
        0 <= sdl_key_button(code) < 12 ==> {
            &&& controller_buttons(*old(keyboard))[sdl_key_button(code)].ended_down != is_down
            &&& controller_buttons(*old(keyboard))[sdl_key_button(code)].half_transitions < 255
        },
    ensures
        *final(keyboard) == if 0 <= sdl_key_button(code) < 12 {
            set_button(
                *old(keyboard),
                sdl_key_button(code),
                Button {
                    ended_down: is_down,
                    half_transitions: (controller_buttons(*old(keyboard))[sdl_key_button(
                        code,
                    )].half_transitions + 1) as u8,
                },
            )
        } else {
            *old(keyboard)
        },
{
    if code == SDLK_w {
        process_key_press(&mut keyboard.move_up, is_down);
    } else if code == SDLK_a {
        process_key_press(&mut keyboard.move_left, is_down);
    } else if code == SDLK_s {
        process_key_press(&mut keyboard.move_down, is_down);
    } else if code == SDLK_d {
        process_key_press(&mut keyboard.move_right, is_down);
    } else if code == SDLK_q {
        process_key_press(&mut keyboard.left_shoulder, is_down);
    } else if code == SDLK_e {
        process_key_press(&mut keyboard.right_shoulder, is_down);
    } else if code == SDLK_UP {
        process_key_press(&mut keyboard.action_up, is_down);
    } else if code == SDLK_LEFT {
        process_key_press(&mut keyboard.action_left, is_down);
    } else if code == SDLK_RIGHT {
        process_key_press(&mut keyboard.action_right, is_down);
    } else if code == SDLK_DOWN {
        process_key_press(&mut keyboard.action_down, is_down);
    } else if code == SDLK_ESCAPE {
        process_key_press(&mut keyboard.back, is_down);
    } else if code == SDLK_SPACE {
        process_key_press(&mut keyboard.start, is_down);
    }
}

/// Handles one SDL event: a quit request, a window exposure, or a key that
/// drives the keyboard controller (Alt-F4 quits).
pub fn handle_event(event: &SDL_Event, keyboard: &mut ControllerInput) -> (r: EventOutcome)
    requires
        sdl_event_fits(event.data@, *old(keyboard)),
    ensures
        ({
            let t = le_u32(event.data@, 0);
            let k = keyboard_event_of(event.data@);
            let w = window_event_of(event.data@);
            let i = sdl_key_button(k.keysym.sym);
            let changes = is_key_event_type(t) && key_changes(k);
            &&& r.keep_running == !(t == SDL_QUIT || (changes && k.keysym.sym == SDLK_F4
                && k.keysym._mod & KMOD_ALT != 0))
            &&& r.redraw_window == if t == SDL_WINDOWEVENT && w.event == SDL_WINDOWEVENT_EXPOSED {
                Some(w.windowID)
            } else {
                None::<u32>
            }
            &&& *final(keyboard) == if changes && 0 <= i < 12 {
                set_button(
                    *old(keyboard),
                    i,
                    Button {
                        ended_down: k.state == SDL_PRESSED,
                        half_transitions: (controller_buttons(*old(keyboard))[i].half_transitions
                            + 1) as u8,
                    },
                )
            } else {
                *old(keyboard)
            }
        }),
{
    let mut keep_running = true;
    let mut redraw_window: Option<u32> = None;
    let event_type = event._type();

    if event_type == SDL_QUIT {
        keep_running = false;
    } else if event_type == SDL_WINDOWEVENT {
        let window_event = event.window_event();
        if window_event.event == SDL_WINDOWEVENT_EXPOSED {
            redraw_window = Some(window_event.windowID);
        }
    } else if event_type == SDL_KEYDOWN || event_type == SDL_KEYUP {
        let keyboard_event = event.keyboard_event();
        let code = keyboard_event.keysym.sym;
        let is_down = keyboard_event.state == SDL_PRESSED;
        let was_down = (keyboard_event.state != SDL_PRESSED) || (keyboard_event.repeat != 0);
        if was_down != is_down {
            let alt_key_down = (keyboard_event.keysym._mod & KMOD_ALT) != 0;
            if code == SDLK_F4 {
                if alt_key_down {
                    keep_running = false;
                }
            } else {
                press_sdl_key(keyboard, code, is_down);
            }
        }
    }
    EventOutcome { keep_running, redraw_window }
}

/// Sample frames per second of the sound output.
pub const SAMPLES_PER_SECOND: i32 = 48000;

/// Bytes of one sample frame: two channels of 16 bits.
pub const BYTES_PER_SAMPLE: i32 = 4;

/// The bytes that the audio device plays from, as a ring: the device reads
/// from `play_cursor` on, and both cursors wrap around at `size`.
pub struct SdlAudioRingBuffer {
    pub size: i32,
    pub write_cursor: i32,
    pub play_cursor: i32,
    pub data: Vec<u8>,
}

impl SdlAudioRingBuffer {
    /// The memory holds `size` bytes and both cursors point into it.
    pub open spec fn wf(&self) -> bool {
        &&& 0 < self.size
        &&& self.data@.len() == self.size
        &&& 0 <= self.play_cursor < self.size
        &&& 0 <= self.write_cursor < self.size
    }
}

/// Where the game stands in its sound output: how many sample frames it has
/// written so far, the size of the ring in bytes, and how many sample
/// frames ahead of the play position it writes.
pub struct SdlSoundOutput {
    pub running_sample_idx: i32,
    pub secondary_buffer_size: i32,
    pub latency_sample_count: i32,
}

/// The `length` bytes that a ring holding `data` gives out from `start` on,
/// wrapping around at its end.
pub open spec fn ring_read(data: Seq<u8>, start: int, length: int) -> Seq<u8> {
    Seq::new(length as nat, |i: int| data[(start + i) % (data.len() as int)])
}

/// Gives the ring `buffer_size` bytes of silence to play from.
pub fn init_audio_buffer(ring_buffer: &mut SdlAudioRingBuffer, buffer_size: i32)
    requires
        0 < buffer_size,
    ensures
        final(ring_buffer).size == buffer_size,
        final(ring_buffer).data@ == Seq::new(buffer_size as nat, |i: int| 0u8),
        final(ring_buffer).play_cursor == old(ring_buffer).play_cursor,
        final(ring_buffer).write_cursor == old(ring_buffer).write_cursor,
{
    let n: usize = buffer_size as usize;
    let mut data: Vec<u8> = Vec::new();
    while data.len() < n
        invariant
            n == buffer_size,
            data.len() <= n,
            forall|i: int| 0 <= i < data@.len() ==> data@[i] == 0u8,
        decreases n - data.len(),
    {
        data.push(0u8);
    }
    ring_buffer.size = buffer_size;
    ring_buffer.data = data;
    assert(ring_buffer.data@ =~= Seq::new(buffer_size as nat, |i: int| 0u8));
}

/// Hands the audio device the next `audio_data.len()` bytes of the ring,
/// from the play position on, wrapping around at the ring's end, and moves
/// both cursors on by as many bytes.
pub fn audio_callback(ring_buffer: &mut SdlAudioRingBuffer, audio_data: &mut [u8])
    requires
        old(ring_buffer).wf(),
        old(audio_data)@.len() <= 2 * old(ring_buffer).size - old(ring_buffer).play_cursor,
    ensures
        final(ring_buffer).wf(),
        final(audio_data)@ == ring_read(
            old(ring_buffer).data@,
            old(ring_buffer).play_cursor as int,
            old(audio_data)@.len() as int,
        ),
        final(ring_buffer).data@ == old(ring_buffer).data@,
        final(ring_buffer).size == old(ring_buffer).size,
        final(ring_buffer).play_cursor == (old(ring_buffer).play_cursor + old(audio_data)@.len())
            % (old(ring_buffer).size as int),
        final(ring_buffer).write_cursor == (old(ring_buffer).write_cursor
            + old(audio_data)@.len()) % (old(ring_buffer).size as int),
{
    let length: usize = audio_data.len();
    let size: usize = ring_buffer.size as usize;
    let play: usize = ring_buffer.play_cursor as usize;
    let region_size: usize = if length > size - play {
        size - play
    } else {
        length
    };
    let region2_size: usize = length - region_size;
    let ghost data = ring_buffer.data@;
    let mut i: usize = 0;
    while i < region_size
        invariant
            size == data.len(),
            0 <= play < size,
            region_size == if length > size - play { (size - play) as int } else { length as int },
            i <= region_size,
            audio_data@.len() == length,
            ring_buffer.data@ == data,
            forall|j: int| 0 <= j < i ==> audio_data@[j] == data[(play + j) % (size as int)],
        decreases region_size - i,
    {
        proof {
            vstd::arithmetic::div_mod::lemma_small_mod((play + i) as nat, size as nat);
        }
        audio_data[i] = ring_buffer.data[play + i];
        i += 1;
    }
    let mut k: usize = 0;
    while k < region2_size
        invariant
            size == data.len(),
            0 <= play < size,
            region_size == if length > size - play { (size - play) as int } else { length as int },
            region2_size == length - region_size,
            length <= 2 * size - play,
            k <= region2_size,
            audio_data@.len() == length,
            ring_buffer.data@ == data,
            forall|j: int|
                0 <= j < region_size + k ==> audio_data@[j] == data[(play + j) % (size as int)],
        decreases region2_size - k,
    {
        proof {
            vstd::arithmetic::div_mod::lemma_small_mod(k as nat, size as nat);
            vstd::arithmetic::div_mod::lemma_mod_add_multiples_vanish(k as int, size as int);
            assert(play + region_size + k == size + k);
        }
        audio_data[region_size + k] = ring_buffer.data[k];
        k += 1;
    }
    assert(audio_data@ =~= ring_read(data, play as int, length as int));
    let size64: i64 = ring_buffer.size as i64;
    ring_buffer.play_cursor = ((ring_buffer.play_cursor as i64 + length as i64) % size64) as i32;
    ring_buffer.write_cursor = ((ring_buffer.write_cursor as i64 + length as i64) % size64) as i32;
}

/// Byte `k` of a run of 16-bit samples laid out little-endian.
pub open spec fn sample_byte(samples: Seq<i16>, k: int) -> u8 {
    let s = samples[k / 2] as u16;
    if k % 2 == 0 {
        (s & 0xff) as u8
    } else {
        (s >> 8) as u8
    }
}

/// The bytes of the part of a sound write that goes in from `byte_to_lock`
/// up to the ring's end: whole sample frames only.
pub open spec fn fill_first_len(byte_to_lock: int, bytes_to_write: int, size: int) -> int {
    let region_size = if bytes_to_write > size - byte_to_lock {
        size - byte_to_lock
    } else {
        bytes_to_write
    };
    (region_size / 4) * 4
}

/// The bytes of the part of a sound write that wraps around to the ring's
/// start: whole sample frames only.
pub open spec fn fill_second_len(byte_to_lock: int, bytes_to_write: int, size: int) -> int {
    let region_size = if bytes_to_write > size - byte_to_lock {
        size - byte_to_lock
    } else {
        bytes_to_write
    };
    ((bytes_to_write - region_size) / 4) * 4
}

/// The ring's bytes after `first_len` bytes of samples went in at `at` and
/// the next `second_len` bytes at the start.
pub open spec fn ring_after_fill(
    data: Seq<u8>,
    at: int,
    first_len: int,
    second_len: int,
    samples: Seq<i16>,
) -> Seq<u8> {
    Seq::new(
        data.len(),
        |i: int|
            if i < second_len {
                sample_byte(samples, first_len + i)
            } else if at <= i < at + first_len {
                sample_byte(samples, i - at)
            } else {
                data[i]
            },
    )
}

/// Writes `sample_count` frames of samples, from sample `first` on, into
/// `data` at `at`, each sample as two bytes, low byte first.
fn copy_samples_to_ring(
    data: &mut Vec<u8>,
    at: usize,
    samples: &Vec<i16>,
    first: usize,
    sample_count: usize,
)
    requires
        at + 4 * sample_count <= old(data)@.len(),
        first + 2 * sample_count <= samples@.len(),
    ensures
        final(data)@.len() == old(data)@.len(),
        forall|i: int|
            0 <= i < old(data)@.len() ==> final(data)@[i] == if at <= i < at + 4 * sample_count {
                sample_byte(samples@, 2 * first + i - at)
            } else {
                old(data)@[i]
            },
{
    let ghost before = data@;
    let len: usize = data.len();
    let slen: usize = samples.len();
    let mut j: usize = 0;
    while j < 2 * sample_count
        invariant
            len == before.len(),
            slen == samples@.len(),
            at + 4 * sample_count <= before.len(),
            first + 2 * sample_count <= samples@.len(),
            j <= 2 * sample_count,
            data@.len() == before.len(),
            forall|i: int|
                0 <= i < before.len() ==> data@[i] == if at <= i < at + 2 * j {
                    sample_byte(samples@, 2 * first + i - at)
                } else {
                    before[i]
                },
        decreases 2 * sample_count - j,
    {
        let u: u16 = #[verifier::truncate] (samples[first + j] as u16);
        data.set(at + 2 * j, #[verifier::truncate] ((u & 0xff) as u8));
        data.set(at + 2 * j + 1, #[verifier::truncate] ((u >> 8) as u8));
        proof {
            assert((2 * first + 2 * j) / 2 == first + j);
            assert((2 * first + 2 * j) % 2 == 0);
            assert((2 * first + 2 * j + 1) / 2 == first + j);
            assert((2 * first + 2 * j + 1) % 2 == 1);
        }
        j += 1;
    }
}

/// Writes the game's samples into the ring: `bytes_to_write` bytes from
/// `byte_to_lock` on, wrapping around to the ring's start, whole sample
/// frames only, and counts the frames written.
pub fn fill_sound_buffer(
    output: &mut SdlSoundOutput,
    byte_to_lock: i32,
    bytes_to_write: i32,
    buffer: &SoundBuffer,
    ring_buffer: &mut SdlAudioRingBuffer,
)
    requires
        old(ring_buffer).wf(),
        old(ring_buffer).size == old(output).secondary_buffer_size,
        0 <= byte_to_lock < old(ring_buffer).size,
        0 <= bytes_to_write <= 2 * old(ring_buffer).size - byte_to_lock,
        fill_first_len(byte_to_lock as int, bytes_to_write as int, old(ring_buffer).size as int)
            + fill_second_len(byte_to_lock as int, bytes_to_write as int, old(ring_buffer).size as int)
            <= 2 * buffer.samples@.len(),
        old(output).running_sample_idx + (fill_first_len(
            byte_to_lock as int,
            bytes_to_write as int,
            old(ring_buffer).size as int,
        ) + fill_second_len(byte_to_lock as int, bytes_to_write as int, old(ring_buffer).size as int))
            / 4 <= i32::MAX,
    ensures
        final(ring_buffer).wf(),
        final(ring_buffer).size == old(ring_buffer).size,
        final(ring_buffer).play_cursor == old(ring_buffer).play_cursor,
        final(ring_buffer).write_cursor == old(ring_buffer).write_cursor,
        final(ring_buffer).data@ == ring_after_fill(
            old(ring_buffer).data@,
            byte_to_lock as int,
            fill_first_len(byte_to_lock as int, bytes_to_write as int, old(ring_buffer).size as int),
            fill_second_len(byte_to_lock as int, bytes_to_write as int, old(ring_buffer).size as int),
            buffer.samples@,
        ),
        final(output).secondary_buffer_size == old(output).secondary_buffer_size,
        final(output).latency_sample_count == old(output).latency_sample_count,
        final(output).running_sample_idx == old(output).running_sample_idx + (fill_first_len(
            byte_to_lock as int,
            bytes_to_write as int,
            old(ring_buffer).size as int,
        ) + fill_second_len(byte_to_lock as int, bytes_to_write as int, old(ring_buffer).size as int))
            / 4,
{
    let size: i32 = output.secondary_buffer_size;
    let region_size: i32 = if bytes_to_write > size - byte_to_lock {
        size - byte_to_lock
    } else {
        bytes_to_write
    };
    let region2_size: i32 = bytes_to_write - region_size;
    let region_sample_count: i32 = region_size / BYTES_PER_SAMPLE;
    let region2_sample_count: i32 = region2_size / BYTES_PER_SAMPLE;
    let ghost before = ring_buffer.data@;
    let ghost n1 = fill_first_len(byte_to_lock as int, bytes_to_write as int, size as int);
    let ghost n2 = fill_second_len(byte_to_lock as int, bytes_to_write as int, size as int);
    assert(n1 == 4 * region_sample_count);
    assert(n2 == 4 * region2_sample_count);
    copy_samples_to_ring(
        &mut ring_buffer.data,
        byte_to_lock as usize,
        &buffer.samples,
        0,
        region_sample_count as usize,
    );
    copy_samples_to_ring(
        &mut ring_buffer.data,
        0,
        &buffer.samples,
        2 * region_sample_count as usize,
        region2_sample_count as usize,
    );
    assert(ring_buffer.data@ =~= ring_after_fill(before, byte_to_lock as int, n1, n2, buffer.samples@));
    output.running_sample_idx = output.running_sample_idx + region_sample_count + region2_sample_count;
}

/// Samples written into the ring in whole frames, on frame boundaries, and
/// then played from where they went in, come back out as written: reading
/// `bytes_to_write` bytes from `byte_to_lock` after the fill gives the
/// samples' bytes in order.
pub proof fn lemma_ring_plays_what_was_filled(
    data: Seq<u8>,
    byte_to_lock: int,
    bytes_to_write: int,
    samples: Seq<i16>,
)
    requires
        0 < data.len(),
        data.len() % 4 == 0,
        0 <= byte_to_lock < data.len(),
        byte_to_lock % 4 == 0,
        0 <= bytes_to_write <= data.len(),
        bytes_to_write % 4 == 0,
    ensures
        ring_read(
            ring_after_fill(
                data,
                byte_to_lock,
                fill_first_len(byte_to_lock, bytes_to_write, data.len() as int),
                fill_second_len(byte_to_lock, bytes_to_write, data.len() as int),
                samples,
            ),
            byte_to_lock,
            bytes_to_write,
        ) == Seq::new(bytes_to_write as nat, |k: int| sample_byte(samples, k)),
{
    let size = data.len() as int;
    let n1 = fill_first_len(byte_to_lock, bytes_to_write, size);
    let n2 = fill_second_len(byte_to_lock, bytes_to_write, size);
    let after = ring_after_fill(data, byte_to_lock, n1, n2, samples);
    let wraps = bytes_to_write > size - byte_to_lock;
    assert((size - byte_to_lock) % 4 == 0);
    if wraps {
        assert(n1 == size - byte_to_lock);
        assert((bytes_to_write - (size - byte_to_lock)) % 4 == 0);
        assert(n2 == bytes_to_write - (size - byte_to_lock));
    } else {
        assert(n1 == bytes_to_write);
        assert(n2 == 0);
    }
    assert forall|k: int| 0 <= k < bytes_to_write implies #[trigger] after[(byte_to_lock + k)
        % size] == sample_byte(samples, k) by {
        if byte_to_lock + k < size {
            vstd::arithmetic::div_mod::lemma_small_mod((byte_to_lock + k) as nat, size as nat);
        } else {
            let r = byte_to_lock + k - size;
            vstd::arithmetic::div_mod::lemma_small_mod(r as nat, size as nat);
            vstd::arithmetic::div_mod::lemma_mod_add_multiples_vanish(r, size);
        }
    }
    assert(ring_read(after, byte_to_lock, bytes_to_write) =~= Seq::new(
        bytes_to_write as nat,
        |k: int| sample_byte(samples, k),
    ));
}

/// The byte at which the next frame's sound ends: `latency_sample_count`
/// frames past the play position, around the ring.
pub open spec fn sound_target_cursor(play_cursor: int, latency_sample_count: int, size: int) -> int {
    (play_cursor + latency_sample_count * 4) % size
}

/// Where the next frame's sound goes in the ring: from the byte after the
/// last frame written up to the target byte, around the ring. Returns the
/// first byte and the number of bytes.
pub fn sound_write_window(output: &SdlSoundOutput, play_cursor: i32) -> (r: (i32, i32))
    requires
        0 < output.secondary_buffer_size,
        0 <= output.running_sample_idx,
        output.running_sample_idx * 4 <= i32::MAX,
        0 <= play_cursor,
        0 <= output.latency_sample_count,
        play_cursor + output.latency_sample_count * 4 <= i32::MAX,
    ensures
        r.0 == (output.running_sample_idx * 4) % (output.secondary_buffer_size as int),
        r.1 == if r.0 > sound_target_cursor(
            play_cursor as int,
            output.latency_sample_count as int,
            output.secondary_buffer_size as int,
        ) {
            output.secondary_buffer_size - r.0 + sound_target_cursor(
                play_cursor as int,
                output.latency_sample_count as int,
                output.secondary_buffer_size as int,
            )
        } else {
            sound_target_cursor(
                play_cursor as int,
                output.latency_sample_count as int,
                output.secondary_buffer_size as int,
            ) - r.0
        },
        0 <= r.0 < output.secondary_buffer_size,
        0 <= r.1 < output.secondary_buffer_size,
        (r.0 + r.1) % (output.secondary_buffer_size as int) == sound_target_cursor(
            play_cursor as int,
            output.latency_sample_count as int,
            output.secondary_buffer_size as int,
        ),
{
    let size: i32 = output.secondary_buffer_size;
    let byte_to_lock: i32 = (output.running_sample_idx * BYTES_PER_SAMPLE) % size;
    let target_cursor: i32 = (play_cursor + (output.latency_sample_count * BYTES_PER_SAMPLE))
        % size;
    let bytes_to_write: i32 = if byte_to_lock > target_cursor {
        size - byte_to_lock + target_cursor
    } else {
        target_cursor - byte_to_lock
    };
    proof {
        vstd::arithmetic::div_mod::lemma_small_mod(target_cursor as nat, size as nat);
        vstd::arithmetic::div_mod::lemma_mod_add_multiples_vanish(target_cursor as int, size as int);
    }
    (byte_to_lock, bytes_to_write)
}

/// Game controllers the platform layer opens at most.
pub const MAX_CONTROLLERS: i32 = 4;

/// How many of the flags are set.
pub open spec fn count_true(s: Seq<bool>) -> nat
    decreases s.len(),
{
    if s.len() == 0 {
        0
    } else {
        count_true(s.drop_last()) + if s.last() {
            1nat
        } else {
            0nat
        }
    }
}

/// A prefix holds no more set flags than a longer one.
pub proof fn lemma_count_true_prefix(s: Seq<bool>, i: int, j: int)
    requires
        0 <= i <= j <= s.len(),
    ensures
        count_true(s.take(i)) <= count_true(s.take(j)),
    decreases j - i,
{
    if i < j {
        lemma_count_true_prefix(s, i, j - 1);
        assert(s.take(j).drop_last() =~= s.take(j - 1));
    }
}

/// How many game controllers to open, from which of the joysticks are game
/// controllers: one for each, up to the maximum. The controllers opened are
/// those numbered from zero up to the result.
pub fn open_controllers(is_game_controller: &[bool]) -> (r: i32)
    ensures
        r == if count_true(is_game_controller@) < MAX_CONTROLLERS {
            count_true(is_game_controller@) as int
        } else {
            MAX_CONTROLLERS as int
        },
{
    let n: usize = is_game_controller.len();
    let mut controller_num: i32 = 0;
    let mut controller_idx: usize = 0;
    while controller_idx < n && controller_num < MAX_CONTROLLERS
        invariant
            n == is_game_controller@.len(),
            controller_idx <= n,
            0 <= controller_num <= MAX_CONTROLLERS,
            controller_num == count_true(is_game_controller@.take(controller_idx as int)),
        decreases n - controller_idx,
    {
        proof {
            assert(is_game_controller@.take(controller_idx + 1).drop_last() =~= is_game_controller@.take(
                controller_idx as int,
            ));
        }
        if is_game_controller[controller_idx] {
            controller_num += 1;
        }
        controller_idx += 1;
    }
    proof {
        lemma_count_true_prefix(is_game_controller@, controller_idx as int, n as int);
        assert(is_game_controller@.take(n as int) =~= is_game_controller@);
    }
    controller_num
}

/// The refresh rate to run at, from whether the display mode could be read
/// and the rate it gives: sixty where it could not be read or gives none.
pub fn get_window_refresh_rate(mode_read: bool, refresh_rate: i32) -> (r: i32)
    ensures
        r == if !mode_read || refresh_rate == 0 {
            60
        } else {
            refresh_rate
        },
{
    if !mode_read || refresh_rate == 0 {
        60
    } else {
        refresh_rate
    }
}

/// The ordering of two file times.
pub open spec fn time_comp_spec(time1: timespec, time2: timespec) -> TimeComp {
    if time1.tv_sec == time2.tv_sec && time1.tv_nsec == time2.tv_nsec {
        TimeComp::Same
    } else if time1.tv_sec > time2.tv_sec || (time1.tv_sec == time2.tv_sec && time1.tv_nsec
        > time2.tv_nsec) {
        TimeComp::Earlier
    } else {
        TimeComp::Later
    }
}

/// Compares two file modification times.
pub fn compare_file_time(time1: &timespec, time2: &timespec) -> (r: TimeComp)
    ensures
        r == time_comp_spec(*time1, *time2),
{
    if (time1.tv_sec == time2.tv_sec) && (time1.tv_nsec == time2.tv_nsec) {
        TimeComp::Same
    } else if (time1.tv_sec > time2.tv_sec) || ((time1.tv_sec == time2.tv_sec) && (time1.tv_nsec
        > time2.tv_nsec)) {
        TimeComp::Earlier
    } else {
        TimeComp::Later
    }
}

/// Comparing two file times is antisymmetric: swapping them swaps
/// `Earlier` and `Later`, and `Same` holds exactly of equal times.
pub proof fn lemma_compare_file_time_antisymmetric(time1: timespec, time2: timespec)
    ensures
        (time_comp_spec(time1, time2) == TimeComp::Same) <==> time1 == time2,
        (time_comp_spec(time1, time2) == TimeComp::Earlier) <==> (time_comp_spec(time2, time1)
            == TimeComp::Later),
        (time_comp_spec(time1, time2) == TimeComp::Same) <==> (time_comp_spec(time2, time1)
            == TimeComp::Same),
{
}

} // verus!
