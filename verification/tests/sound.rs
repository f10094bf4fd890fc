use handmade::common::SoundBuffer;
use handmade::linux::{
    audio_callback, fill_sound_buffer, init_audio_buffer, sound_write_window, SdlAudioRingBuffer,
    SdlSoundOutput, BYTES_PER_SAMPLE, SAMPLES_PER_SECOND,
};
use handmade::win32::{sound_write_region, SoundWriteRegion};

fn ring(size: i32) -> SdlAudioRingBuffer {
    let mut r = SdlAudioRingBuffer { size: 0, write_cursor: 0, play_cursor: 0, data: Vec::new() };
    init_audio_buffer(&mut r, size);
    r
}

fn output(size: i32) -> SdlSoundOutput {
    SdlSoundOutput { running_sample_idx: 0, secondary_buffer_size: size, latency_sample_count: 2 }
}

#[test]
fn init_gives_silence_of_the_size() {
    let r = ring(12);
    assert_eq!(r.size, 12);
    assert_eq!(r.data, vec![0u8; 12]);
    assert_eq!((r.play_cursor, r.write_cursor), (0, 0));
}

#[test]
fn callback_reads_from_play_cursor_and_wraps() {
    let mut r = ring(8);
    r.data = vec![10, 11, 12, 13, 14, 15, 16, 17];
    r.play_cursor = 6;
    r.write_cursor = 3;
    let mut out = [0u8; 5];
    audio_callback(&mut r, &mut out);
    assert_eq!(out, [16, 17, 10, 11, 12]);
    assert_eq!(r.play_cursor, 3);
    assert_eq!(r.write_cursor, 0);
    assert_eq!(r.data, vec![10, 11, 12, 13, 14, 15, 16, 17]);
}

#[test]
fn callback_without_wrap() {
    let mut r = ring(8);
    r.data = vec![1, 2, 3, 4, 5, 6, 7, 8];
    r.play_cursor = 1;
    let mut out = [0u8; 3];
    audio_callback(&mut r, &mut out);
    assert_eq!(out, [2, 3, 4]);
    assert_eq!(r.play_cursor, 4);
    assert_eq!(r.write_cursor, 3);
}

#[test]
fn fill_writes_little_endian_frames_and_wraps() {
    let mut r = ring(8);
    let mut o = output(8);
    let buffer = SoundBuffer { samples: vec![0x0102, -1, 0x0304, 0x0506], samples_per_second: 48000 };
    fill_sound_buffer(&mut o, 4, 8, &buffer, &mut r);
    assert_eq!(r.data, vec![0x04, 0x03, 0x06, 0x05, 0x02, 0x01, 0xff, 0xff]);
    assert_eq!(o.running_sample_idx, 2);
}

#[test]
fn fill_skips_partial_frames() {
    let mut r = ring(8);
    let mut o = output(8);
    let buffer = SoundBuffer { samples: vec![7, 9], samples_per_second: 48000 };
    fill_sound_buffer(&mut o, 0, 6, &buffer, &mut r);
    assert_eq!(r.data, vec![7, 0, 9, 0, 0, 0, 0, 0]);
    assert_eq!(o.running_sample_idx, 1);
}

#[test]
fn ring_plays_back_what_was_filled() {
    let mut r = ring(8);
    let mut o = output(8);
    r.play_cursor = 4;
    let buffer = SoundBuffer { samples: vec![100, -200, 300, -400], samples_per_second: 48000 };
    fill_sound_buffer(&mut o, 4, 8, &buffer, &mut r);
    let mut out = [0u8; 8];
    audio_callback(&mut r, &mut out);
    let mut expected = Vec::new();
    for s in buffer.samples.iter() {
        expected.extend_from_slice(&s.to_le_bytes());
    }
    assert_eq!(out.to_vec(), expected);
}

#[test]
fn write_window_runs_to_latency_past_play() {
    let o = SdlSoundOutput {
        running_sample_idx: 3,
        secondary_buffer_size: 40,
        latency_sample_count: 2,
    };
    assert_eq!(sound_write_window(&o, 4), (12, 0));
    assert_eq!(sound_write_window(&o, 20), (12, 16));
    assert_eq!(sound_write_window(&o, 0), (12, 36));
    let o = SdlSoundOutput {
        running_sample_idx: 0,
        secondary_buffer_size: SAMPLES_PER_SECOND * BYTES_PER_SAMPLE,
        latency_sample_count: SAMPLES_PER_SECOND / 15,
    };
    assert_eq!(sound_write_window(&o, 0), (0, 12800));
}

#[test]
fn write_region_when_card_keeps_up() {
    let r = sound_write_region(1000, 4000, 100, 200, 50, 400, 300);
    assert!(r == SoundWriteRegion { byte_to_lock: 1000, target_cursor: 800, bytes_to_write: 3800 });
}

#[test]
fn write_region_when_card_is_latent() {
    let r = sound_write_region(10, 4000, 100, 390, 50, 401, 300);
    assert!(r == SoundWriteRegion { byte_to_lock: 10, target_cursor: 840, bytes_to_write: 830 });
}

#[test]
fn write_region_with_wrapped_write_cursor() {
    let r = sound_write_region(8001, 4000, 3900, 100, 50, 400, 0);
    assert_eq!(r.byte_to_lock, 1);
    assert_eq!(r.target_cursor, 548);
    assert_eq!(r.bytes_to_write, 547);
}
