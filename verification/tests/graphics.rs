use handmade::common::VideoBuffer;
use handmade::game::graphics::{
    bitmap_blit_region, blit_pixel_indices, bmp_is_supported, debug_load_bitmap, draw_rect, rotate_left, BlitRegion,
};

#[test]
fn rotations() {
    assert_eq!(rotate_left(0x8000_0001, 1), 0x0000_0003);
    assert_eq!(rotate_left(0x0000_00FF, 8), 0x0000_FF00);
    assert_eq!(rotate_left(0x0000_FF00, -8), 0x0000_00FF);
    assert_eq!(rotate_left(0x1234_5678, 0), 0x1234_5678);
    assert_eq!(rotate_left(0xFF00_0000, -32), 0xFF00_0000);
}

fn bitmap_file(width: i32, height: i32, pixels: &[u32], masks: (u32, u32, u32)) -> Vec<u8> {
    let mut b = vec![0u8; 66];
    b[0] = b'B';
    b[1] = b'M';
    b[10..14].copy_from_slice(&66u32.to_le_bytes());
    b[14..18].copy_from_slice(&40u32.to_le_bytes());
    b[18..22].copy_from_slice(&width.to_le_bytes());
    b[22..26].copy_from_slice(&height.to_le_bytes());
    b[26..28].copy_from_slice(&1u16.to_le_bytes());
    b[28..30].copy_from_slice(&32u16.to_le_bytes());
    b[30..34].copy_from_slice(&3u32.to_le_bytes());
    b[54..58].copy_from_slice(&masks.0.to_le_bytes());
    b[58..62].copy_from_slice(&masks.1.to_le_bytes());
    b[62..66].copy_from_slice(&masks.2.to_le_bytes());
    for p in pixels {
        b.extend_from_slice(&p.to_le_bytes());
    }
    b
}

#[test]
fn loads_bitmap_in_argb_order() {
    // Pixels stored as AABBGGRR: red in the low byte, blue in the third.
    let file = bitmap_file(2, 1, &[0x80112233, 0xFF0000FF], (0x0000_00FF, 0x0000_FF00, 0x00FF_0000));
    let bm = debug_load_bitmap(&file).unwrap();
    assert_eq!(bm.width, 2);
    assert_eq!(bm.height, 1);
    assert_eq!(bm.memory, vec![0x80332211, 0xFFFF0000]);
}

#[test]
fn loads_argb_bitmap_unchanged() {
    let file = bitmap_file(1, 2, &[0x01020304, 0xA0B0C0D0], (0x00FF_0000, 0x0000_FF00, 0x0000_00FF));
    let bm = debug_load_bitmap(&file).unwrap();
    assert_eq!(bm.memory, vec![0x01020304, 0xA0B0C0D0]);
}

#[test]
fn short_or_negative_bitmaps_are_refused() {
    assert!(debug_load_bitmap(&[0u8; 10]).is_none());
    let mut file = bitmap_file(2, 2, &[1, 2, 3], (0xFF, 0xFF00, 0xFF0000));
    assert!(debug_load_bitmap(&file).is_none());
    file.extend_from_slice(&[0, 0, 0, 0]);
    assert!(debug_load_bitmap(&file).is_some());
    let negative = bitmap_file(-1, 1, &[], (0xFF, 0xFF00, 0xFF0000));
    assert!(debug_load_bitmap(&negative).is_none());
    let empty = bitmap_file(0, 5, &[], (0xFF, 0xFF00, 0xFF0000));
    assert_eq!(debug_load_bitmap(&empty).unwrap().memory.len(), 0);
}

#[test]
fn rectangles_are_clipped_to_the_buffer() {
    let mut buffer = VideoBuffer { memory: vec![0; 20], width: 4, height: 5, pitch: 4 };
    draw_rect(&mut buffer, -3, 2, 3, 9, 7);
    let expect: Vec<u32> = (0..20)
        .map(|i: usize| if i % 4 < 2 && i / 4 >= 3 { 7 } else { 0 })
        .collect();
    assert_eq!(buffer.memory, expect);
    draw_rect(&mut buffer, 3, 3, 0, 5, 9);
    assert_eq!(buffer.memory, expect);
    draw_rect(&mut buffer, 0, 100, 0, 1, 1);
    assert_eq!(&buffer.memory[0..4], &[1, 1, 1, 1]);
    assert_eq!(buffer.memory[4], 0);
}

#[test]
fn supported_bitmaps() {
    let good = bitmap_file(2, 1, &[1, 2], (0x0000_00FF, 0x0000_FF00, 0x00FF_0000));
    assert!(bmp_is_supported(&good));
    assert!(bmp_is_supported(&good[..10]));
    let mut uncompressed = good.clone();
    uncompressed[30] = 0;
    assert!(!bmp_is_supported(&uncompressed));
    // A blue mask four bits up would need a rotation the loader cannot do.
    let odd = bitmap_file(1, 1, &[1], (0x0000_00FF, 0x0000_FF00, 0x0000_0010));
    assert!(!bmp_is_supported(&odd));
    let huge = bitmap_file(0x10000, 0x10000, &[], (0x0000_00FF, 0x0000_FF00, 0x00FF_0000));
    assert!(!bmp_is_supported(&huge));
}

#[test]
fn blit_region_clips_to_the_buffer() {
    let r = bitmap_blit_region(100, 50, 30, 20, -10, 40);
    assert!(r == BlitRegion { min_x: 0, max_x: 20, min_y: 40, max_y: 50, source_offset_x: 10, source_offset_y: 0 });
    let inside = bitmap_blit_region(100, 50, 30, 20, 5, 6);
    assert!(inside == BlitRegion { min_x: 5, max_x: 35, min_y: 6, max_y: 26, source_offset_x: 0, source_offset_y: 0 });
    let off = bitmap_blit_region(100, 50, 30, 20, 120, -30);
    assert!(off.min_x >= off.max_x && off.min_y >= off.max_y);
    assert_eq!(off.source_offset_y, 30);
}

#[test]
fn blit_indices_walk_the_bitmap_from_its_top_row() {
    // A 3 by 2 bitmap at (-1, 4) in a buffer 10 pixels wide and 8 high.
    assert_eq!(blit_pixel_indices(3, 2, -1, 4, 0, 4, 10, 8), (4, 40));
    assert_eq!(blit_pixel_indices(3, 2, -1, 4, 1, 5, 10, 8), (2, 51));
}
