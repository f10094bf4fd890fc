use vstd::prelude::*;

use crate::common::VideoBuffer;
use crate::ffi::sdl::le_u32;
use super::math::V2;

verus! {

broadcast use vstd::std_specs::bits::axiom_u32_trailing_zeros;

/// `v` rotated left by `n` bits, `n < 32`.
pub open spec fn rotl_spec(v: u32, n: u32) -> u32 {
    if n == 0 {
        v
    } else {
        (v << n) | (v >> (32 - n) as u32)
    }
}

/// Rotation amounts the bitmap loader can use: a left rotation below 25,
/// or a right rotation (negative) of 8 to 32 bits.
pub open spec fn rotate_amount_ok(amount: i32) -> bool {
    (0 <= amount < 25) || (-32 <= amount <= -8)
}

/// `value` rotated left by `amount` bits; a negative amount rotates right.
pub open spec fn rotate_left_spec(value: u32, amount: i32) -> u32 {
    rotl_spec(value, (if amount < 0 { amount + 32 } else { amount as int }) as u32)
}

/// Rotates `value` left by `amount` bits; a negative amount rotates right.
pub fn rotate_left(value: u32, amount: i32) -> (r: u32)
    requires
        rotate_amount_ok(amount),
    ensures
        r == rotate_left_spec(value, amount),
{
    let mut amount = amount;
    if amount < 0 {
        amount += 32;
    }
    let n = amount as u32;
    if n == 0 {
        value
    } else {
        (value << n) | (value >> (32 - n))
    }
}

/// A loaded bitmap: `width` by `height` pixels, bottom row first, each
/// pixel `AA RR GG BB`.
pub struct Bitmap {
    pub width: u32,
    pub height: u32,
    pub memory: Vec<u32>,
}

/// The bitmap file header's fields this loader reads, by byte offset.
pub open spec fn bmp_pixel_offset(b: Seq<u8>) -> u32 {
    le_u32(b, 10)
}

pub open spec fn bmp_width(b: Seq<u8>) -> i32 {
    le_u32(b, 18) as i32
}

pub open spec fn bmp_height(b: Seq<u8>) -> i32 {
    le_u32(b, 22) as i32
}

pub open spec fn bmp_compression(b: Seq<u8>) -> u32 {
    le_u32(b, 30)
}

pub open spec fn bmp_red_mask(b: Seq<u8>) -> u32 {
    le_u32(b, 54)
}

pub open spec fn bmp_green_mask(b: Seq<u8>) -> u32 {
    le_u32(b, 58)
}

pub open spec fn bmp_blue_mask(b: Seq<u8>) -> u32 {
    le_u32(b, 62)
}

/// The alpha channel is every bit no colour mask claims.
pub open spec fn bmp_alpha_mask(b: Seq<u8>) -> u32 {
    !(bmp_red_mask(b) | bmp_green_mask(b) | bmp_blue_mask(b))
}

/// Bytes in the header this loader reads.
pub const BITMAP_HEADER_SIZE: usize = 66;

/// The number of pixels the header announces.
pub open spec fn bmp_pixel_count(b: Seq<u8>) -> int {
    bmp_width(b) * bmp_height(b)
}

/// Whether the file holds its header and all the pixels it announces.
pub open spec fn bmp_complete(b: Seq<u8>) -> bool {
    &&& b.len() >= BITMAP_HEADER_SIZE
    &&& bmp_pixel_count(b) >= 0
    &&& bmp_pixel_offset(b) + 4 * bmp_pixel_count(b) <= b.len()
}

/// The rotation that moves a channel from where its mask sits to bit `base`.
pub open spec fn channel_shift(base: int, mask: u32) -> i32 {
    (base - vstd::std_specs::bits::u32_trailing_zeros(mask)) as i32
}

/// Whether the loader can move each channel into place.
pub open spec fn bmp_shifts_ok(b: Seq<u8>) -> bool {
    &&& rotate_amount_ok(channel_shift(16, bmp_red_mask(b)))
    &&& rotate_amount_ok(channel_shift(8, bmp_green_mask(b)))
    &&& rotate_amount_ok(channel_shift(0, bmp_blue_mask(b)))
    &&& rotate_amount_ok(channel_shift(24, bmp_alpha_mask(b)))
}

/// What loading asks of a file with a header: the bit-field format, a
/// pixel count that fits in 32 bits, and channels that can be moved into
/// place when there are pixels to move.
pub open spec fn bmp_supported(b: Seq<u8>) -> bool {
    b.len() >= BITMAP_HEADER_SIZE ==> {
        &&& bmp_compression(b) == 3
        &&& i32::MIN <= bmp_pixel_count(b) <= i32::MAX
        &&& (bmp_complete(b) && bmp_pixel_count(b) > 0 ==> bmp_shifts_ok(b))
    }
}

/// The loader reads the bitmap file's header where the format puts its
/// fields: the offset of the pixel data at byte 10, the width at 18, the
/// height at 22, the compression at 30 and the red, green and blue masks at
/// 54, 58 and 62, each a little-endian 32-bit number. Pixel `i` is the word
/// `4i` bytes after the pixel data's offset, and the file is complete when
/// it holds the header and `4 * width * height` bytes from that offset on.
pub proof fn lemma_bitmap_layout(b: Seq<u8>, i: int)
    ensures
        file_pixel(b, i) == le_u32(b, le_u32(b, 10) as int + 4 * i),
        bmp_width(b) == le_u32(b, 18) as i32,
        bmp_height(b) == le_u32(b, 22) as i32,
        bmp_compression(b) == le_u32(b, 30),
        bmp_red_mask(b) == le_u32(b, 54),
        bmp_green_mask(b) == le_u32(b, 58),
        bmp_blue_mask(b) == le_u32(b, 62),
        bmp_complete(b) <==> ({
            let count = (le_u32(b, 18) as i32) * (le_u32(b, 22) as i32);
            &&& b.len() >= 66
            &&& count >= 0
            &&& le_u32(b, 10) + 4 * count <= b.len()
        }),
{
}

/// A file pixel moved to `AA RR GG BB` order.
pub open spec fn convert_pixel(b: Seq<u8>, p: u32) -> u32 {
    rotate_left_spec(p & bmp_red_mask(b), channel_shift(16, bmp_red_mask(b)))
        | rotate_left_spec(p & bmp_green_mask(b), channel_shift(8, bmp_green_mask(b)))
        | rotate_left_spec(p & bmp_blue_mask(b), channel_shift(0, bmp_blue_mask(b)))
        | rotate_left_spec(p & bmp_alpha_mask(b), channel_shift(24, bmp_alpha_mask(b)))
}

/// The file's `i`-th pixel, as stored.
pub open spec fn file_pixel(b: Seq<u8>, i: int) -> u32 {
    le_u32(b, bmp_pixel_offset(b) + 4 * i)
}

/// Whether `k` is the bit offset of one of a word's bytes.
pub open spec fn byte_offset(k: u32) -> bool {
    k == 0 || k == 8 || k == 16 || k == 24
}

/// The byte of `p` at bit offset `k`.
pub open spec fn byte_at(p: u32, k: u32) -> u32 {
    (p >> k) & 0xFFu32
}

/// A byte mask starts at its byte's offset.
proof fn lemma_byte_mask_trailing_zeros(k: u32)
    requires
        byte_offset(k),
    ensures
        vstd::std_specs::bits::u32_trailing_zeros(0xFFu32 << k) == k,
{
    let m = 0xFFu32 << k;
    let t = vstd::std_specs::bits::u32_trailing_zeros(m);
    assert(m != 0 && (m >> k) & 1u32 == 1u32) by (bit_vector)
        requires
            k == 0 || k == 8 || k == 16 || k == 24,
            m == 0xFFu32 << k,
    ;
    if t < k {
        assert((m >> t) & 1u32 == 0u32) by (bit_vector)
            requires
                t < k,
                k == 0 || k == 8 || k == 16 || k == 24,
                m == 0xFFu32 << k,
        ;
    }
    if t > k {
        assert((m >> k) & 1u32 == 0u32);
    }
}

/// Rotating the masked byte at offset `k` by the amount that moves it to
/// offset `base` gives that byte at `base`.
proof fn lemma_rotate_byte(p: u32, k: u32, base: u32, n: u32)
    by (bit_vector)
    requires
        k == 0 || k == 8 || k == 16 || k == 24,
        base == 0 || base == 8 || base == 16 || base == 24,
        (base >= k ==> n + k == base),
        (base < k ==> n + k == base + 32),
    ensures
        (if n == 0 {
            p & (0xFFu32 << k)
        } else {
            ((p & (0xFFu32 << k)) << n) | ((p & (0xFFu32 << k)) >> ((32 - n) as u32))
        }) == ((p >> k) & 0xFFu32) << base,
{
}

/// The remaining byte of a word whose three other bytes are masked.
proof fn lemma_alpha_byte(kr: u32, kg: u32, kb: u32, ka: u32)
    by (bit_vector)
    requires
        kr == 0 || kr == 8 || kr == 16 || kr == 24,
        kg == 0 || kg == 8 || kg == 16 || kg == 24,
        kb == 0 || kb == 8 || kb == 16 || kb == 24,
        ka == 0 || ka == 8 || ka == 16 || ka == 24,
        kr != kg && kr != kb && kr != ka && kg != kb && kg != ka && kb != ka,
    ensures
        !((0xFFu32 << kr) | (0xFFu32 << kg) | (0xFFu32 << kb)) == 0xFFu32 << ka,
{
}

/// With each colour's mask covering one whole byte, the loader moves red's
/// byte to bits 16 to 23, green's to bits 8 to 15, blue's to bits 0 to 7 and
/// the remaining byte, the alpha channel, to bits 24 to 31.
pub proof fn lemma_byte_masks_place_bytes(b: Seq<u8>, p: u32, kr: u32, kg: u32, kb: u32, ka: u32)
    requires
        byte_offset(kr),
        byte_offset(kg),
        byte_offset(kb),
        byte_offset(ka),
        kr != kg && kr != kb && kr != ka && kg != kb && kg != ka && kb != ka,
        bmp_red_mask(b) == 0xFFu32 << kr,
        bmp_green_mask(b) == 0xFFu32 << kg,
        bmp_blue_mask(b) == 0xFFu32 << kb,
    ensures
        convert_pixel(b, p) == (byte_at(p, kr) << 16u32) | (byte_at(p, kg) << 8u32) | byte_at(p, kb)
            | (byte_at(p, ka) << 24u32),
{
    lemma_alpha_byte(kr, kg, kb, ka);
    assert(bmp_alpha_mask(b) == 0xFFu32 << ka);
    lemma_byte_mask_trailing_zeros(kr);
    lemma_byte_mask_trailing_zeros(kg);
    lemma_byte_mask_trailing_zeros(kb);
    lemma_byte_mask_trailing_zeros(ka);
    let nr = (if 16 >= kr { 16 - kr } else { 48 - kr }) as u32;
    let ng = (if 8 >= kg { 8 - kg } else { 40 - kg }) as u32;
    let nb = (if 0 >= kb { 0 - kb } else { 32 - kb }) as u32;
    let na = (if 24 >= ka { 24 - ka } else { 56 - ka }) as u32;
    lemma_rotate_byte(p, kr, 16, nr);
    lemma_rotate_byte(p, kg, 8, ng);
    lemma_rotate_byte(p, kb, 0, nb);
    lemma_rotate_byte(p, ka, 24, na);
    assert(rotate_left_spec(p & bmp_red_mask(b), channel_shift(16, bmp_red_mask(b))) == byte_at(p, kr) << 16u32);
    assert(rotate_left_spec(p & bmp_green_mask(b), channel_shift(8, bmp_green_mask(b))) == byte_at(p, kg) << 8u32);
    assert(rotate_left_spec(p & bmp_blue_mask(b), channel_shift(0, bmp_blue_mask(b))) == byte_at(p, kb) << 0u32);
    assert(rotate_left_spec(p & bmp_alpha_mask(b), channel_shift(24, bmp_alpha_mask(b))) == byte_at(p, ka) << 24u32);
    assert(byte_at(p, kb) << 0u32 == byte_at(p, kb)) by (bit_vector);
}

/// Reads the little-endian 32-bit number at byte `o`.
fn read_le_u32(b: &[u8], o: usize) -> (r: u32)
    requires
        o + 4 <= b@.len(),
    ensures
        r == le_u32(b@, o as int),
{
    b[o] as u32 + 256 * (b[o + 1] as u32) + 65536 * (b[o + 2] as u32) + 16777216 * (b[o
        + 3] as u32)
}

/// Whether a rotation amount is one the loader can use.
fn amount_ok(amount: i32) -> (r: bool)
    ensures
        r == rotate_amount_ok(amount),
{
    (0 <= amount && amount < 25) || (-32 <= amount && amount <= -8)
}

/// Whether the loader takes the file: tells the files `debug_load_bitmap`
/// may be given.
pub fn bmp_is_supported(contents: &[u8]) -> (r: bool)
    ensures
        r == bmp_supported(contents@),
{
    if contents.len() < BITMAP_HEADER_SIZE {
        return true;
    }
    if read_le_u32(contents, 30) != 3 {
        return false;
    }
    let width = read_le_u32(contents, 18) as i32;
    let height = read_le_u32(contents, 22) as i32;
    proof {
        let w = width as int;
        let h = height as int;
        assert(-0x4000_0000_0000_0000 <= w * h <= 0x4000_0000_0000_0000) by (nonlinear_arith)
            requires
                i32::MIN <= w <= i32::MAX,
                i32::MIN <= h <= i32::MAX,
        ;
    }
    let count: i64 = width as i64 * height as i64;
    if count < i32::MIN as i64 || count > i32::MAX as i64 {
        return false;
    }
    let offset = read_le_u32(contents, 10);
    let complete = count >= 0 && offset as u64 + 4 * (count as u64) <= contents.len() as u64;
    if complete && count > 0 {
        let red_mask = read_le_u32(contents, 54);
        let green_mask = read_le_u32(contents, 58);
        let blue_mask = read_le_u32(contents, 62);
        let alpha_mask = !(red_mask | green_mask | blue_mask);
        amount_ok(16 - red_mask.trailing_zeros() as i32) && amount_ok(
            8 - green_mask.trailing_zeros() as i32,
        ) && amount_ok(0 - blue_mask.trailing_zeros() as i32) && amount_ok(
            24 - alpha_mask.trailing_zeros() as i32,
        )
    } else {
        true
    }
}

/// Loads a bitmap from the contents of a bit-field bitmap file, bottom row
/// first, moving each pixel's channels to `AA RR GG BB` as the header's
/// masks say. Gives `None` when the file is too short for its header or its
/// pixels, or announces a negative pixel count.
pub fn debug_load_bitmap(contents: &[u8]) -> (r: Option<Bitmap>)
    requires
        bmp_supported(contents@),
    ensures
        r is Some <==> bmp_complete(contents@),
        r matches Some(bm) ==> {
            &&& bm.width == bmp_width(contents@) as u32
            &&& bm.height == bmp_height(contents@) as u32
            &&& bm.memory@ == Seq::new(
                bmp_pixel_count(contents@) as nat,
                |i: int| convert_pixel(contents@, file_pixel(contents@, i)),
            )
        },
{
    let ghost b = contents@;
    if contents.len() < BITMAP_HEADER_SIZE {
        return None;
    }
    let bitmap_offset = read_le_u32(contents, 10);
    let width = read_le_u32(contents, 18) as i32;
    let height = read_le_u32(contents, 22) as i32;
    let red_mask = read_le_u32(contents, 54);
    let green_mask = read_le_u32(contents, 58);
    let blue_mask = read_le_u32(contents, 62);
    let count = width * height;
    if count < 0 {
        return None;
    }
    if bitmap_offset as u64 + 4 * (count as u64) > contents.len() as u64 {
        return None;
    }
    let alpha_mask = !(red_mask | green_mask | blue_mask);
    let alpha_shift = 24 - alpha_mask.trailing_zeros() as i32;
    let red_shift = 16 - red_mask.trailing_zeros() as i32;
    let green_shift = 8 - green_mask.trailing_zeros() as i32;
    let blue_shift = 0 - blue_mask.trailing_zeros() as i32;
    let ghost want = Seq::new(count as nat, |i: int| convert_pixel(b, file_pixel(b, i)));
    let mut memory: Vec<u32> = Vec::new();
    let n = count as usize;
    let base = bitmap_offset as usize;
    let len = contents.len();
    let mut i: usize = 0;
    while i < n
        invariant
            b == contents@,
            len == b.len(),
            bmp_complete(b),
            bmp_supported(b),
            n == bmp_pixel_count(b),
            base == bmp_pixel_offset(b),
            red_mask == bmp_red_mask(b),
            green_mask == bmp_green_mask(b),
            blue_mask == bmp_blue_mask(b),
            alpha_mask == bmp_alpha_mask(b),
            red_shift == channel_shift(16, red_mask),
            green_shift == channel_shift(8, green_mask),
            blue_shift == channel_shift(0, blue_mask),
            alpha_shift == channel_shift(24, alpha_mask),
            want == Seq::new(n as nat, |k: int| convert_pixel(b, file_pixel(b, k))),
            i <= n,
            memory@ == want.take(i as int),
        decreases n - i,
    {
        let pixel = read_le_u32(contents, base + 4 * i);
        let converted = rotate_left(pixel & red_mask, red_shift) | rotate_left(
            pixel & green_mask,
            green_shift,
        ) | rotate_left(pixel & blue_mask, blue_shift) | rotate_left(
            pixel & alpha_mask,
            alpha_shift,
        );
        memory.push(converted);
        i = i + 1;
        proof {
            assert(memory@ =~= want.take(i as int));
        }
    }
    proof {
        assert(memory@ =~= want);
    }
    Some(Bitmap { width: width as u32, height: height as u32, memory })
}

/// The part of a buffer a bitmap covers when its top left corner is put at
/// `(min_x, min_y)`: from the clipped corner (included) to the clipped far
/// corner (excluded), with how many of the bitmap's columns and rows fall
/// off the buffer's left and top edges.
#[derive(Clone, Copy, PartialEq, Eq, Structural)]
pub struct BlitRegion {
    pub min_x: isize,
    pub max_x: isize,
    pub min_y: isize,
    pub max_y: isize,
    pub source_offset_x: isize,
    pub source_offset_y: isize,
}

/// Clips a bitmap of `bitmap_width` by `bitmap_height` pixels placed with its
/// top left corner at `(min_x, min_y)` to a buffer of `buffer_width` by
/// `buffer_height` pixels.
pub fn bitmap_blit_region(
    buffer_width: usize,
    buffer_height: usize,
    bitmap_width: u32,
    bitmap_height: u32,
    min_x: isize,
    min_y: isize,
) -> (r: BlitRegion)
    requires
        buffer_width <= isize::MAX,
        buffer_height <= isize::MAX,
        bitmap_width <= isize::MAX,
        bitmap_height <= isize::MAX,
        isize::MIN < min_x,
        isize::MIN < min_y,
        min_x + bitmap_width <= isize::MAX,
        min_y + bitmap_height <= isize::MAX,
    ensures
        r.source_offset_x == if min_x < 0 { -min_x } else { 0 },
        r.source_offset_y == if min_y < 0 { -min_y } else { 0 },
        r.min_x == if min_x < 0 { 0 } else { min_x as int },
        r.min_y == if min_y < 0 { 0 } else { min_y as int },
        r.max_x == if min_x + bitmap_width > buffer_width { buffer_width as int } else { min_x
            + bitmap_width },
        r.max_y == if min_y + bitmap_height > buffer_height { buffer_height as int } else { min_y
            + bitmap_height },
        r.min_x - min_x == r.source_offset_x,
        r.min_y - min_y == r.source_offset_y,
        r.max_x - min_x <= bitmap_width,
        r.max_y - min_y <= bitmap_height,
        0 <= r.min_x && r.max_x <= buffer_width,
        0 <= r.min_y && r.max_y <= buffer_height,
{
    let mut lo_x = min_x;
    let mut lo_y = min_y;
    let mut hi_x = min_x + bitmap_width as isize;
    let mut hi_y = min_y + bitmap_height as isize;
    let mut source_offset_x: isize = 0;
    if lo_x < 0 {
        source_offset_x = -lo_x;
        lo_x = 0;
    }
    let mut source_offset_y: isize = 0;
    if lo_y < 0 {
        source_offset_y = -lo_y;
        lo_y = 0;
    }
    if hi_x > buffer_width as isize {
        hi_x = buffer_width as isize;
    }
    if hi_y > buffer_height as isize {
        hi_y = buffer_height as isize;
    }
    BlitRegion { min_x: lo_x, max_x: hi_x, min_y: lo_y, max_y: hi_y, source_offset_x, source_offset_y }
}

/// Where the blend of a bitmap placed with its top left corner at
/// `(min_x, min_y)` reads and writes for buffer pixel `(x, y)`: the source
/// pixel counts rows from the bitmap's bottom (its rows are stored bottom
/// first), the destination counts rows of `pitch` pixels from the buffer's
/// top. Both lie inside their images.
pub fn blit_pixel_indices(
    bitmap_width: u32,
    bitmap_height: u32,
    min_x: isize,
    min_y: isize,
    x: isize,
    y: isize,
    pitch: usize,
    buffer_height: usize,
) -> (r: (usize, usize))
    requires
        min_x <= x < min_x + bitmap_width,
        min_y <= y < min_y + bitmap_height,
        0 <= x < pitch,
        0 <= y < buffer_height,
        bitmap_width <= isize::MAX,
        bitmap_height <= isize::MAX,
        bitmap_width * bitmap_height <= usize::MAX,
        pitch * buffer_height <= usize::MAX,
    ensures
        r.0 == (bitmap_height - 1 - (y - min_y)) * bitmap_width + (x - min_x),
        r.0 < bitmap_width * bitmap_height,
        r.1 == y * pitch + x,
        r.1 < pitch * buffer_height,
{
    let w: usize = bitmap_width as usize;
    let h: usize = bitmap_height as usize;
    let dy: usize = (y - min_y) as usize;
    let row: usize = h - 1 - dy;
    let col: usize = (x - min_x) as usize;
    proof {
        assert(row * w + col < w * h) by (nonlinear_arith)
            requires
                row < h,
                col < w,
        {
            assert(row * w <= (h - 1) * w);
        }
        let yy = y as int;
        let xx = x as int;
        assert(yy * pitch + xx < pitch * buffer_height) by (nonlinear_arith)
            requires
                0 <= yy < buffer_height,
                0 <= xx < pitch,
        {
            assert(yy * pitch <= (buffer_height - 1) * pitch);
        }
    }
    let source = row * w + col;
    let dest = (y as usize) * pitch + (x as usize);
    (source, dest)
}

/// The clipped extent of a rectangle along one axis of a buffer of `size`
/// pixels: from the start (at least 0) to the end (at most `size`).
pub open spec fn clip_low(v: isize) -> int {
    if v < 0 {
        0
    } else {
        v as int
    }
}

pub open spec fn clip_high(v: isize, size: usize) -> int {
    if v > size as isize {
        (size as isize) as int
    } else {
        v as int
    }
}

/// Whether pixel `i` of a buffer whose rows are `pitch` pixels apart lies in
/// the rectangle from `(x0, y0)` (included) to `(x1, y1)` (excluded).
pub open spec fn in_rect(i: int, pitch: int, x0: int, x1: int, y0: int, y1: int) -> bool {
    x0 <= i % pitch < x1 && y0 <= i / pitch < y1
}

/// Fills the pixels from `(min_x, min_y)` (included) to `(max_x, max_y)`
/// (excluded), clipped to the buffer, with `color`; the caller has rounded
/// the corners to whole pixels and packed the color as `RR GG BB`.
pub fn draw_rect(buffer: &mut VideoBuffer, min_x: isize, max_x: isize, min_y: isize, max_y: isize, color: u32)
    requires
        old(buffer).pitch > 0,
    ensures
        final(buffer).width == old(buffer).width,
        final(buffer).height == old(buffer).height,
        final(buffer).pitch == old(buffer).pitch,
        final(buffer).memory@.len() == old(buffer).memory@.len(),
        forall|i: int|
            0 <= i < old(buffer).memory@.len() ==> #[trigger] final(buffer).memory@[i] == if in_rect(
                i,
                old(buffer).pitch as int,
                clip_low(min_x),
                clip_high(max_x, old(buffer).width),
                clip_low(min_y),
                clip_high(max_y, old(buffer).height),
            ) {
                color
            } else {
                old(buffer).memory@[i]
            },
{
    let mut min_x = min_x;
    let mut max_x = max_x;
    let mut min_y = min_y;
    let mut max_y = max_y;
    if min_x < 0 {
        min_x = 0;
    }
    if min_y < 0 {
        min_y = 0;
    }
    if max_x > buffer.width as isize {
        max_x = buffer.width as isize;
    }
    if max_y > buffer.height as isize {
        max_y = buffer.height as isize;
    }
    let ghost old_mem = buffer.memory@;
    let pitch = buffer.pitch;
    let len = buffer.memory.len();
    let ghost pp = buffer.pitch as int;
    let ghost x0 = min_x as int;
    let ghost x1 = max_x as int;
    let ghost y0 = min_y as int;
    let ghost y1 = max_y as int;
    if min_x >= max_x || min_y >= max_y {
        proof {
            assert forall|i: int| 0 <= i < old_mem.len() implies !in_rect(i, pp, x0, x1, y0, y1) by {}
        }
        return;
    }
    let x_start = min_x as usize;
    let x_end = max_x as usize;
    let y_start = min_y as usize;
    let y_end = max_y as usize;
    let rows = len / pitch;
    proof {
        vstd::arithmetic::div_mod::lemma_fundamental_div_mod(len as int, pp);
        assert(rows * pp <= len) by (nonlinear_arith)
            requires
                len == pp * rows + (len as int) % pp,
                (len as int) % pp >= 0,
        ;
        if y_start <= rows {
            assert(y_start * pp <= rows * pp) by (nonlinear_arith)
                requires
                    y_start <= rows,
                    pp > 0,
            ;
        }
        if y_end <= rows {
            assert(y_end * pp <= rows * pp) by (nonlinear_arith)
                requires
                    y_end <= rows,
                    pp > 0,
            ;
        }
    }
    let start: usize = if y_start <= rows { y_start * pitch } else { len };
    let end: usize = if y_end <= rows { y_end * pitch } else { len };
    let ghost old_width = buffer.width;
    let ghost old_height = buffer.height;
    proof {
        if y_end <= rows {
            assert(y_start * pp < y_end * pp) by (nonlinear_arith)
                requires
                    y_start < y_end,
                    pp > 0,
            ;
        }
        assert forall|j: int| 0 <= j < len && in_rect(j, pp, x0, x1, y0, y1) implies start <= j by {
            lemma_row_in_span(j, pp, y0, y1, start as int, end as int, len as int, rows as int);
        }
    }
    let mut i = start;
    while i < end
        invariant
            buffer.pitch == pitch,
            buffer.width == old_width,
            buffer.height == old_height,
            pp == pitch,
            pitch > 0,
            rows == (len as int) / pp,
            0 <= y0 < y1,
            start == if y0 <= rows { y0 * pp } else { len as int },
            end == if y1 <= rows { y1 * pp } else { len as int },
            buffer.memory@.len() == len == old_mem.len(),
            start <= i <= end,
            end <= len,
            x0 == x_start,
            x1 == x_end,
            y0 == y_start,
            y1 == y_end,
            forall|j: int|
                0 <= j < len ==> #[trigger] buffer.memory@[j] == if in_rect(j, pp, x0, x1, y0, y1)
                    && j < i {
                    color
                } else {
                    old_mem[j]
                },
        decreases end - i,
    {
        let col = i % pitch;
        if x_start <= col && col < x_end {
            let row = i / pitch;
            buffer.memory.set(i, color);
            proof {
                assert(y0 <= (i as int) / pp < y1) by {
                    lemma_row_in_range(i as int, pp, y0, y1, start as int, end as int, len as int, rows as int);
                }
            }
        } else {
            proof {
                assert(!in_rect(i as int, pp, x0, x1, y0, y1));
            }
        }
        i = i + 1;
    }
    proof {
        assert forall|j: int|
            0 <= j < len implies #[trigger] buffer.memory@[j] == if in_rect(j, pp, x0, x1, y0, y1) {
            color
        } else {
            old_mem[j]
        } by {
            if in_rect(j, pp, x0, x1, y0, y1) && j >= i {
                lemma_row_in_span(j, pp, y0, y1, start as int, end as int, len as int, rows as int);
            }
        }
    }
}

/// Positions between the first pixel of row `y0` and the first pixel of row
/// `y1` (or the end of the buffer) lie in rows `y0` to `y1`.
proof fn lemma_row_in_range(i: int, p: int, y0: int, y1: int, start: int, end: int, len: int, rows: int)
    requires
        p > 0,
        0 <= y0 < y1,
        rows == len / p,
        start == if y0 <= rows { y0 * p } else { len },
        end == if y1 <= rows { y1 * p } else { len },
        0 <= start <= i < end <= len,
    ensures
        y0 <= i / p < y1,
{
    vstd::arithmetic::div_mod::lemma_fundamental_div_mod(i, p);
    let q = i / p;
    let r = i % p;
    assert(0 <= r < p);
    assert(p * q == q * p) by (nonlinear_arith);
    if q < y0 {
        assert(q * p + r < y0 * p) by (nonlinear_arith)
            requires
                q < y0,
                0 <= r < p,
        ;
    }
    if q >= y1 {
        if y1 <= rows {
            assert(q * p + r >= y1 * p) by (nonlinear_arith)
                requires
                    q >= y1,
                    0 <= r,
                    p > 0,
            ;
        } else {
            vstd::arithmetic::div_mod::lemma_div_is_ordered(i, len, p);
        }
    }
}

/// A pixel of rows `y0` to `y1` inside the buffer lies before the end of
/// that span.
proof fn lemma_row_in_span(j: int, p: int, y0: int, y1: int, start: int, end: int, len: int, rows: int)
    requires
        p > 0,
        0 <= y0 < y1,
        0 <= j < len,
        y0 <= j / p < y1,
        rows == len / p,
        start == if y0 <= rows { y0 * p } else { len },
        end == if y1 <= rows { y1 * p } else { len },
    ensures
        start <= j < end,
{
    vstd::arithmetic::div_mod::lemma_fundamental_div_mod(j, p);
    let q = j / p;
    let r = j % p;
    assert(p * q == q * p) by (nonlinear_arith);
    if y1 <= rows {
        assert(q * p + r < y1 * p) by (nonlinear_arith)
            requires
                q < y1,
                0 <= r < p,
        ;
    }
    vstd::arithmetic::div_mod::lemma_div_is_ordered(j, len, p);
    if y0 <= rows {
        assert(q * p + r >= y0 * p) by (nonlinear_arith)
            requires
                q >= y0,
                0 <= r,
                p > 0,
        ;
    }
}

/// The bitmaps of one facing direction of the hero, and where to place them
/// relative to the hero's ground point.
pub struct HeroBitmaps {
    pub head: Bitmap,
    pub torso: Bitmap,
    pub cape: Bitmap,
    pub align: V2<i32>,
}

} // verus!
