use vstd::prelude::*;

verus! {

/// Bytes in a 160x160 framebuffer of 2-bit pixels, four to a byte.
pub const FRAMEBUFFER_LEN: usize = 6400;

/// Pixels in a framebuffer row.
pub const FRAMEBUFFER_WIDTH: usize = 160;

/// Byte holding pixel `(x, y)`.
pub open spec fn pixel_byte(x: int, y: int) -> int {
    (y * 160 + x) / 4
}

/// Bit offset of pixel `x` within its byte.
pub open spec fn pixel_shift(x: int) -> u8 {
    ((x % 4) * 2) as u8
}

/// The 2-bit color stored for pixel `(x, y)`.
pub open spec fn pixel_of(fb: Seq<u8>, x: int, y: int) -> u8 {
    (fb[pixel_byte(x, y)] >> pixel_shift(x)) & 3u8
}

/// The palette entry a draw-color register selects: none for 0 (transparent), else
/// `(index - 1) & 3` for its low four bits.
pub open spec fn draw_color(draw_colors: u16) -> Option<u8> {
    let p = (draw_colors & 0xfu16) as u8;
    if p == 0 {
        None
    } else {
        Some(((p - 1) as u8) & 3u8)
    }
}

proof fn lemma_field_write(b: u8, c: u8, s: u8, t: u8)
    by (bit_vector)
    requires
        c <= 3,
        s == 0 || s == 2 || s == 4 || s == 6,
        t == 0 || t == 2 || t == 4 || t == 6,
    ensures
        ((((c << s) | (b & !(3u8 << s))) >> s) & 3u8) == c,
        t != s ==> ((((c << s) | (b & !(3u8 << s))) >> t) & 3u8) == ((b >> t) & 3u8),
{
}

/// Writes pixel `(x, y)` of a packed 2-bit framebuffer in the color the draw-color register
/// selects; a transparent register leaves the framebuffer unchanged. Every other pixel keeps
/// its color.
pub fn pixel(framebuffer: &mut Vec<u8>, draw_colors: u16, x: usize, y: usize)
    requires
        old(framebuffer)@.len() == FRAMEBUFFER_LEN,
        x < 160,
        y < 160,
    ensures
        final(framebuffer)@.len() == FRAMEBUFFER_LEN,
        draw_color(draw_colors) is None ==> final(framebuffer)@ == old(framebuffer)@,
        draw_color(draw_colors) is Some ==> pixel_of(final(framebuffer)@, x as int, y as int)
            == draw_color(draw_colors)->0,
        forall|x2: int, y2: int|
            0 <= x2 < 160 && 0 <= y2 < 160 && (x2 != x || y2 != y) ==> #[trigger] pixel_of(
                final(framebuffer)@,
                x2,
                y2,
            ) == pixel_of(old(framebuffer)@, x2, y2),
{
    let idx: usize = (y * 160 + x) / 4;
    let shift: u8 = ((x % 4) * 2) as u8;
    let mask: u8 = 3u8 << shift;
    let palette_color: u8 = (draw_colors & 0xf) as u8;
    if palette_color == 0 {
        return;
    }
    let color: u8 = (palette_color - 1) & 3;
    assert(color <= 3) by (bit_vector)
        requires
            color == (palette_color - 1) as u8 & 3u8,
    ;
    let old_byte = framebuffer[idx];
    framebuffer.set(idx, (color << shift) | (old_byte & !mask));
    proof {
        assert forall|x2: int, y2: int|
            0 <= x2 < 160 && 0 <= y2 < 160 && (x2 != x || y2 != y) implies #[trigger] pixel_of(
                framebuffer@,
                x2,
                y2,
            ) == pixel_of(old(framebuffer)@, x2, y2) by {
            if pixel_byte(x2, y2) == idx {
                assert(x2 % 4 != x % 4);
                lemma_field_write(old_byte, color, shift, pixel_shift(x2));
            }
        }
        lemma_field_write(old_byte, color, shift, shift);
    }
}

} // verus!
