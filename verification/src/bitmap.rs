//! Packing cells of a sprite sheet into glyph bitmaps.
//!
//! A glyph is 32 bytes, 256 bits. Pixel `(x, y)` of a cell of side `size` is
//! bit `x + y * size`; bit `idx` lives in byte `idx / 8`, most significant
//! bit first. Stamping a cell sets the bits of its ink pixels and leaves
//! every other bit as it was.

use crate::sprite::SpriteSheet;
use vstd::arithmetic::div_mod::lemma_fundamental_div_mod_converse;
use vstd::prelude::*;

verus! {

/// Number of bytes of a glyph.
pub const GLYPH_BYTES: usize = 32;

/// Largest cell side whose pixels fit the 256 bits of a glyph.
pub const MAX_CELL_SIZE: u32 = 16;

/// Bit `j` of a byte, counted from the most significant.
pub open spec fn byte_bit(b: u8, j: u8) -> bool {
    b & (0x80u8 >> j) != 0
}

/// Bit `idx` of a glyph.
pub open spec fn glyph_bit(glyph: Seq<u8>, idx: int) -> bool {
    byte_bit(glyph[idx / 8], (idx % 8) as u8)
}

/// The byte whose bits, most significant first, are the eight given.
pub open spec fn pack8(
    b0: bool,
    b1: bool,
    b2: bool,
    b3: bool,
    b4: bool,
    b5: bool,
    b6: bool,
    b7: bool,
) -> u8 {
    (if b0 { 0x80u8 } else { 0u8 }) | (if b1 { 0x40u8 } else { 0u8 }) | (if b2 { 0x20u8 } else { 0u8 })
        | (if b3 { 0x10u8 } else { 0u8 }) | (if b4 { 0x08u8 } else { 0u8 }) | (if b5 { 0x04u8 } else { 0u8 })
        | (if b6 { 0x02u8 } else { 0u8 }) | (if b7 { 0x01u8 } else { 0u8 })
}

/// Whether bit `idx` belongs to an ink pixel of the cell of side `size`
/// whose top left pixel is `(x0, y0)`.
pub open spec fn cell_ink(sheet: &SpriteSheet, x0: int, y0: int, size: int, idx: int) -> bool {
    0 <= idx < size * size && sheet.spec_pixel(x0 + idx % size, y0 + idx / size).is_ink()
}

/// Bit `idx` of the canvas after the cell was stamped on it.
pub open spec fn stamp_bit(
    canvas: Seq<u8>,
    sheet: &SpriteSheet,
    x0: int,
    y0: int,
    size: int,
    idx: int,
) -> bool {
    glyph_bit(canvas, idx) || cell_ink(sheet, x0, y0, size, idx)
}

/// The canvas after the cell was stamped on it.
pub open spec fn stamp(canvas: Seq<u8>, sheet: &SpriteSheet, x0: int, y0: int, size: int) -> Seq<u8> {
    Seq::new(
        canvas.len(),
        |k: int|
            pack8(
                stamp_bit(canvas, sheet, x0, y0, size, 8 * k),
                stamp_bit(canvas, sheet, x0, y0, size, 8 * k + 1),
                stamp_bit(canvas, sheet, x0, y0, size, 8 * k + 2),
                stamp_bit(canvas, sheet, x0, y0, size, 8 * k + 3),
                stamp_bit(canvas, sheet, x0, y0, size, 8 * k + 4),
                stamp_bit(canvas, sheet, x0, y0, size, 8 * k + 5),
                stamp_bit(canvas, sheet, x0, y0, size, 8 * k + 6),
                stamp_bit(canvas, sheet, x0, y0, size, 8 * k + 7),
            ),
    )
}

proof fn lemma_set_bit(b: u8, j: u8, i: u8)
    by (bit_vector)
    requires
        j < 8,
        i < 8,
    ensures
        byte_bit(b | (0x80u8 >> j), i) == (byte_bit(b, i) || i == j),
{
}

proof fn lemma_pack8_bit(
    b0: bool,
    b1: bool,
    b2: bool,
    b3: bool,
    b4: bool,
    b5: bool,
    b6: bool,
    b7: bool,
)
    by (bit_vector)
    ensures
        byte_bit(pack8(b0, b1, b2, b3, b4, b5, b6, b7), 0) == b0,
        byte_bit(pack8(b0, b1, b2, b3, b4, b5, b6, b7), 1) == b1,
        byte_bit(pack8(b0, b1, b2, b3, b4, b5, b6, b7), 2) == b2,
        byte_bit(pack8(b0, b1, b2, b3, b4, b5, b6, b7), 3) == b3,
        byte_bit(pack8(b0, b1, b2, b3, b4, b5, b6, b7), 4) == b4,
        byte_bit(pack8(b0, b1, b2, b3, b4, b5, b6, b7), 5) == b5,
        byte_bit(pack8(b0, b1, b2, b3, b4, b5, b6, b7), 6) == b6,
        byte_bit(pack8(b0, b1, b2, b3, b4, b5, b6, b7), 7) == b7,
{
}

proof fn lemma_byte_of_bits(b: u8)
    by (bit_vector)
    ensures
        b == pack8(
            byte_bit(b, 0),
            byte_bit(b, 1),
            byte_bit(b, 2),
            byte_bit(b, 3),
            byte_bit(b, 4),
            byte_bit(b, 5),
            byte_bit(b, 6),
            byte_bit(b, 7),
        ),
{
}

/// A glyph is its bits: two glyphs of one length with the same bits are equal.
pub proof fn lemma_glyph_bits_decide(a: Seq<u8>, b: Seq<u8>)
    requires
        a.len() == b.len(),
        forall|idx: int| 0 <= idx < 8 * a.len() ==> glyph_bit(a, idx) == glyph_bit(b, idx),
    ensures
        a == b,
{
    assert forall|k: int| 0 <= k < a.len() implies a[k] == b[k] by {
        lemma_byte_of_bits(a[k]);
        lemma_byte_of_bits(b[k]);
        assert(glyph_bit(a, 8 * k) == glyph_bit(b, 8 * k));
        assert(glyph_bit(a, 8 * k + 1) == glyph_bit(b, 8 * k + 1));
        assert(glyph_bit(a, 8 * k + 2) == glyph_bit(b, 8 * k + 2));
        assert(glyph_bit(a, 8 * k + 3) == glyph_bit(b, 8 * k + 3));
        assert(glyph_bit(a, 8 * k + 4) == glyph_bit(b, 8 * k + 4));
        assert(glyph_bit(a, 8 * k + 5) == glyph_bit(b, 8 * k + 5));
        assert(glyph_bit(a, 8 * k + 6) == glyph_bit(b, 8 * k + 6));
        assert(glyph_bit(a, 8 * k + 7) == glyph_bit(b, 8 * k + 7));
    }
    assert(a =~= b);
}

/// Stamping sets exactly the bits of the cell's ink pixels: a bit of the
/// result is set when it was set before or belongs to an ink pixel.
pub proof fn lemma_stamp_bits(
    canvas: Seq<u8>,
    sheet: &SpriteSheet,
    x0: int,
    y0: int,
    size: int,
    idx: int,
)
    requires
        0 <= idx < 8 * canvas.len(),
    ensures
        stamp(canvas, sheet, x0, y0, size).len() == canvas.len(),
        glyph_bit(stamp(canvas, sheet, x0, y0, size), idx) == stamp_bit(
            canvas,
            sheet,
            x0,
            y0,
            size,
            idx,
        ),
{
    let k = idx / 8;
    lemma_pack8_bit(
        stamp_bit(canvas, sheet, x0, y0, size, 8 * k),
        stamp_bit(canvas, sheet, x0, y0, size, 8 * k + 1),
        stamp_bit(canvas, sheet, x0, y0, size, 8 * k + 2),
        stamp_bit(canvas, sheet, x0, y0, size, 8 * k + 3),
        stamp_bit(canvas, sheet, x0, y0, size, 8 * k + 4),
        stamp_bit(canvas, sheet, x0, y0, size, 8 * k + 5),
        stamp_bit(canvas, sheet, x0, y0, size, 8 * k + 6),
        stamp_bit(canvas, sheet, x0, y0, size, 8 * k + 7),
    );
}

/// Stamping is a bitwise OR, so the order of two stamps does not matter.
pub proof fn lemma_stamp_commutes(
    canvas: Seq<u8>,
    a: &SpriteSheet,
    ax: int,
    ay: int,
    asize: int,
    b: &SpriteSheet,
    bx: int,
    by: int,
    bsize: int,
)
    ensures
        stamp(stamp(canvas, a, ax, ay, asize), b, bx, by, bsize) == stamp(
            stamp(canvas, b, bx, by, bsize),
            a,
            ax,
            ay,
            asize,
        ),
{
    let ab = stamp(stamp(canvas, a, ax, ay, asize), b, bx, by, bsize);
    let ba = stamp(stamp(canvas, b, bx, by, bsize), a, ax, ay, asize);
    assert forall|idx: int| 0 <= idx < 8 * ab.len() implies glyph_bit(ab, idx) == glyph_bit(
        ba,
        idx,
    ) by {
        lemma_stamp_bits(canvas, a, ax, ay, asize, idx);
        lemma_stamp_bits(stamp(canvas, a, ax, ay, asize), b, bx, by, bsize, idx);
        lemma_stamp_bits(canvas, b, bx, by, bsize, idx);
        lemma_stamp_bits(stamp(canvas, b, bx, by, bsize), a, ax, ay, asize, idx);
    }
    lemma_glyph_bits_decide(ab, ba);
}

/// Stamps the cell of side `size` at `(from_x, from_y)` of the sheet on the
/// glyph `to`: the bit of every ink pixel of the cell is set, and no other
/// bit changes.
pub fn copy_sqr(size: u32, from_img: &SpriteSheet, from_x: u32, from_y: u32, to: &mut [u8; 32])
    requires
        size <= MAX_CELL_SIZE,
        size > 0 ==> from_x + size <= from_img.spec_width() && from_y + size
            <= from_img.spec_height(),
    ensures
        final(to)@ == stamp(old(to)@, from_img, from_x as int, from_y as int, size as int),
{
    let ghost before = to@;
    let mut y: u32 = 0;
    assert(size * size <= 256) by (nonlinear_arith)
        requires
            0 <= size <= 16,
    ;
    while y < size
        invariant
            y <= size <= 16,
            size * size <= 256,
            size > 0 ==> from_x + size <= from_img.spec_width() && from_y + size
                <= from_img.spec_height(),
            forall|idx: int|
                0 <= idx < 256 ==> #[trigger] glyph_bit(to@, idx) == (glyph_bit(before, idx) || (idx
                    < y * size && cell_ink(from_img, from_x as int, from_y as int, size as int, idx))),
        decreases size - y,
    {
        let mut x: u32 = 0;
        while x < size
            invariant
                y < size <= 16,
                x <= size,
                size * size <= 256,
                from_x + size <= from_img.spec_width(),
                from_y + size <= from_img.spec_height(),
                forall|idx: int|
                    0 <= idx < 256 ==> #[trigger] glyph_bit(to@, idx) == (glyph_bit(before, idx) || (
                    idx < y * size + x && cell_ink(
                        from_img,
                        from_x as int,
                        from_y as int,
                        size as int,
                        idx,
                    ))),
            decreases size - x,
        {
            assert(y * size + x < size * size) by (nonlinear_arith)
                requires
                    0 <= x < size,
                    0 <= y < size,
            ;
            assert(0 <= y * size) by (nonlinear_arith)
                requires
                    0 <= y,
                    0 <= size,
            ;
            let pixel = from_img.get_pixel(from_x + x, from_y + y);
            let to_idx: u32 = x + y * size;
            proof {
                lemma_fundamental_div_mod_converse(to_idx as int, size as int, y as int, x as int);
            }
            let ghost prev = to@;
            if pixel.is_ink() {
                let k: usize = (to_idx / 8) as usize;
                let j: u8 = (to_idx % 8) as u8;
                let byte: u8 = to[k];
                to[k] = byte | (0x80u8 >> j);
                proof {
                    assert forall|idx: int| 0 <= idx < 256 implies #[trigger] glyph_bit(to@, idx) == (
                    glyph_bit(prev, idx) || idx == to_idx) by {
                        if idx / 8 == k as int {
                            lemma_set_bit(byte, j, (idx % 8) as u8);
                        }
                    }
                }
            }
            x = x + 1;
        }
        assert(y * size + size == (y + 1) * size) by (nonlinear_arith);
        y = y + 1;
    }
    proof {
        let after = stamp(before, from_img, from_x as int, from_y as int, size as int);
        assert forall|idx: int| 0 <= idx < 8 * to@.len() implies glyph_bit(to@, idx) == glyph_bit(
            after,
            idx,
        ) by {
            lemma_stamp_bits(before, from_img, from_x as int, from_y as int, size as int, idx);
        }
        lemma_glyph_bits_decide(to@, after);
    }
}

} // verus!
