//! The packed monochrome bitmap: 64 x 32 pixels, eight to a byte, row by row,
//! the leftmost pixel of a byte in its highest bit.

use vstd::prelude::*;

verus! {

/// Pixels in a row.
pub const DISPLAY_WIDTH: usize = 64;

/// Rows of pixels.
pub const DISPLAY_HEIGHT: usize = 32;

/// Bytes in the packed bitmap.
pub const DISPLAY_SIZE: usize = 256;

/// Whether pixel `k` of a packed byte is lit; pixel 0 is the leftmost.
pub open spec fn bit_at(byte: u8, k: int) -> bool {
    byte & (0x80u8 >> (k as u8)) != 0
}

/// The byte whose eight pixels are `f(0)` to `f(7)`.
pub open spec fn pack(f: spec_fn(int) -> bool) -> u8 {
    pack_bits(f(0), f(1), f(2), f(3), f(4), f(5), f(6), f(7))
}

/// The byte with the given pixels, leftmost first.
pub open spec fn pack_bits(
    b0: bool,
    b1: bool,
    b2: bool,
    b3: bool,
    b4: bool,
    b5: bool,
    b6: bool,
    b7: bool,
) -> u8 {
    (if b0 { 0x80u8 } else { 0u8 }) | (if b1 { 0x40u8 } else { 0u8 })
        | (if b2 { 0x20u8 } else { 0u8 }) | (if b3 { 0x10u8 } else { 0u8 })
        | (if b4 { 0x08u8 } else { 0u8 }) | (if b5 { 0x04u8 } else { 0u8 })
        | (if b6 { 0x02u8 } else { 0u8 }) | (if b7 { 0x01u8 } else { 0u8 })
}

/// Whether the pixel in column `x` of row `y` is lit.
pub open spec fn pixel_on(display: Seq<u8>, x: int, y: int) -> bool {
    bit_at(display[y * 8 + x / 8], x % 8)
}

/// Reads one pixel of a packed bitmap. Outside the display no pixel is lit.
pub fn pixel_at(display: &[u8; DISPLAY_SIZE], x: usize, y: usize) -> (on: bool)
    ensures
        on == (x < 64 && y < 32 && pixel_on(display@, x as int, y as int)),
{
    if x < DISPLAY_WIDTH && y < DISPLAY_HEIGHT {
        display[y * 8 + x / 8] & (0x80u8 >> ((x % 8) as u8)) != 0
    } else {
        false
    }
}

/// Whether a sprite whose top left corner is at `(x0, y0)` has a set bit on the
/// pixel `(x, y)`. Row `r` of the sprite is the byte `sprite[r]`; the sprite
/// wraps round both edges of the display.
pub open spec fn sprite_pixel(sprite: Seq<u8>, x0: int, y0: int, x: int, y: int) -> bool {
    let col = (x - x0) % 64;
    let row = (y - y0) % 32;
    col < 8 && row < sprite.len() && bit_at(sprite[row], col)
}

/// The bitmap after the sprite is drawn at `(x0, y0)`: every pixel on which
/// the sprite has a set bit is flipped, every other pixel stays.
pub open spec fn drawn(display: Seq<u8>, sprite: Seq<u8>, x0: int, y0: int) -> Seq<u8> {
    Seq::new(
        256,
        |idx: int|
            pack(
                |k: int|
                    pixel_on(display, (idx % 8) * 8 + k, idx / 8) != sprite_pixel(
                        sprite,
                        x0,
                        y0,
                        (idx % 8) * 8 + k,
                        idx / 8,
                    ),
            ),
    )
}

/// Whether drawing the sprite at `(x0, y0)` turns a lit pixel off.
pub open spec fn collides(display: Seq<u8>, sprite: Seq<u8>, x0: int, y0: int) -> bool {
    exists|x: int, y: int|
        0 <= x < 64 && 0 <= y < 32 && #[trigger] pixel_on(display, x, y) && sprite_pixel(
            sprite,
            x0,
            y0,
            x,
            y,
        )
}

/// The bitmap with every pixel off.
pub open spec fn blank() -> Seq<u8> {
    Seq::new(256, |idx: int| 0u8)
}

proof fn lemma_pack_bits_at(
    b0: bool,
    b1: bool,
    b2: bool,
    b3: bool,
    b4: bool,
    b5: bool,
    b6: bool,
    b7: bool,
)
    by (bit_vector)
    ensures
        (pack_bits(b0, b1, b2, b3, b4, b5, b6, b7) & 0x80u8 != 0) == b0,
        (pack_bits(b0, b1, b2, b3, b4, b5, b6, b7) & 0x40u8 != 0) == b1,
        (pack_bits(b0, b1, b2, b3, b4, b5, b6, b7) & 0x20u8 != 0) == b2,
        (pack_bits(b0, b1, b2, b3, b4, b5, b6, b7) & 0x10u8 != 0) == b3,
        (pack_bits(b0, b1, b2, b3, b4, b5, b6, b7) & 0x08u8 != 0) == b4,
        (pack_bits(b0, b1, b2, b3, b4, b5, b6, b7) & 0x04u8 != 0) == b5,
        (pack_bits(b0, b1, b2, b3, b4, b5, b6, b7) & 0x02u8 != 0) == b6,
        (pack_bits(b0, b1, b2, b3, b4, b5, b6, b7) & 0x01u8 != 0) == b7,
{
}

proof fn lemma_masks()
    by (bit_vector)
    ensures
        0x80u8 >> 0u8 == 0x80u8,
        0x80u8 >> 1u8 == 0x40u8,
        0x80u8 >> 2u8 == 0x20u8,
        0x80u8 >> 3u8 == 0x10u8,
        0x80u8 >> 4u8 == 0x08u8,
        0x80u8 >> 5u8 == 0x04u8,
        0x80u8 >> 6u8 == 0x02u8,
        0x80u8 >> 7u8 == 0x01u8,
{
}

proof fn lemma_byte_of_bits(b: u8)
    by (bit_vector)
    ensures
        b == pack_bits(
            b & 0x80u8 != 0,
            b & 0x40u8 != 0,
            b & 0x20u8 != 0,
            b & 0x10u8 != 0,
            b & 0x08u8 != 0,
            b & 0x04u8 != 0,
            b & 0x02u8 != 0,
            b & 0x01u8 != 0,
        ),
{
}

/// Pixel `k` of `pack(f)` is `f(k)`.
pub proof fn lemma_bit_at_pack(f: spec_fn(int) -> bool, k: int)
    requires
        0 <= k < 8,
    ensures
        bit_at(pack(f), k) == f(k),
{
    lemma_masks();
    lemma_pack_bits_at(f(0), f(1), f(2), f(3), f(4), f(5), f(6), f(7));
}

/// A byte is determined by its eight pixels.
pub proof fn lemma_pack_unique(b: u8, f: spec_fn(int) -> bool)
    requires
        forall|k: int| 0 <= k < 8 ==> bit_at(b, k) == #[trigger] f(k),
    ensures
        b == pack(f),
{
    lemma_masks();
    lemma_byte_of_bits(b);
    assert(bit_at(b, 0) == f(0));
    assert(bit_at(b, 1) == f(1));
    assert(bit_at(b, 2) == f(2));
    assert(bit_at(b, 3) == f(3));
    assert(bit_at(b, 4) == f(4));
    assert(bit_at(b, 5) == f(5));
    assert(bit_at(b, 6) == f(6));
    assert(bit_at(b, 7) == f(7));
}

/// Flipping pixel `j` of a byte flips that pixel and no other.
pub proof fn lemma_bit_at_flip(b: u8, j: int, k: int)
    requires
        0 <= j < 8,
        0 <= k < 8,
    ensures
        bit_at(b ^ (0x80u8 >> (j as u8)), k) == (bit_at(b, k) != (j == k)),
{
    let j8: u8 = j as u8;
    let k8: u8 = k as u8;
    assert(((b ^ (0x80u8 >> j8)) & (0x80u8 >> k8) != 0) == ((b & (0x80u8 >> k8) != 0) != (j8
        == k8))) by (bit_vector)
        requires
            j8 < 8,
            k8 < 8,
    ;
}

/// Each pixel of `drawn` is the old pixel, flipped where the sprite has a set
/// bit.
pub proof fn lemma_drawn_pixel(
    display: Seq<u8>,
    sprite: Seq<u8>,
    x0: int,
    y0: int,
    x: int,
    y: int,
)
    requires
        0 <= x < 64,
        0 <= y < 32,
    ensures
        pixel_on(drawn(display, sprite, x0, y0), x, y) == (pixel_on(display, x, y) != sprite_pixel(
            sprite,
            x0,
            y0,
            x,
            y,
        )),
{
    let idx = y * 8 + x / 8;
    let f = |k: int|
        pixel_on(display, (idx % 8) * 8 + k, idx / 8) != sprite_pixel(
            sprite,
            x0,
            y0,
            (idx % 8) * 8 + k,
            idx / 8,
        );
    assert(idx / 8 == y && (idx % 8) * 8 + x % 8 == x);
    assert(drawn(display, sprite, x0, y0)[idx] == pack(f));
    lemma_bit_at_pack(f, x % 8);
}

/// Two bitmaps with the same pixels are the same bitmap.
pub proof fn lemma_same_pixels(a: Seq<u8>, b: Seq<u8>)
    requires
        a.len() == 256,
        b.len() == 256,
        forall|x: int, y: int|
            0 <= x < 64 && 0 <= y < 32 ==> #[trigger] pixel_on(a, x, y) == pixel_on(b, x, y),
    ensures
        a == b,
{
    assert forall|idx: int| 0 <= idx < 256 implies a[idx] == b[idx] by {
        let f = |k: int| bit_at(b[idx], k);
        assert forall|k: int| 0 <= k < 8 implies bit_at(a[idx], k) == #[trigger] f(k) by {
            let x = (idx % 8) * 8 + k;
            let y = idx / 8;
            assert(y * 8 + x / 8 == idx && x % 8 == k);
            assert(pixel_on(a, x, y) == pixel_on(b, x, y));
        }
        lemma_pack_unique(a[idx], f);
        lemma_pack_unique(b[idx], f);
    }
    assert(a =~= b);
}

/// Whether the sprite has a set bit on the pixel `(x, y)` that comes before
/// bit `col` of row `row` when the sprite is drawn row by row, left to right.
pub open spec fn sprite_pixel_before(
    sprite: Seq<u8>,
    x0: int,
    y0: int,
    row: int,
    col: int,
    x: int,
    y: int,
) -> bool {
    let c = (x - x0) % 64;
    let r = (y - y0) % 32;
    sprite_pixel(sprite, x0, y0, x, y) && (r < row || (r == row && c < col))
}

/// `display` is `before` with the sprite drawn up to bit `col` of row `row`.
pub open spec fn painted(
    display: Seq<u8>,
    before: Seq<u8>,
    sprite: Seq<u8>,
    x0: int,
    y0: int,
    row: int,
    col: int,
) -> bool {
    &&& display.len() == 256
    &&& before.len() == 256
    &&& forall|x: int, y: int|
        0 <= x < 64 && 0 <= y < 32 ==> #[trigger] pixel_on(display, x, y) == (pixel_on(
            before,
            x,
            y,
        ) != sprite_pixel_before(sprite, x0, y0, row, col, x, y))
}

/// Whether the part of the sprite before bit `col` of row `row` covers a
/// pixel that was lit in `before`.
pub open spec fn collides_before(
    before: Seq<u8>,
    sprite: Seq<u8>,
    x0: int,
    y0: int,
    row: int,
    col: int,
) -> bool {
    exists|x: int, y: int|
        0 <= x < 64 && 0 <= y < 32 && #[trigger] pixel_on(before, x, y) && sprite_pixel_before(
            sprite,
            x0,
            y0,
            row,
            col,
            x,
            y,
        )
}

/// Before the first bit nothing is drawn.
pub proof fn lemma_paint_start(before: Seq<u8>, sprite: Seq<u8>, x0: int, y0: int)
    requires
        before.len() == 256,
    ensures
        painted(before, before, sprite, x0, y0, 0, 0),
        !collides_before(before, sprite, x0, y0, 0, 0),
{
}

/// A clear bit of the sprite changes nothing.
pub proof fn lemma_paint_skip(
    display: Seq<u8>,
    before: Seq<u8>,
    sprite: Seq<u8>,
    x0: int,
    y0: int,
    row: int,
    col: int,
)
    requires
        painted(display, before, sprite, x0, y0, row, col),
        0 <= row < sprite.len(),
        0 <= col < 8,
        !bit_at(sprite[row], col),
    ensures
        painted(display, before, sprite, x0, y0, row, col + 1),
        collides_before(before, sprite, x0, y0, row, col + 1) == collides_before(
            before,
            sprite,
            x0,
            y0,
            row,
            col,
        ),
{
    assert forall|x: int, y: int| 0 <= x < 64 && 0 <= y < 32 implies sprite_pixel_before(
        sprite,
        x0,
        y0,
        row,
        col + 1,
        x,
        y,
    ) == sprite_pixel_before(sprite, x0, y0, row, col, x, y) by {}
    if collides_before(before, sprite, x0, y0, row, col + 1) {
        let (x, y) = choose|x: int, y: int|
            0 <= x < 64 && 0 <= y < 32 && #[trigger] pixel_on(before, x, y)
                && sprite_pixel_before(sprite, x0, y0, row, col + 1, x, y);
        assert(pixel_on(before, x, y) && sprite_pixel_before(sprite, x0, y0, row, col, x, y));
    }
    if collides_before(before, sprite, x0, y0, row, col) {
        let (x, y) = choose|x: int, y: int|
            0 <= x < 64 && 0 <= y < 32 && #[trigger] pixel_on(before, x, y)
                && sprite_pixel_before(sprite, x0, y0, row, col, x, y);
        assert(pixel_on(before, x, y) && sprite_pixel_before(sprite, x0, y0, row, col + 1, x, y));
    }
}

/// The byte and the mask of the pixel `(x, y)`, and the bitmap with that one
/// pixel flipped.
pub open spec fn flipped(display: Seq<u8>, x: int, y: int) -> Seq<u8> {
    let index = y * 8 + x / 8;
    display.update(index, display[index] ^ (0x80u8 >> ((x % 8) as u8)))
}

/// Flipping the pixel `(px, py)` changes that pixel and no other.
pub proof fn lemma_flipped_pixel(display: Seq<u8>, px: int, py: int, x: int, y: int)
    requires
        display.len() == 256,
        0 <= px < 64,
        0 <= py < 32,
        0 <= x < 64,
        0 <= y < 32,
    ensures
        pixel_on(flipped(display, px, py), x, y) == (pixel_on(display, x, y) != (x == px && y
            == py)),
{
    let index = py * 8 + px / 8;
    if y * 8 + x / 8 == index {
        assert(y == py && x / 8 == px / 8);
        lemma_bit_at_flip(display[index], px % 8, x % 8);
        if x % 8 == px % 8 {
            assert(x == px);
        }
    }
}

/// Bit `col` of row `row` of a sprite at `(x0, y0)` falls on one pixel only.
pub proof fn lemma_sprite_target(x0: int, y0: int, row: int, col: int, x: int, y: int)
    requires
        0 <= x0,
        0 <= y0,
        0 <= row < 32,
        0 <= col < 64,
        0 <= x < 64,
        0 <= y < 32,
    ensures
        ((x - x0) % 64 == col) == (x == (x0 + col) % 64),
        ((y - y0) % 32 == row) == (y == (y0 + row) % 32),
{
}

/// A set bit of the sprite flips the one pixel it falls on, and collides if
/// that pixel was lit.
pub proof fn lemma_paint_flip(
    display: Seq<u8>,
    before: Seq<u8>,
    sprite: Seq<u8>,
    x0: int,
    y0: int,
    row: int,
    col: int,
)
    requires
        painted(display, before, sprite, x0, y0, row, col),
        0 <= row < sprite.len(),
        sprite.len() <= 32,
        0 <= col < 8,
        0 <= x0,
        0 <= y0,
        bit_at(sprite[row], col),
    ensures
        painted(
            flipped(display, (x0 + col) % 64, (y0 + row) % 32),
            before,
            sprite,
            x0,
            y0,
            row,
            col + 1,
        ),
        pixel_on(display, (x0 + col) % 64, (y0 + row) % 32) == pixel_on(
            before,
            (x0 + col) % 64,
            (y0 + row) % 32,
        ),
        collides_before(before, sprite, x0, y0, row, col + 1) == (collides_before(
            before,
            sprite,
            x0,
            y0,
            row,
            col,
        ) || pixel_on(before, (x0 + col) % 64, (y0 + row) % 32)),
{
    let px = (x0 + col) % 64;
    let py = (y0 + row) % 32;
    let after = flipped(display, px, py);
    assert forall|x: int, y: int| 0 <= x < 64 && 0 <= y < 32 implies sprite_pixel_before(
        sprite,
        x0,
        y0,
        row,
        col + 1,
        x,
        y,
    ) == (sprite_pixel_before(sprite, x0, y0, row, col, x, y) || (x == px && y == py)) by {
        lemma_sprite_target(x0, y0, row, col, x, y);
    }
    assert(!sprite_pixel_before(sprite, x0, y0, row, col, px, py)) by {
        lemma_sprite_target(x0, y0, row, col, px, py);
    }
    assert(pixel_on(display, px, py) == pixel_on(before, px, py));
    assert forall|x: int, y: int| 0 <= x < 64 && 0 <= y < 32 implies #[trigger] pixel_on(
        after,
        x,
        y,
    ) == (pixel_on(before, x, y) != sprite_pixel_before(sprite, x0, y0, row, col + 1, x, y)) by {
        lemma_flipped_pixel(display, px, py, x, y);
        assert(pixel_on(display, x, y) == (pixel_on(before, x, y) != sprite_pixel_before(
            sprite,
            x0,
            y0,
            row,
            col,
            x,
            y,
        )));
    }
    if collides_before(before, sprite, x0, y0, row, col + 1) {
        let (x, y) = choose|x: int, y: int|
            0 <= x < 64 && 0 <= y < 32 && #[trigger] pixel_on(before, x, y)
                && sprite_pixel_before(sprite, x0, y0, row, col + 1, x, y);
        if !(x == px && y == py) {
            assert(pixel_on(before, x, y) && sprite_pixel_before(sprite, x0, y0, row, col, x, y));
        }
    }
    if collides_before(before, sprite, x0, y0, row, col) {
        let (x, y) = choose|x: int, y: int|
            0 <= x < 64 && 0 <= y < 32 && #[trigger] pixel_on(before, x, y)
                && sprite_pixel_before(sprite, x0, y0, row, col, x, y);
        assert(pixel_on(before, x, y) && sprite_pixel_before(sprite, x0, y0, row, col + 1, x, y));
    }
    if pixel_on(before, px, py) {
        assert(pixel_on(before, px, py) && sprite_pixel_before(
            sprite,
            x0,
            y0,
            row,
            col + 1,
            px,
            py,
        ));
    }
}

/// After the last bit of a row comes the first bit of the next.
pub proof fn lemma_paint_next_row(
    display: Seq<u8>,
    before: Seq<u8>,
    sprite: Seq<u8>,
    x0: int,
    y0: int,
    row: int,
)
    requires
        painted(display, before, sprite, x0, y0, row, 8),
    ensures
        painted(display, before, sprite, x0, y0, row + 1, 0),
        collides_before(before, sprite, x0, y0, row + 1, 0) == collides_before(
            before,
            sprite,
            x0,
            y0,
            row,
            8,
        ),
{
    assert forall|x: int, y: int| 0 <= x < 64 && 0 <= y < 32 implies sprite_pixel_before(
        sprite,
        x0,
        y0,
        row + 1,
        0,
        x,
        y,
    ) == sprite_pixel_before(sprite, x0, y0, row, 8, x, y) by {}
    if collides_before(before, sprite, x0, y0, row + 1, 0) {
        let (x, y) = choose|x: int, y: int|
            0 <= x < 64 && 0 <= y < 32 && #[trigger] pixel_on(before, x, y)
                && sprite_pixel_before(sprite, x0, y0, row + 1, 0, x, y);
        assert(pixel_on(before, x, y) && sprite_pixel_before(sprite, x0, y0, row, 8, x, y));
    }
    if collides_before(before, sprite, x0, y0, row, 8) {
        let (x, y) = choose|x: int, y: int|
            0 <= x < 64 && 0 <= y < 32 && #[trigger] pixel_on(before, x, y)
                && sprite_pixel_before(sprite, x0, y0, row, 8, x, y);
        assert(pixel_on(before, x, y) && sprite_pixel_before(sprite, x0, y0, row + 1, 0, x, y));
    }
}

/// Once every row is drawn, the display is `drawn` and the collision is
/// `collides`.
pub proof fn lemma_paint_done(
    display: Seq<u8>,
    before: Seq<u8>,
    sprite: Seq<u8>,
    x0: int,
    y0: int,
)
    requires
        painted(display, before, sprite, x0, y0, sprite.len() as int, 0),
    ensures
        display == drawn(before, sprite, x0, y0),
        collides_before(before, sprite, x0, y0, sprite.len() as int, 0) == collides(
            before,
            sprite,
            x0,
            y0,
        ),
{
    let rows = sprite.len() as int;
    assert forall|x: int, y: int| 0 <= x < 64 && 0 <= y < 32 implies sprite_pixel_before(
        sprite,
        x0,
        y0,
        rows,
        0,
        x,
        y,
    ) == sprite_pixel(sprite, x0, y0, x, y) by {}
    let result = drawn(before, sprite, x0, y0);
    assert forall|idx: int| 0 <= idx < 256 implies display[idx] == result[idx] by {
        let f = |k: int|
            pixel_on(before, (idx % 8) * 8 + k, idx / 8) != sprite_pixel(
                sprite,
                x0,
                y0,
                (idx % 8) * 8 + k,
                idx / 8,
            );
        assert forall|k: int| 0 <= k < 8 implies bit_at(display[idx], k) == #[trigger] f(k) by {
            let x = (idx % 8) * 8 + k;
            let y = idx / 8;
            assert(y * 8 + x / 8 == idx && x % 8 == k);
            assert(pixel_on(display, x, y) == bit_at(display[idx], k));
        }
        lemma_pack_unique(display[idx], f);
    }
    assert(display =~= result);
    if collides_before(before, sprite, x0, y0, rows, 0) {
        let (x, y) = choose|x: int, y: int|
            0 <= x < 64 && 0 <= y < 32 && #[trigger] pixel_on(before, x, y)
                && sprite_pixel_before(sprite, x0, y0, rows, 0, x, y);
        assert(pixel_on(before, x, y) && sprite_pixel(sprite, x0, y0, x, y));
    }
    if collides(before, sprite, x0, y0) {
        let (x, y) = choose|x: int, y: int|
            0 <= x < 64 && 0 <= y < 32 && #[trigger] pixel_on(before, x, y) && sprite_pixel(
                sprite,
                x0,
                y0,
                x,
                y,
            );
        assert(pixel_on(before, x, y) && sprite_pixel_before(sprite, x0, y0, rows, 0, x, y));
    }
}

} // verus!
