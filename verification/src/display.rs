//! The pixel grid and the way a sprite is combined with it.

use vstd::prelude::*;

verus! {

/// Pixels in a row of the display.
pub const FRAME_BUFFER_WIDTH: u16 = 64;

/// Rows of the display.
pub const FRAME_BUFFER_HEIGHT: u16 = 32;

/// The number of pixels.
pub const FRAME_BUFFER_CELLS: usize = 2048;

/// The width of every sprite, one pixel per bit of a row byte.
pub const SPRITE_WIDTH: u8 = 8;

/// A display with every pixel dark.
pub open spec fn blank() -> Seq<bool> {
    Seq::new(FRAME_BUFFER_CELLS as nat, |p: int| false)
}

/// The weight, in a row byte, of the bit for column `column` of a sprite,
/// counted from the left: the leftmost column is the highest bit.
pub open spec fn column_weight(column: u8) -> u8 {
    if column == 0 {
        128
    } else if column == 1 {
        64
    } else if column == 2 {
        32
    } else if column == 3 {
        16
    } else if column == 4 {
        8
    } else if column == 5 {
        4
    } else if column == 6 {
        2
    } else {
        1
    }
}

/// Whether a sprite row lights its column `column`.
pub open spec fn row_bit(row: u8, column: u8) -> bool {
    row / column_weight(column) % 2 == 1
}

/// Whether the sprite, put with its top left corner at `(left, top)`,
/// has a lit bit over the pixel at `(column, line)`.
pub open spec fn sprite_covers(sprite: Seq<u8>, left: int, top: int, column: int, line: int) -> bool {
    &&& top <= line < top + sprite.len()
    &&& left <= column < left + SPRITE_WIDTH
    &&& row_bit(sprite[line - top], (column - left) as u8)
}

/// Whether drawing the sprite at `(left, top)` flips pixel number `p`.
/// Pixels are numbered row by row, so that a sprite reaching past the right
/// or the bottom edge flips nothing there: it is clipped, not wrapped.
pub open spec fn flips(sprite: Seq<u8>, left: int, top: int, p: int) -> bool {
    sprite_covers(sprite, left, top, p % (FRAME_BUFFER_WIDTH as int), p / (FRAME_BUFFER_WIDTH as int))
}

/// The display after the sprite is drawn at `(left, top)`: each pixel under
/// a lit sprite bit is inverted, every other pixel stays.
pub open spec fn drawn(display: Seq<bool>, sprite: Seq<u8>, left: int, top: int) -> Seq<bool> {
    Seq::new(display.len(), |p: int| display[p] != flips(sprite, left, top, p))
}

/// Whether drawing the sprite at `(left, top)` puts out a lit pixel.
pub open spec fn collides(display: Seq<bool>, sprite: Seq<u8>, left: int, top: int) -> bool {
    exists|p: int| 0 <= p < display.len() && #[trigger] display[p] && flips(sprite, left, top, p)
}

/// Byte number `k` of `color`, lowest first.
pub open spec fn color_byte(color: u32, k: int) -> u8 {
    if k == 0 {
        (color % 256) as u8
    } else if k == 1 {
        (color / 0x100 % 256) as u8
    } else if k == 2 {
        (color / 0x1_0000 % 256) as u8
    } else {
        (color / 0x100_0000 % 256) as u8
    }
}

/// The display as a texture of four bytes per pixel: each pixel is its
/// colour, `foreground` where lit and `background` where dark, lowest byte first.
pub open spec fn rendered(display: Seq<bool>, foreground: u32, background: u32) -> Seq<u8> {
    Seq::new(
        4 * display.len(),
        |b: int| color_byte(if display[b / 4] { foreground } else { background }, b % 4),
    )
}

/// Whether drawing would put out pixel number `p`: it is lit and flipped.
spec fn puts_out(display: Seq<bool>, sprite: Seq<u8>, left: int, top: int, p: int) -> bool {
    display[p] && flips(sprite, left, top, p)
}

/// Whether pixel number `p` lies above row `line`, or in it left of `column`.
spec fn before(p: int, line: int, column: int) -> bool {
    p / 64 < line || (p / 64 == line && p % 64 < column)
}

/// Whether drawing would put out a pixel that lies before `(column, line)`.
spec fn collides_before(
    display: Seq<bool>,
    sprite: Seq<u8>,
    left: int,
    top: int,
    line: int,
    column: int,
) -> bool {
    exists|p: int|
        0 <= p < display.len() && #[trigger] puts_out(display, sprite, left, top, p) && before(
            p,
            line,
            column,
        )
}

/// The display while the sprite is being drawn: the pixels before
/// `(column, line)` are done, the others still as they were.
spec fn drawn_before(
    display: Seq<bool>,
    sprite: Seq<u8>,
    left: int,
    top: int,
    line: int,
    column: int,
) -> Seq<bool> {
    Seq::new(
        display.len(),
        |p: int| display[p] != (flips(sprite, left, top, p) && before(p, line, column)),
    )
}

/// Taking in one more pixel of a row adds just that pixel's collision.
proof fn lemma_collides_next(
    display: Seq<bool>,
    sprite: Seq<u8>,
    left: int,
    top: int,
    line: int,
    column: int,
)
    requires
        display.len() == 2048,
        0 <= line < 32,
        0 <= column < 64,
    ensures
        collides_before(display, sprite, left, top, line, column + 1) == (collides_before(
            display,
            sprite,
            left,
            top,
            line,
            column,
        ) || puts_out(display, sprite, left, top, line * 64 + column)),
{
    let q = line * 64 + column;
    assert(q / 64 == line && q % 64 == column);
    if collides_before(display, sprite, left, top, line, column + 1) {
        let p = choose|p: int|
            0 <= p < display.len() && #[trigger] puts_out(display, sprite, left, top, p) && before(
                p,
                line,
                column + 1,
            );
        if p != q {
            assert(before(p, line, column));
        }
    }
    if collides_before(display, sprite, left, top, line, column) {
        let p = choose|p: int|
            0 <= p < display.len() && #[trigger] puts_out(display, sprite, left, top, p) && before(
                p,
                line,
                column,
            );
        assert(before(p, line, column + 1));
    }
    if puts_out(display, sprite, left, top, q) {
        assert(before(q, line, column + 1));
    }
}

/// Past the sprite's right edge, or the display's, nothing is left to collide in a row.
proof fn lemma_collides_row(
    display: Seq<bool>,
    sprite: Seq<u8>,
    left: int,
    top: int,
    line: int,
    column: int,
)
    requires
        display.len() == 2048,
        column >= left + 8 || column >= 64,
    ensures
        collides_before(display, sprite, left, top, line, column) == collides_before(
            display,
            sprite,
            left,
            top,
            line + 1,
            0,
        ),
        drawn_before(display, sprite, left, top, line, column) == drawn_before(
            display,
            sprite,
            left,
            top,
            line + 1,
            0,
        ),
{
    if collides_before(display, sprite, left, top, line, column) {
        let p = choose|p: int|
            0 <= p < display.len() && #[trigger] puts_out(display, sprite, left, top, p) && before(
                p,
                line,
                column,
            );
        assert(before(p, line + 1, 0));
    }
    if collides_before(display, sprite, left, top, line + 1, 0) {
        let p = choose|p: int|
            0 <= p < display.len() && #[trigger] puts_out(display, sprite, left, top, p) && before(
                p,
                line + 1,
                0,
            );
        assert(before(p, line, column));
    }
    assert(drawn_before(display, sprite, left, top, line, column) =~= drawn_before(
        display,
        sprite,
        left,
        top,
        line + 1,
        0,
    ));
}

/// Below the sprite's last row, or the display's, nothing is left at all.
proof fn lemma_collides_all(display: Seq<bool>, sprite: Seq<u8>, left: int, top: int, line: int)
    requires
        display.len() == 2048,
        line >= top + sprite.len() || line >= 32,
    ensures
        collides_before(display, sprite, left, top, line, 0) == collides(
            display,
            sprite,
            left,
            top,
        ),
        drawn_before(display, sprite, left, top, line, 0) == drawn(display, sprite, left, top),
{
    if collides_before(display, sprite, left, top, line, 0) {
        let p = choose|p: int|
            0 <= p < display.len() && #[trigger] puts_out(display, sprite, left, top, p) && before(
                p,
                line,
                0,
            );
        assert(display[p] && flips(sprite, left, top, p));
    }
    if collides(display, sprite, left, top) {
        let p = choose|p: int|
            0 <= p < display.len() && #[trigger] display[p] && flips(sprite, left, top, p);
        assert(puts_out(display, sprite, left, top, p) && before(p, line, 0));
    }
    assert(drawn_before(display, sprite, left, top, line, 0) =~= drawn(display, sprite, left, top));
}

/// Writes the display out as a texture of four bytes per pixel in the
/// colours given, each colour with its lowest byte first.
pub fn render(display: &[bool; FRAME_BUFFER_CELLS], foreground: u32, background: u32) -> (texture: Vec<u8>)
    ensures
        texture@ == rendered(display@, foreground, background),
{
    let mut texture: Vec<u8> = Vec::with_capacity(4 * FRAME_BUFFER_CELLS);
    let mut p: usize = 0;
    while p < FRAME_BUFFER_CELLS
        invariant
            p <= FRAME_BUFFER_CELLS,
            texture@.len() == 4 * p,
            forall|b: int|
                0 <= b < 4 * p ==> texture@[b] == color_byte(
                    if display@[b / 4] {
                        foreground
                    } else {
                        background
                    },
                    b % 4,
                ),
        decreases FRAME_BUFFER_CELLS - p,
    {
        let color: u32 = if display[p] {
            foreground
        } else {
            background
        };
        texture.push((color % 256) as u8);
        texture.push((color / 0x100 % 256) as u8);
        texture.push((color / 0x1_0000 % 256) as u8);
        texture.push((color / 0x100_0000 % 256) as u8);
        p += 1;
    }
    assert(texture@ =~= rendered(display@, foreground, background));
    texture
}

/// Tells whether a sprite row lights its column `column`.
pub fn row_lights(row: u8, column: u8) -> (lit: bool)
    requires
        column < 8,
    ensures
        lit == row_bit(row, column),
{
    let shifted: u8 = row >> (7 - column);
    assert(shifted == row / column_weight(column)) by {
        assert(row >> 7u8 == row / 128) by (bit_vector);
        assert(row >> 6u8 == row / 64) by (bit_vector);
        assert(row >> 5u8 == row / 32) by (bit_vector);
        assert(row >> 4u8 == row / 16) by (bit_vector);
        assert(row >> 3u8 == row / 8) by (bit_vector);
        assert(row >> 2u8 == row / 4) by (bit_vector);
        assert(row >> 1u8 == row / 2) by (bit_vector);
        assert(row >> 0u8 == row / 1) by (bit_vector);
    }
    assert(shifted & 1 == shifted % 2) by (bit_vector);
    shifted & 1 == 1
}

/// Draws `sprite` with its top left corner at `(left, top)`: every pixel
/// under a lit sprite bit is inverted, and what reaches past the right or
/// the bottom edge is left out. Returns whether a lit pixel went out.
pub fn draw_sprite(
    display: &mut [bool; FRAME_BUFFER_CELLS],
    sprite: &[u8],
    left: u8,
    top: u8,
) -> (collision: bool)
    requires
        left < FRAME_BUFFER_WIDTH,
        top < FRAME_BUFFER_HEIGHT,
    ensures
        final(display)@ == drawn(old(display)@, sprite@, left as int, top as int),
        collision == collides(old(display)@, sprite@, left as int, top as int),
{
    let ghost before_draw = display@;
    let rows: usize = if sprite.len() < 32 - top as usize {
        sprite.len()
    } else {
        32 - top as usize
    };
    let columns: usize = if 8 < 64 - left as usize {
        8
    } else {
        64 - left as usize
    };
    let mut collision: bool = false;
    let mut i: usize = 0;
    proof {
        assert(!collides_before(before_draw, sprite@, left as int, top as int, top as int, 0)) by {
            if collides_before(before_draw, sprite@, left as int, top as int, top as int, 0) {
                let p = choose|p: int|
                    0 <= p < before_draw.len() && #[trigger] puts_out(
                        before_draw,
                        sprite@,
                        left as int,
                        top as int,
                        p,
                    ) && before(p, top as int, 0);
                assert(false);
            }
        }
        assert(display@ =~= drawn_before(
            before_draw,
            sprite@,
            left as int,
            top as int,
            top as int,
            0,
        ));
    }
    while i < rows
        invariant
            before_draw.len() == 2048,
            left < 64,
            top < 32,
            i <= rows,
            rows <= sprite@.len(),
            rows <= 32 - top,
            rows == sprite@.len() || rows == 32 - top,
            columns <= 8,
            columns <= 64 - left,
            columns == 8 || columns == 64 - left,
            display@ == drawn_before(before_draw, sprite@, left as int, top as int, top + i, 0),
            collision == collides_before(
                before_draw,
                sprite@,
                left as int,
                top as int,
                top + i,
                0,
            ),
        decreases rows - i,
    {
        let line: usize = top as usize + i;
        let row: u8 = sprite[i];
        let mut j: usize = 0;
        while j < columns
            invariant
                before_draw.len() == 2048,
                left < 64,
                top < 32,
                i < rows,
                rows <= sprite@.len(),
                rows <= 32 - top,
                line == top + i,
                row == sprite@[i as int],
                j <= columns,
                columns <= 8,
                columns <= 64 - left,
                display@ == drawn_before(
                    before_draw,
                    sprite@,
                    left as int,
                    top as int,
                    line as int,
                    left + j,
                ),
                collision == collides_before(
                    before_draw,
                    sprite@,
                    left as int,
                    top as int,
                    line as int,
                    left + j,
                ),
            decreases columns - j,
        {
            let p: usize = line * 64 + left as usize + j;
            let lit: bool = row_lights(row, j as u8);
            let was: bool = display[p];
            proof {
                assert(p / 64 == line && p % 64 == left + j);
                assert(flips(sprite@, left as int, top as int, p as int) == lit);
                assert(!before(p as int, line as int, left + j));
                assert(was == before_draw[p as int]);
                lemma_collides_next(
                    before_draw,
                    sprite@,
                    left as int,
                    top as int,
                    line as int,
                    left + j,
                );
            }
            if lit {
                display[p] = !was;
                if was {
                    collision = true;
                }
            }
            j += 1;
            proof {
                assert(display@ =~= drawn_before(
                    before_draw,
                    sprite@,
                    left as int,
                    top as int,
                    line as int,
                    left + j,
                )) by {
                    assert forall|q: int| 0 <= q < 2048 implies display@[q] == (before_draw[q]
                        != (flips(sprite@, left as int, top as int, q) && before(
                        q,
                        line as int,
                        left + j,
                    ))) by {
                        if q != p {
                            assert(before(q, line as int, left + j) == before(
                                q,
                                line as int,
                                left + j - 1,
                            ));
                        }
                    }
                }
            }
        }
        proof {
            lemma_collides_row(
                before_draw,
                sprite@,
                left as int,
                top as int,
                line as int,
                left + columns,
            );
        }
        i += 1;
    }
    proof {
        lemma_collides_all(before_draw, sprite@, left as int, top as int, top + rows);
    }
    collision
}

} // verus!
