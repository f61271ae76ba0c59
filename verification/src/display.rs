//! The 64x32 monochrome framebuffer and its sprite blitter.
//!
//! A sprite is a run of bytes, one per row, eight pixels wide, its most
//! significant bit leftmost. Drawing combines the sprite with the picture by
//! exclusive or, wraps around both edges, and reports whether a lit pixel
//! went dark.

use vstd::prelude::*;
use crate::fault::Fault;
use crate::memory::Memory;
use crate::memory::read_slice_spec;

verus! {

/// Pixels per row.
pub const WIDTH: usize = 64;

/// Rows.
pub const HEIGHT: usize = 32;

/// Pixels in all.
pub const PIXEL_COUNT: usize = 2048;

/// The pixel of a sprite row `byte` at `offset` from its left edge: 1 or 0.
pub open spec fn sprite_bit(byte: u8, offset: int) -> u8 {
    (byte >> ((7 - offset) as u8)) & 1u8
}

/// The framebuffer index of the pixel `offset` columns right of `(x, y)`,
/// after wrapping around both edges.
pub open spec fn cell_index(x: int, y: int, offset: int) -> int {
    (y % 32) * 64 + (x + offset) % 64
}

/// How many columns right of `x` the framebuffer cell `i` lies, going around
/// the right edge: a number from 0 to 63.
pub open spec fn column_offset(i: int, x: int) -> int {
    ((i % 64) - x) % 64
}

/// How many rows below `y` the framebuffer cell `i` lies, going around the
/// bottom edge: a number from 0 to 31.
pub open spec fn row_offset(i: int, y: int) -> int {
    ((i / 64) - y) % 32
}

/// The picture after the first `count` pixels of the sprite row `byte` are
/// combined with it at `(x, y)`.
pub open spec fn blit_row_prefix(pixels: Seq<u8>, x: int, y: int, byte: u8, count: int) -> Seq<u8> {
    Seq::new(
        pixels.len(),
        |i: int|
            if row_offset(i, y) == 0 && column_offset(i, x) < count {
                pixels[i] ^ sprite_bit(byte, column_offset(i, x))
            } else {
                pixels[i]
            },
    )
}

/// The picture after the sprite row `byte` is combined with it at `(x, y)`.
pub open spec fn blit_row(pixels: Seq<u8>, x: int, y: int, byte: u8) -> Seq<u8> {
    blit_row_prefix(pixels, x, y, byte, 8)
}

/// Whether pixel `offset` of the sprite row `byte`, drawn at `(x, y)`, turns a
/// lit pixel dark.
pub open spec fn erases_at(pixels: Seq<u8>, x: int, y: int, byte: u8, offset: int) -> bool {
    sprite_bit(byte, offset) == 1 && pixels[cell_index(x, y, offset)] == 1
}

/// Whether one of the first `count` pixels of the sprite row turns a lit
/// pixel dark.
pub open spec fn row_prefix_erases(pixels: Seq<u8>, x: int, y: int, byte: u8, count: int) -> bool {
    exists|offset: int| 0 <= offset < count && #[trigger] erases_at(pixels, x, y, byte, offset)
}

/// Whether drawing the sprite row `byte` at `(x, y)` turns a lit pixel dark.
pub open spec fn row_erases(pixels: Seq<u8>, x: int, y: int, byte: u8) -> bool {
    row_prefix_erases(pixels, x, y, byte, 8)
}

/// The picture after the rows of `sprite` are drawn at `(x, y)`, one below
/// the other, first row first.
pub open spec fn blit(pixels: Seq<u8>, x: int, y: int, sprite: Seq<u8>) -> Seq<u8>
    decreases sprite.len(),
{
    if sprite.len() == 0 {
        pixels
    } else {
        blit_row(blit(pixels, x, y, sprite.drop_last()), x, y + sprite.len() - 1, sprite.last())
    }
}

/// Whether row `row` of `sprite`, drawn after the rows above it, turns a lit
/// pixel dark.
pub open spec fn sprite_row_erases(pixels: Seq<u8>, x: int, y: int, sprite: Seq<u8>, row: int) -> bool {
    row_erases(blit(pixels, x, y, sprite.take(row)), x, y + row, sprite[row])
}

/// Whether drawing `sprite` at `(x, y)` turns a lit pixel dark.
pub open spec fn collides(pixels: Seq<u8>, x: int, y: int, sprite: Seq<u8>) -> bool {
    exists|row: int| 0 <= row < sprite.len() && #[trigger] sprite_row_erases(pixels, x, y, sprite, row)
}

/// Whether pixel `offset` of row `row` of `sprite`, drawn at `(x, y)`, is set
/// and lands on a lit pixel of `pixels`.
pub open spec fn hits(pixels: Seq<u8>, x: int, y: int, sprite: Seq<u8>, row: int, offset: int) -> bool {
    sprite_bit(sprite[row], offset) == 1 && pixels[cell_index(x, y + row, offset)] == 1
}

/// The picture with every pixel dark.
pub open spec fn blank() -> Seq<u8> {
    Seq::new(PIXEL_COUNT as nat, |i: int| 0u8)
}

/// Whether `pixels` is a picture: one cell per pixel, each 0 or 1.
pub open spec fn is_picture(pixels: Seq<u8>) -> bool {
    pixels.len() == PIXEL_COUNT && forall|i: int| 0 <= i < pixels.len() ==> #[trigger] pixels[i] <= 1
}

/// The picture as text, one line per row: `#` for a lit pixel, a space for a
/// dark one, and a line feed after the last pixel of each row.
pub open spec fn as_text(pixels: Seq<u8>) -> Seq<u8> {
    Seq::new(
        (32 * 65) as nat,
        |j: int|
            if j % 65 == 64 {
                0x0Au8
            } else if pixels[(j / 65) * 64 + j % 65] == 0 {
                0x20u8
            } else {
                0x23u8
            },
    )
}

/// A sprite pixel is 0 or 1.
pub proof fn lemma_sprite_bit_range(byte: u8, offset: int)
    requires
        0 <= offset < 8,
    ensures
        sprite_bit(byte, offset) <= 1,
{
    let shift: u8 = (7 - offset) as u8;
    assert(((byte >> shift) & 1u8) <= 1) by (bit_vector);
}

/// Exclusive or of two pixels: the first one, flipped where the second is lit.
pub proof fn lemma_pixel_xor(cell: u8, bit: u8)
    requires
        cell <= 1,
        bit <= 1,
    ensures
        cell ^ bit == (if bit == 1 { 1 - cell } else { cell as int }),
        cell ^ bit <= 1,
{
    assert(cell <= 1 && bit <= 1 ==> (cell ^ bit) <= 1 && (bit == 1 ==> (cell ^ bit) == 1 - cell) && (bit
        == 0 ==> (cell ^ bit) == cell)) by (bit_vector);
}

/// The cell on which pixel `offset` of a sprite row drawn at `(x, y)` lands:
/// it lies in row `y` modulo the height and in column `x + offset` modulo the
/// width, and no other pixel of that row lands on it.
pub proof fn lemma_cell_of_pixel(x: int, y: int, offset: int)
    requires
        0 <= offset < 8,
    ensures
        0 <= cell_index(x, y, offset) < PIXEL_COUNT,
        cell_index(x, y, offset) / 64 == y % 32,
        cell_index(x, y, offset) % 64 == (x + offset) % 64,
        row_offset(cell_index(x, y, offset), y) == 0,
        column_offset(cell_index(x, y, offset), x) == offset,
{
}

/// The cell on which pixel `offset` of row `row` of a sprite drawn at
/// `(x, y)` lands lies `row` rows below `y` and `offset` columns right of `x`.
pub proof fn lemma_cell_of_sprite_pixel(x: int, y: int, row: int, offset: int)
    requires
        0 <= row < HEIGHT,
        0 <= offset < 8,
    ensures
        0 <= cell_index(x, y + row, offset) < PIXEL_COUNT,
        row_offset(cell_index(x, y + row, offset), y) == row,
        column_offset(cell_index(x, y + row, offset), x) == offset,
{
    lemma_cell_of_pixel(x, y + row, offset);
}

/// Drawing pixel `count` of a sprite row after the pixels before it: the cell
/// it lands on is still as it was before the row, and combining that cell
/// with the pixel gives the picture with one more pixel drawn.
pub proof fn lemma_blit_row_next_pixel(pixels: Seq<u8>, x: int, y: int, byte: u8, count: int)
    requires
        pixels.len() == PIXEL_COUNT,
        0 <= count < 8,
    ensures
        blit_row_prefix(pixels, x, y, byte, count)[cell_index(x, y, count)] == pixels[cell_index(
            x,
            y,
            count,
        )],
        blit_row_prefix(pixels, x, y, byte, count).update(
            cell_index(x, y, count),
            pixels[cell_index(x, y, count)] ^ sprite_bit(byte, count),
        ) == blit_row_prefix(pixels, x, y, byte, count + 1),
        row_prefix_erases(pixels, x, y, byte, count + 1) == (row_prefix_erases(pixels, x, y, byte, count)
            || erases_at(pixels, x, y, byte, count)),
{
    lemma_cell_of_pixel(x, y, count);
    let cell = cell_index(x, y, count);
    let current = blit_row_prefix(pixels, x, y, byte, count);
    let next = blit_row_prefix(pixels, x, y, byte, count + 1);
    let updated = current.update(cell, pixels[cell] ^ sprite_bit(byte, count));
    assert forall|j: int| 0 <= j < PIXEL_COUNT implies updated[j] == next[j] by {
        if j != cell && row_offset(j, y) == 0 {
            assert(column_offset(j, x) != count);
        }
    }
    assert(updated =~= next);
    if row_prefix_erases(pixels, x, y, byte, count + 1) {
        let w = choose|offset: int|
            0 <= offset < count + 1 && #[trigger] erases_at(pixels, x, y, byte, offset);
        if w < count {
            assert(row_prefix_erases(pixels, x, y, byte, count));
        }
    }
    if row_prefix_erases(pixels, x, y, byte, count) {
        let w = choose|offset: int| 0 <= offset < count && #[trigger] erases_at(pixels, x, y, byte, offset);
        assert(0 <= w < count + 1 && erases_at(pixels, x, y, byte, w));
    }
    if erases_at(pixels, x, y, byte, count) {
        assert(0 <= count < count + 1 && erases_at(pixels, x, y, byte, count));
    }
}

/// Drawing a sprite row on a picture gives a picture.
pub proof fn lemma_blit_row_prefix_is_picture(pixels: Seq<u8>, x: int, y: int, byte: u8, count: int)
    requires
        is_picture(pixels),
        0 <= count <= 8,
    ensures
        is_picture(blit_row_prefix(pixels, x, y, byte, count)),
{
    let after = blit_row_prefix(pixels, x, y, byte, count);
    assert forall|i: int| 0 <= i < after.len() implies #[trigger] after[i] <= 1 by {
        if row_offset(i, y) == 0 && column_offset(i, x) < count {
            lemma_sprite_bit_range(byte, column_offset(i, x));
            lemma_pixel_xor(pixels[i], sprite_bit(byte, column_offset(i, x)));
        }
    }
}

/// Drawing a sprite on a picture gives a picture.
pub proof fn lemma_blit_is_picture(pixels: Seq<u8>, x: int, y: int, sprite: Seq<u8>)
    requires
        is_picture(pixels),
    ensures
        is_picture(blit(pixels, x, y, sprite)),
    decreases sprite.len(),
{
    if sprite.len() > 0 {
        lemma_blit_is_picture(pixels, x, y, sprite.drop_last());
        lemma_blit_row_prefix_is_picture(
            blit(pixels, x, y, sprite.drop_last()),
            x,
            y + sprite.len() - 1,
            sprite.last(),
            8,
        );
    }
}

/// Drawing one more row of a sprite: the rows above it first, then the row.
pub proof fn lemma_blit_next_row(pixels: Seq<u8>, x: int, y: int, sprite: Seq<u8>, row: int)
    requires
        0 <= row < sprite.len(),
    ensures
        blit(pixels, x, y, sprite.take(row + 1)) == blit_row(
            blit(pixels, x, y, sprite.take(row)),
            x,
            y + row,
            sprite[row],
        ),
{
    let next = sprite.take(row + 1);
    assert(next.drop_last() =~= sprite.take(row));
    assert(next.last() == sprite[row]);
    assert(next.len() == row + 1);
}

/// Only the row modulo the height matters to where a sprite row lands.
pub proof fn lemma_row_wraps(pixels: Seq<u8>, x: int, y: int, other: int, byte: u8)
    requires
        y % 32 == other % 32,
    ensures
        blit_row(pixels, x, y, byte) == blit_row(pixels, x, other, byte),
        row_erases(pixels, x, y, byte) == row_erases(pixels, x, other, byte),
{
    assert forall|i: int| row_offset(i, y) == row_offset(i, other) by {}
    assert(blit_row(pixels, x, y, byte) =~= blit_row(pixels, x, other, byte));
    assert forall|offset: int| cell_index(x, y, offset) == cell_index(x, other, offset) by {}
    if row_erases(pixels, x, y, byte) {
        let w = choose|offset: int| 0 <= offset < 8 && #[trigger] erases_at(pixels, x, y, byte, offset);
        assert(erases_at(pixels, x, other, byte, w));
    }
    if row_erases(pixels, x, other, byte) {
        let w = choose|offset: int| 0 <= offset < 8 && #[trigger] erases_at(pixels, x, other, byte, offset);
        assert(erases_at(pixels, x, y, byte, w));
    }
}

/// The picture after a sprite of at most `HEIGHT` rows is drawn at `(x, y)`,
/// cell by cell: a cell that a sprite pixel lands on is combined with that
/// pixel, every other cell stays.
pub open spec fn drawn(pixels: Seq<u8>, x: int, y: int, sprite: Seq<u8>) -> Seq<u8> {
    Seq::new(
        pixels.len(),
        |i: int|
            if row_offset(i, y) < sprite.len() && column_offset(i, x) < 8 {
                pixels[i] ^ sprite_bit(sprite[row_offset(i, y)], column_offset(i, x))
            } else {
                pixels[i]
            },
    )
}

/// A sprite of at most `HEIGHT` rows never reaches a cell twice, so drawing
/// it row by row gives the picture that `drawn` describes cell by cell.
pub proof fn lemma_blit_is_drawn(pixels: Seq<u8>, x: int, y: int, sprite: Seq<u8>)
    requires
        pixels.len() == PIXEL_COUNT,
        sprite.len() <= HEIGHT,
    ensures
        blit(pixels, x, y, sprite) == drawn(pixels, x, y, sprite),
    decreases sprite.len(),
{
    if sprite.len() == 0 {
        assert(pixels =~= drawn(pixels, x, y, sprite));
    } else {
        let above = sprite.drop_last();
        let last = sprite.len() - 1;
        lemma_blit_is_drawn(pixels, x, y, above);
        let middle = drawn(pixels, x, y, above);
        let after = blit_row(middle, x, y + last, sprite.last());
        let goal = drawn(pixels, x, y, sprite);
        assert forall|i: int| 0 <= i < PIXEL_COUNT implies after[i] == goal[i] by {
            assert((row_offset(i, y + last) == 0) == (row_offset(i, y) == last));
        }
        assert(after =~= goal);
    }
}

/// Sprite pixels wrap around the right edge: pixel `offset` of a row drawn at
/// `(x, y)` is combined with the cell in column `x + offset` modulo the width
/// of the same row. Drawn at column 63 on a dark display, the second pixel of
/// the row, where it is set, lights column 0.
pub proof fn law_pixels_wrap(pixels: Seq<u8>, x: u8, y: u8, byte: u8, offset: int)
    requires
        is_picture(pixels),
        0 <= offset < 8,
    ensures
        cell_index(x as int, y as int, offset) == (y % 32) * 64 + (x + offset) % 64,
        blit_row(pixels, x as int, y as int, byte)[cell_index(x as int, y as int, offset)] == pixels[cell_index(
            x as int,
            y as int,
            offset,
        )] ^ sprite_bit(byte, offset),
        x == 63 && offset == 1 && sprite_bit(byte, 1) == 1 ==> blit_row(blank(), x as int, y as int, byte)[(y
            % 32) * 64] == 1,
{
    lemma_cell_of_pixel(x as int, y as int, offset);
    lemma_pixel_xor(0u8, 1u8);
}

/// A sprite of at most `HEIGHT` rows turns a lit pixel dark exactly if one of
/// its set pixels lands on a pixel that was lit before the sprite was drawn.
pub proof fn law_collision_is_overlap(pixels: Seq<u8>, x: u8, y: u8, sprite: Seq<u8>)
    requires
        is_picture(pixels),
        sprite.len() <= HEIGHT,
    ensures
        collides(pixels, x as int, y as int, sprite) <==> exists|row: int, offset: int|
            0 <= row < sprite.len() && 0 <= offset < 8 && #[trigger] hits(
                pixels,
                x as int,
                y as int,
                sprite,
                row,
                offset,
            ),
{
    if collides(pixels, x as int, y as int, sprite) {
        let row = choose|row: int|
            0 <= row < sprite.len() && #[trigger] sprite_row_erases(pixels, x as int, y as int, sprite, row);
        let middle = blit(pixels, x as int, y as int, sprite.take(row));
        lemma_blit_is_drawn(pixels, x as int, y as int, sprite.take(row));
        let offset = choose|offset: int|
            0 <= offset < 8 && #[trigger] erases_at(middle, x as int, y + row, sprite[row], offset);
        let cell = cell_index(x as int, y + row, offset);
        lemma_cell_of_sprite_pixel(x as int, y as int, row, offset);
        assert(drawn(pixels, x as int, y as int, sprite.take(row))[cell] == pixels[cell]);
        assert(hits(pixels, x as int, y as int, sprite, row, offset));
    }
    if exists|row: int, offset: int|
        0 <= row < sprite.len() && 0 <= offset < 8 && #[trigger] hits(
            pixels,
            x as int,
            y as int,
            sprite,
            row,
            offset,
        ) {
        let (row, offset) = choose|row: int, offset: int|
            0 <= row < sprite.len() && 0 <= offset < 8 && #[trigger] hits(
                pixels,
                x as int,
                y as int,
                sprite,
                row,
                offset,
            );
        let middle = blit(pixels, x as int, y as int, sprite.take(row));
        lemma_blit_is_drawn(pixels, x as int, y as int, sprite.take(row));
        let cell = cell_index(x as int, y + row, offset);
        lemma_cell_of_sprite_pixel(x as int, y as int, row, offset);
        assert(drawn(pixels, x as int, y as int, sprite.take(row))[cell] == pixels[cell]);
        assert(erases_at(middle, x as int, y + row, sprite[row], offset));
        assert(sprite_row_erases(pixels, x as int, y as int, sprite, row));
    }
}

/// Drawing a sprite of at most `HEIGHT` rows on a dark display turns no lit
/// pixel dark.
pub proof fn law_first_draw_keeps_pixels(x: u8, y: u8, sprite: Seq<u8>)
    requires
        sprite.len() <= HEIGHT,
    ensures
        !collides(blank(), x as int, y as int, sprite),
{
    if collides(blank(), x as int, y as int, sprite) {
        let row = choose|row: int|
            0 <= row < sprite.len() && #[trigger] sprite_row_erases(blank(), x as int, y as int, sprite, row);
        let middle = blit(blank(), x as int, y as int, sprite.take(row));
        lemma_blit_is_drawn(blank(), x as int, y as int, sprite.take(row));
        let offset = choose|offset: int|
            0 <= offset < 8 && #[trigger] erases_at(middle, x as int, y + row, sprite[row], offset);
        let cell = cell_index(x as int, y + row, offset);
        lemma_cell_of_sprite_pixel(x as int, y as int, row, offset);
        assert(drawn(blank(), x as int, y as int, sprite.take(row))[cell] == blank()[cell]);
        assert(middle[cell] == 0);
    }
}

/// Drawing a sprite of at most `HEIGHT` rows with a set pixel a second time,
/// at the place where it was drawn on a dark display, turns a lit pixel dark.
pub proof fn law_second_draw_collides(x: u8, y: u8, sprite: Seq<u8>, row: int, offset: int)
    requires
        sprite.len() <= HEIGHT,
        0 <= row < sprite.len(),
        0 <= offset < 8,
        sprite_bit(sprite[row], offset) == 1,
    ensures
        collides(blit(blank(), x as int, y as int, sprite), x as int, y as int, sprite),
{
    let first = blit(blank(), x as int, y as int, sprite);
    lemma_blit_is_drawn(blank(), x as int, y as int, sprite);
    let cell = cell_index(x as int, y + row, offset);
    lemma_cell_of_sprite_pixel(x as int, y as int, row, offset);
    lemma_pixel_xor(0u8, 1u8);
    assert(drawn(blank(), x as int, y as int, sprite)[cell] == blank()[cell] ^ sprite_bit(sprite[row], offset));
    assert(first[cell] == 1);
    let middle = blit(first, x as int, y as int, sprite.take(row));
    lemma_blit_is_drawn(first, x as int, y as int, sprite.take(row));
    assert(drawn(first, x as int, y as int, sprite.take(row))[cell] == first[cell]);
    assert(erases_at(middle, x as int, y + row, sprite[row], offset));
    assert(sprite_row_erases(first, x as int, y as int, sprite, row));
}

/// Drawing a sprite of at most `HEIGHT` rows twice at one place gives the
/// picture back.
pub proof fn law_draw_twice_restores(pixels: Seq<u8>, x: u8, y: u8, sprite: Seq<u8>)
    requires
        is_picture(pixels),
        sprite.len() <= HEIGHT,
    ensures
        blit(blit(pixels, x as int, y as int, sprite), x as int, y as int, sprite) == pixels,
{
    let first = blit(pixels, x as int, y as int, sprite);
    lemma_blit_is_drawn(pixels, x as int, y as int, sprite);
    lemma_blit_is_drawn(first, x as int, y as int, sprite);
    let second = blit(first, x as int, y as int, sprite);
    assert forall|i: int| 0 <= i < PIXEL_COUNT implies second[i] == pixels[i] by {
        if row_offset(i, y as int) < sprite.len() && column_offset(i, x as int) < 8 {
            let cell: u8 = pixels[i];
            let bit: u8 = sprite_bit(sprite[row_offset(i, y as int)], column_offset(i, x as int));
            assert((cell ^ bit) ^ bit == cell) by (bit_vector);
        }
    }
    assert(second =~= pixels);
}

/// The framebuffer.
#[derive(Debug)]
pub struct Display {
    pixels: Vec<u8>,
}

impl View for Display {
    type V = Seq<u8>;

    closed spec fn view(&self) -> Seq<u8> {
        self.pixels@
    }
}

impl Display {
    /// The framebuffer is a picture: `PIXEL_COUNT` cells, each 0 or 1.
    pub open spec fn wf(&self) -> bool {
        is_picture(self@)
    }

    /// A dark display.
    pub fn new() -> (d: Display)
        ensures
            d.wf(),
            d@ == blank(),
    {
        let mut pixels: Vec<u8> = Vec::with_capacity(PIXEL_COUNT);
        let mut k: usize = 0;
        while k < PIXEL_COUNT
            invariant
                k <= PIXEL_COUNT,
                pixels@.len() == k,
                forall|j: int| 0 <= j < k ==> pixels@[j] == 0u8,
            decreases PIXEL_COUNT - k,
        {
            pixels.push(0u8);
            k = k + 1;
        }
        assert(pixels@ =~= blank());
        Display { pixels }
    }

    /// The framebuffer, row by row from the top left, one byte per pixel.
    pub fn get(&self) -> (frame: &[u8])
        ensures
            frame@ == self@,
    {
        self.pixels.as_slice()
    }

    /// The framebuffer, row by row from the top left, one byte per pixel.
    pub fn get_screen(&self) -> (frame: &[u8])
        ensures
            frame@ == self@,
    {
        self.pixels.as_slice()
    }

    /// The framebuffer index of column `x` in row `y`.
    pub fn index_from_coords(x: usize, y: usize) -> (i: usize)
        requires
            y * WIDTH + x <= usize::MAX,
        ensures
            i == y * WIDTH + x,
    {
        (y * WIDTH) + x
    }

    /// Turns every pixel dark.
    pub fn clear(&mut self)
        requires
            old(self).wf(),
        ensures
            final(self).wf(),
            final(self)@ == blank(),
    {
        let mut k: usize = 0;
        while k < PIXEL_COUNT
            invariant
                k <= PIXEL_COUNT,
                self.pixels@.len() == PIXEL_COUNT,
                forall|j: int| 0 <= j < k ==> self.pixels@[j] == 0u8,
            decreases PIXEL_COUNT - k,
        {
            self.pixels[k] = 0u8;
            k = k + 1;
        }
        assert(self.pixels@ =~= blank());
    }

    /// The picture as ASCII text, one line per row: `#` for a lit pixel, a
    /// space for a dark one, and a line feed at the end of each row.
    pub fn to_text(&self) -> (text: Vec<u8>)
        requires
            self.wf(),
        ensures
            text@ == as_text(self@),
    {
        let mut text: Vec<u8> = Vec::with_capacity(HEIGHT * (WIDTH + 1));
        let mut y: usize = 0;
        while y < HEIGHT
            invariant
                y <= HEIGHT,
                self.pixels@.len() == PIXEL_COUNT,
                text@.len() == y * 65,
                forall|j: int| 0 <= j < text@.len() ==> text@[j] == as_text(self.pixels@)[j],
            decreases HEIGHT - y,
        {
            let mut x: usize = 0;
            while x < WIDTH
                invariant
                    y < HEIGHT,
                    x <= WIDTH,
                    self.pixels@.len() == PIXEL_COUNT,
                    text@.len() == y * 65 + x,
                    forall|j: int| 0 <= j < text@.len() ==> text@[j] == as_text(self.pixels@)[j],
                decreases WIDTH - x,
            {
                let mark: u8 = if self.pixels[y * WIDTH + x] == 0 { 0x20 } else { 0x23 };
                text.push(mark);
                x = x + 1;
            }
            text.push(0x0A);
            y = y + 1;
        }
        assert(text@ =~= as_text(self.pixels@));
        text
    }

    /// Draws one sprite row at `(x, y)` and says whether a lit pixel went dark.
    pub fn draw_byte(&mut self, x: u8, y: u8, byte: u8) -> (erased: bool)
        requires
            old(self).wf(),
        ensures
            final(self).wf(),
            final(self)@ == blit_row(old(self)@, x as int, y as int, byte),
            erased == row_erases(old(self)@, x as int, y as int, byte),
    {
        let ghost before = self.pixels@;
        let row: usize = y as usize % HEIGHT;
        let left: usize = x as usize % WIDTH;
        let mut erased = false;
        let mut k: u8 = 0;
        while k < 8
            invariant
                k <= 8,
                row == y as int % 32,
                left == x as int % 64,
                is_picture(before),
                self.pixels@ == blit_row_prefix(before, x as int, y as int, byte, k as int),
                erased == row_prefix_erases(before, x as int, y as int, byte, k as int),
            decreases 8 - k,
        {
            let i: usize = Display::index_from_coords((left + k as usize) % WIDTH, row);
            let bit: u8 = (byte >> (7 - k)) & 1;
            let lit: u8 = self.pixels[i];
            proof {
                lemma_cell_of_pixel(x as int, y as int, k as int);
                lemma_blit_row_next_pixel(before, x as int, y as int, byte, k as int);
                lemma_sprite_bit_range(byte, k as int);
                lemma_pixel_xor(lit, bit);
            }
            self.pixels[i] = lit ^ bit;
            let gone: bool = lit == 1 && self.pixels[i] == 0;
            erased = erased || gone;
            k = k + 1;
        }
        proof {
            lemma_blit_row_prefix_is_picture(before, x as int, y as int, byte, 8);
        }
        erased
    }

    /// Draws `sprite` at `(x, y)`, first byte topmost, and says whether a lit
    /// pixel went dark.
    pub fn draw(&mut self, x: u8, y: u8, sprite: &[u8]) -> (erased: bool)
        requires
            old(self).wf(),
        ensures
            final(self).wf(),
            final(self)@ == blit(old(self)@, x as int, y as int, sprite@),
            erased == collides(old(self)@, x as int, y as int, sprite@),
    {
        let ghost before = self.pixels@;
        let top: usize = y as usize % HEIGHT;
        let mut erased = false;
        let mut r: usize = 0;
        while r < sprite.len()
            invariant
                r <= sprite@.len(),
                top == y as int % 32,
                is_picture(before),
                is_picture(self.pixels@),
                self.pixels@ == blit(before, x as int, y as int, sprite@.take(r as int)),
                erased == (exists|row: int|
                    0 <= row < r && #[trigger] sprite_row_erases(before, x as int, y as int, sprite@, row)),
            decreases sprite@.len() - r,
        {
            let line: u8 = ((top + r % HEIGHT) % HEIGHT) as u8;
            let ghost current = self.pixels@;
            let gone = self.draw_byte(x, line, sprite[r]);
            proof {
                lemma_blit_next_row(before, x as int, y as int, sprite@, r as int);
                lemma_row_wraps(current, x as int, line as int, y + r, sprite@[r as int]);
                assert(gone == sprite_row_erases(before, x as int, y as int, sprite@, r as int));
                if erased || gone {
                    let w = if gone {
                        r as int
                    } else {
                        choose|row: int|
                            0 <= row < r && #[trigger] sprite_row_erases(
                                before,
                                x as int,
                                y as int,
                                sprite@,
                                row,
                            )
                    };
                    assert(0 <= w < r + 1 && sprite_row_erases(before, x as int, y as int, sprite@, w));
                }
            }
            erased = erased || gone;
            r = r + 1;
        }
        assert(sprite@.take(r as int) =~= sprite@);
        erased
    }

    /// Draws the `height` bytes that `memory` holds from address `i` on as a
    /// sprite at `(x, y)`, and says whether a lit pixel went dark. Where the
    /// sprite does not lie inside the address space nothing is drawn.
    pub fn draw_sprite(&mut self, memory: &Memory, i: u16, x: u8, y: u8, height: u8) -> (r: Result<
        bool,
        Fault,
    >)
        requires
            old(self).wf(),
            memory.wf(),
        ensures
            final(self).wf(),
            match read_slice_spec(memory@, i as int, height as int) {
                Ok(sprite) => r == Ok::<bool, Fault>(collides(old(self)@, x as int, y as int, sprite))
                    && final(self)@ == blit(old(self)@, x as int, y as int, sprite),
                Err(fault) => r == Err::<bool, Fault>(fault) && final(self)@ == old(self)@,
            },
    {
        match memory.read_slice(i as usize, height as usize) {
            Ok(sprite) => Ok(self.draw(x, y, sprite)),
            Err(fault) => Err(fault),
        }
    }
}

} // verus!
