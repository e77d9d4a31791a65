//! What drawing a sprite comes to, for sprites that do not meet themselves.
//!
//! A sprite of at most 32 rows lands each of its rows on a row of its own.
//! Drawing it then flips exactly the pixels that its on bits cover, and
//! collides exactly where one of those pixels was on before.

use crate::chip8::display::{sprite_bit, Screen, DISPLAY_HEIGHT, DISPLAY_PIXELS};
use vstd::prelude::*;

verus! {

/// Whether an on bit of the sprite lands on the pixel with the index `k`,
/// the sprite's top left corner being at `(origin_x, origin_y)`.
pub open spec fn covers(origin_x: int, origin_y: int, sprite: Seq<u8>, k: int) -> bool {
    let row = (k / 64 - origin_y) % 32;
    row < sprite.len() && sprite_bit(sprite[row], (k % 64 - origin_x) % 64)
}

/// Whether the sprite has an on bit at all.
pub open spec fn lit(sprite: Seq<u8>) -> bool {
    exists|row: int, column: int|
        0 <= row < sprite.len() && #[trigger] sprite_bit(sprite[row], column)
}

/// The index of the pixel that column `column` of row `row` of a sprite lands
/// on, the sprite's top left corner being at `(origin_x, origin_y)`.
pub open spec fn landing(origin_x: int, origin_y: int, row: int, column: int) -> int {
    ((origin_y + row) % 32) * 64 + (origin_x + column) % 64
}

/// A pixel lies in the row of the display that a row of a sprite lands on
/// exactly if it is that many rows below the corner, round the bottom edge.
proof fn lemma_row(origin_y: int, row: int, k: int)
    requires
        0 <= row < 32,
        0 <= k < DISPLAY_PIXELS,
    ensures
        k / 64 == (origin_y + row) % 32 <==> (k / 64 - origin_y) % 32 == row,
{
}

/// A pixel is the one that a column of a row lands on exactly if the pixel
/// is that many rows below and that many columns right of the corner, round
/// the edges of the display.
#[verifier::rlimit(50)]
proof fn lemma_landing(origin_x: int, origin_y: int, row: int, column: int, k: int)
    requires
        0 <= row < 32,
        0 <= column < 64,
        0 <= k < DISPLAY_PIXELS,
    ensures
        k == landing(origin_x, origin_y, row, column) <==> (k / 64 - origin_y) % 32 == row && (k
            % 64 - origin_x) % 64 == column,
        0 <= landing(origin_x, origin_y, row, column) < DISPLAY_PIXELS,
        landing(origin_x, origin_y, row, column) / 64 == (origin_y + row) % 32,
        landing(origin_x, origin_y, row, column) % 64 == (origin_x + column) % 64,
{
}

impl Screen {
    /// Whether the sprite covers a pixel that is on.
    pub open spec fn meets(self, origin_x: int, origin_y: int, sprite: Seq<u8>) -> bool {
        exists|k: int|
            0 <= k < DISPLAY_PIXELS && self.pixels[k] && #[trigger] covers(
                origin_x,
                origin_y,
                sprite,
                k,
            )
    }

    /// A sprite row collides exactly where one of its on columns lands on
    /// a pixel that is on.
    proof fn lemma_columns_collide(self, origin_x: int, y: int, byte: u8, count: int)
        ensures
            self.columns_collide(origin_x, y, byte, count) <==> exists|c: int|
                0 <= c < count && #[trigger] sprite_bit(byte, c) && self.at(
                    (origin_x + c) % 64,
                    y % 32,
                ),
        decreases count,
    {
        if count > 0 {
            self.lemma_columns_collide(origin_x, y, byte, count - 1);
            if self.columns_collide(origin_x, y, byte, count) {
                if self.columns_collide(origin_x, y, byte, count - 1) {
                    let c = choose|c: int|
                        0 <= c < count - 1 && #[trigger] sprite_bit(byte, c) && self.at(
                            (origin_x + c) % 64,
                            y % 32,
                        );
                    assert(0 <= c < count && sprite_bit(byte, c));
                } else {
                    assert(sprite_bit(byte, count - 1));
                }
            }
        }
    }

    /// Drawing a sprite of at most 32 rows flips exactly the pixels that
    /// the sprite covers.
    #[verifier::rlimit(50)]
    pub proof fn lemma_blit_flips_covered(self, origin_x: int, origin_y: int, sprite: Seq<u8>)
        requires
            self.wf(),
            sprite.len() <= DISPLAY_HEIGHT,
        ensures
            self.blit(origin_x, origin_y, sprite).wf(),
            forall|k: int|
                0 <= k < DISPLAY_PIXELS ==> #[trigger] self.blit(
                    origin_x,
                    origin_y,
                    sprite,
                ).pixels[k] == (self.pixels[k] != covers(origin_x, origin_y, sprite, k)),
        decreases sprite.len(),
    {
        if sprite.len() > 0 {
            let above = sprite.drop_last();
            let last = sprite.len() - 1;
            let before = self.blit(origin_x, origin_y, above);
            let after = self.blit(origin_x, origin_y, sprite);
            self.lemma_blit_flips_covered(origin_x, origin_y, above);
            assert(after == before.blit_row(origin_x, origin_y + last, sprite.last()));
            assert forall|k: int| 0 <= k < DISPLAY_PIXELS implies #[trigger] after.pixels[k] == (
            self.pixels[k] != covers(origin_x, origin_y, sprite, k)) by {
                let row = (k / 64 - origin_y) % 32;
                assert(before.pixels[k] == (self.pixels[k] != covers(origin_x, origin_y, above, k)));
                lemma_row(origin_y, last, k);
                if row < last {
                    assert(above[row] == sprite[row]);
                }
            }
        }
    }

    /// The last row of a sprite of at most 32 rows collides exactly where
    /// it covers a pixel that was on before the sprite was drawn: the
    /// rows above it have not touched its row of the display.
    #[verifier::rlimit(50)]
    proof fn lemma_last_row_collides(self, origin_x: int, origin_y: int, sprite: Seq<u8>)
        requires
            self.wf(),
            0 < sprite.len() <= DISPLAY_HEIGHT,
        ensures
            self.blit(origin_x, origin_y, sprite.drop_last()).row_collides(
                origin_x,
                origin_y + sprite.len() - 1,
                sprite.last(),
            ) <==> exists|c: int|
                0 <= c < 8 && #[trigger] sprite_bit(sprite.last(), c) && self.pixels[landing(
                    origin_x,
                    origin_y,
                    sprite.len() - 1,
                    c,
                )],
    {
        let above = sprite.drop_last();
        let last = sprite.len() - 1;
        let byte = sprite.last();
        let y = origin_y + last;
        let before = self.blit(origin_x, origin_y, above);
        self.lemma_blit_flips_covered(origin_x, origin_y, above);
        before.lemma_columns_collide(origin_x, y, byte, 8);
        assert forall|c: int| 0 <= c < 8 implies before.at((origin_x + c) % 64, y % 32)
            == self.pixels[landing(origin_x, origin_y, last, c)] by {
            let k = landing(origin_x, origin_y, last, c);
            lemma_landing(origin_x, origin_y, last, c, k);
            assert(!covers(origin_x, origin_y, above, k));
            assert(before.pixels[k] == (self.pixels[k] != covers(origin_x, origin_y, above, k)));
        }
        if before.row_collides(origin_x, y, byte) {
            let c = choose|c: int|
                0 <= c < 8 && #[trigger] sprite_bit(byte, c) && before.at(
                    (origin_x + c) % 64,
                    y % 32,
                );
            assert(self.pixels[landing(origin_x, origin_y, last, c)]);
        }
    }

    /// Drawing a sprite of at most 32 rows collides only where the sprite
    /// covers a pixel that was on before the drawing.
    proof fn lemma_collides_only_where_lit(self, origin_x: int, origin_y: int, sprite: Seq<u8>)
        requires
            self.wf(),
            sprite.len() <= DISPLAY_HEIGHT,
            self.collides(origin_x, origin_y, sprite),
        ensures
            self.meets(origin_x, origin_y, sprite),
        decreases sprite.len(),
    {
        let above = sprite.drop_last();
        let last = sprite.len() - 1;
        if self.collides(origin_x, origin_y, above) {
            self.lemma_collides_only_where_lit(origin_x, origin_y, above);
            let k = choose|k: int|
                0 <= k < DISPLAY_PIXELS && self.pixels[k] && #[trigger] covers(
                    origin_x,
                    origin_y,
                    above,
                    k,
                );
            assert(above[(k / 64 - origin_y) % 32] == sprite[(k / 64 - origin_y) % 32]);
            assert(covers(origin_x, origin_y, sprite, k));
        } else {
            self.lemma_last_row_collides(origin_x, origin_y, sprite);
            let c = choose|c: int|
                0 <= c < 8 && #[trigger] sprite_bit(sprite.last(), c) && self.pixels[landing(
                    origin_x,
                    origin_y,
                    last,
                    c,
                )];
            let k = landing(origin_x, origin_y, last, c);
            lemma_landing(origin_x, origin_y, last, c, k);
            assert(covers(origin_x, origin_y, sprite, k));
        }
    }

    /// Drawing a sprite of at most 32 rows collides wherever the sprite
    /// covers a pixel that was on before the drawing.
    proof fn lemma_collides_wherever_lit(self, origin_x: int, origin_y: int, sprite: Seq<u8>, k: int)
        requires
            self.wf(),
            sprite.len() <= DISPLAY_HEIGHT,
            0 <= k < DISPLAY_PIXELS,
            self.pixels[k],
            covers(origin_x, origin_y, sprite, k),
        ensures
            self.collides(origin_x, origin_y, sprite),
        decreases sprite.len(),
    {
        let above = sprite.drop_last();
        let last = sprite.len() - 1;
        let row = (k / 64 - origin_y) % 32;
        let c = (k % 64 - origin_x) % 64;
        if row < last {
            assert(above[row] == sprite[row]);
            self.lemma_collides_wherever_lit(origin_x, origin_y, above, k);
        } else {
            self.lemma_last_row_collides(origin_x, origin_y, sprite);
            lemma_landing(origin_x, origin_y, last, c, k);
            assert(sprite_bit(sprite.last(), c) && self.pixels[landing(
                origin_x,
                origin_y,
                last,
                c,
            )]);
        }
    }

    /// Drawing a sprite of at most 32 rows collides exactly where the
    /// sprite covers a pixel that was on before the drawing.
    pub proof fn lemma_collides_where_lit(self, origin_x: int, origin_y: int, sprite: Seq<u8>)
        requires
            self.wf(),
            sprite.len() <= DISPLAY_HEIGHT,
        ensures
            self.collides(origin_x, origin_y, sprite) <==> self.meets(origin_x, origin_y, sprite),
    {
        if self.collides(origin_x, origin_y, sprite) {
            self.lemma_collides_only_where_lit(origin_x, origin_y, sprite);
        }
        if self.meets(origin_x, origin_y, sprite) {
            let k = choose|k: int|
                0 <= k < DISPLAY_PIXELS && self.pixels[k] && #[trigger] covers(
                    origin_x,
                    origin_y,
                    sprite,
                    k,
                );
            self.lemma_collides_wherever_lit(origin_x, origin_y, sprite, k);
        }
    }

    /// Drawing a sprite of at most 32 rows a second time at the same
    /// place brings every pixel back to what it was.
    pub proof fn lemma_blit_twice_restores(self, origin_x: int, origin_y: int, sprite: Seq<u8>)
        requires
            self.wf(),
            sprite.len() <= DISPLAY_HEIGHT,
        ensures
            self.blit(origin_x, origin_y, sprite).blit(origin_x, origin_y, sprite).pixels
                == self.pixels,
    {
        let once = self.blit(origin_x, origin_y, sprite);
        self.lemma_blit_flips_covered(origin_x, origin_y, sprite);
        once.lemma_blit_flips_covered(origin_x, origin_y, sprite);
        assert(once.blit(origin_x, origin_y, sprite).pixels =~= self.pixels);
    }

    /// Drawing a sprite of at most 32 rows onto a blank display does not
    /// collide; and drawing it there a second time turns every pixel off
    /// again and collides if the sprite has an on bit at all.
    pub proof fn lemma_draw_on_blank_twice(
        dirty: bool,
        origin_x: int,
        origin_y: int,
        sprite: Seq<u8>,
    )
        requires
            sprite.len() <= DISPLAY_HEIGHT,
        ensures
            !Screen::blank(dirty).collides(origin_x, origin_y, sprite),
            Screen::blank(dirty).blit(origin_x, origin_y, sprite).blit(
                origin_x,
                origin_y,
                sprite,
            ).pixels == Screen::blank(dirty).pixels,
            Screen::blank(dirty).blit(origin_x, origin_y, sprite).collides(
                origin_x,
                origin_y,
                sprite,
            ) <==> lit(sprite),
    {
        let blank = Screen::blank(dirty);
        let once = blank.blit(origin_x, origin_y, sprite);
        blank.lemma_collides_where_lit(origin_x, origin_y, sprite);
        blank.lemma_blit_twice_restores(origin_x, origin_y, sprite);
        blank.lemma_blit_flips_covered(origin_x, origin_y, sprite);
        once.lemma_collides_where_lit(origin_x, origin_y, sprite);
        if once.meets(origin_x, origin_y, sprite) {
            let k = choose|k: int|
                0 <= k < DISPLAY_PIXELS && once.pixels[k] && #[trigger] covers(
                    origin_x,
                    origin_y,
                    sprite,
                    k,
                );
            assert(sprite_bit(sprite[(k / 64 - origin_y) % 32], (k % 64 - origin_x) % 64));
        }
        if lit(sprite) {
            let (row, column) = choose|row: int, column: int|
                0 <= row < sprite.len() && #[trigger] sprite_bit(sprite[row], column);
            let k = landing(origin_x, origin_y, row, column);
            lemma_landing(origin_x, origin_y, row, column, k);
            assert(covers(origin_x, origin_y, sprite, k));
            assert(once.pixels[k] == (blank.pixels[k] != covers(origin_x, origin_y, sprite, k)));
        }
    }
}

} // verus!
