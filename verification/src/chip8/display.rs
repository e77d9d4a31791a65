use vstd::prelude::*;

verus! {

// The display is 64 pixels wide and 32 pixels high, with (0, 0) in the top
// left corner and (63, 31) in the bottom right one.
pub const DISPLAY_WIDTH: usize = 64;

pub const DISPLAY_HEIGHT: usize = 32;

/// The number of pixels of the display.
pub const DISPLAY_PIXELS: usize = 2048;

/// What a display holds: its pixels row by row, the pixel `(x, y)` at index
/// `y * 64 + x`, and whether they changed since they were last shown.
#[verifier::ext_equal]
pub struct Screen {
    pub pixels: Seq<bool>,
    pub dirty: bool,
}

/// Whether column `column` of a sprite row is on. Column 0 is the most
/// significant bit of the row's byte; a row has eight columns.
pub open spec fn sprite_bit(byte: u8, column: int) -> bool {
    0 <= column < 8 && (byte >> ((7 - column) as u8)) & 1 == 1
}

/// Whether one of the first `count` columns of a sprite row is on.
pub open spec fn lit_columns(byte: u8, count: int) -> bool
    decreases count,
{
    if count <= 0 {
        false
    } else {
        lit_columns(byte, count - 1) || sprite_bit(byte, count - 1)
    }
}

/// How many rows of a sprite of `rows` rows are drawn at row `origin_y`:
/// all of them where rows wrap round to the top, else those that lie on
/// the display.
pub open spec fn visible_rows(origin_y: int, rows: int, vertical_wrap: bool) -> int {
    if vertical_wrap {
        rows
    } else if origin_y >= DISPLAY_HEIGHT {
        0
    } else if rows <= DISPLAY_HEIGHT - origin_y {
        rows
    } else {
        DISPLAY_HEIGHT - origin_y
    }
}

/// The rows that are drawn are the rows from the top down to the last one
/// that lies on the display; and every row where rows wrap round to the top.
pub proof fn lemma_visible_rows(origin_y: int, rows: int, row: int)
    requires
        0 <= origin_y,
        0 <= row < rows,
    ensures
        row < visible_rows(origin_y, rows, true),
        row < visible_rows(origin_y, rows, false) <==> origin_y + row < DISPLAY_HEIGHT,
{
}

impl Screen {
    /// A screen has one entry for each pixel.
    pub open spec fn wf(self) -> bool {
        self.pixels.len() == DISPLAY_PIXELS
    }

    /// The pixel at `(x, y)`, for coordinates on the display.
    pub open spec fn at(self, x: int, y: int) -> bool {
        self.pixels[y * 64 + x]
    }

    /// The screen with every pixel off.
    pub open spec fn blank(dirty: bool) -> Screen {
        Screen { pixels: Seq::new(DISPLAY_PIXELS as nat, |k: int| false), dirty }
    }

    /// The screen after `pixel` is xor-ed onto `(x, y)`, both coordinates
    /// wrapped onto the display. An on `pixel` changes the screen.
    pub open spec fn toggled(self, x: int, y: int, pixel: bool) -> Screen {
        let k = (y % 32) * 64 + x % 64;
        Screen { pixels: self.pixels.update(k, self.pixels[k] != pixel), dirty: self.dirty || pixel }
    }

    /// The screen after the first `count` columns of a sprite row are
    /// xor-ed onto row `y`, starting at column `origin_x`, both wrapped
    /// onto the display: a pixel flips where an on column lands on it.
    pub open spec fn blit_columns(self, origin_x: int, y: int, byte: u8, count: int) -> Screen {
        Screen {
            pixels: Seq::new(
                self.pixels.len(),
                |k: int|
                    {
                        let column = (k % 64 - origin_x) % 64;
                        if k / 64 == y % 32 && column < count && sprite_bit(byte, column) {
                            !self.pixels[k]
                        } else {
                            self.pixels[k]
                        }
                    },
            ),
            dirty: self.dirty || lit_columns(byte, count),
        }
    }

    /// Whether one of the first `count` columns of a sprite row is on and
    /// lands on a pixel that is on.
    pub open spec fn columns_collide(self, origin_x: int, y: int, byte: u8, count: int) -> bool
        decreases count,
    {
        if count <= 0 {
            false
        } else {
            self.columns_collide(origin_x, y, byte, count - 1) || (sprite_bit(byte, count - 1)
                && self.at((origin_x + count - 1) % 64, y % 32))
        }
    }

    /// The screen after one sprite row is xor-ed onto row `y`.
    pub open spec fn blit_row(self, origin_x: int, y: int, byte: u8) -> Screen {
        self.blit_columns(origin_x, y, byte, 8)
    }

    /// Whether xor-ing one sprite row onto row `y` turns a pixel off.
    pub open spec fn row_collides(self, origin_x: int, y: int, byte: u8) -> bool {
        self.columns_collide(origin_x, y, byte, 8)
    }

    /// The screen after the rows of `sprite` are xor-ed onto it one after
    /// the other from the top, row `r` landing on row `origin_y + r`.
    pub open spec fn blit(self, origin_x: int, origin_y: int, sprite: Seq<u8>) -> Screen
        decreases sprite.len(),
    {
        if sprite.len() == 0 {
            self
        } else {
            self.blit(origin_x, origin_y, sprite.drop_last()).blit_row(
                origin_x,
                origin_y + sprite.len() - 1,
                sprite.last(),
            )
        }
    }

    /// Whether a row of `sprite` turns a pixel off as the rows are xor-ed
    /// onto the screen one after the other: each row is judged against the
    /// screen as the rows above it left it.
    pub open spec fn collides(self, origin_x: int, origin_y: int, sprite: Seq<u8>) -> bool
        decreases sprite.len(),
    {
        if sprite.len() == 0 {
            false
        } else {
            self.collides(origin_x, origin_y, sprite.drop_last()) || self.blit(
                origin_x,
                origin_y,
                sprite.drop_last(),
            ).row_collides(origin_x, origin_y + sprite.len() - 1, sprite.last())
        }
    }

    /// Whether `cells` lists the coordinates of the pixels that are on,
    /// each once, row by row from the top and from left to right in a row.
    pub open spec fn lit_in_order(self, cells: Seq<(u8, u8)>) -> bool {
        &&& forall|i: int|
            0 <= i < cells.len() ==> (#[trigger] cells[i]).0 < 64 && cells[i].1 < 32 && self.at(
                cells[i].0 as int,
                cells[i].1 as int,
            )
        &&& forall|i: int, j: int|
            0 <= i < j < cells.len() ==> cell_index(#[trigger] cells[i]) < cell_index(
                #[trigger] cells[j],
            )
        &&& forall|x: int, y: int|
            0 <= x < 64 && 0 <= y < 32 && #[trigger] self.at(x, y) ==> cells.contains(
                (x as u8, y as u8),
            )
    }
}

/// Where the pixel with the coordinates `cell` stands among the pixels
/// taken row by row.
pub open spec fn cell_index(cell: (u8, u8)) -> int {
    cell.1 as int * 64 + cell.0 as int
}

/// The display: a grid of pixels that are on or off, and a flag that says
/// that the grid changed since it was last shown.
pub struct Display {
    pixels: [bool; DISPLAY_PIXELS],
    redraw: bool,
}

impl View for Display {
    type V = Screen;

    closed spec fn view(&self) -> Screen {
        Screen { pixels: self.pixels@, dirty: self.redraw }
    }
}

impl Display {
    /// A display always has one entry for each pixel.
    pub proof fn lemma_wf(&self)
        ensures
            self@.wf(),
    {
    }

    /// A blank display that is due to be shown.
    pub fn new() -> (display: Display)
        ensures
            display@ == Screen::blank(true),
    {
        let display = Display { pixels: [false;DISPLAY_PIXELS], redraw: true };
        assert(display@.pixels =~= Screen::blank(true).pixels);
        display
    }

    /// The height of the display in pixels.
    pub fn display_height() -> (height: usize)
        ensures
            height == DISPLAY_HEIGHT,
    {
        DISPLAY_HEIGHT
    }

    /// Xors `pixel` onto `(x, y)`, both coordinates wrapped onto the
    /// display, and says whether that turned the pixel off.
    pub fn set_pixel(&mut self, x: usize, y: usize, pixel: bool) -> (erased: bool)
        ensures
            final(self)@ == old(self)@.toggled(x as int, y as int, pixel),
            erased == (pixel && old(self)@.at(x as int % 64, y as int % 32)),
    {
        let x = x % DISPLAY_WIDTH;
        let y = y % DISPLAY_HEIGHT;
        let k = y * DISPLAY_WIDTH + x;
        let lit = self.pixels[k];
        if pixel {
            self.redraw = true;
        }
        self.pixels[k] = lit != pixel;
        lit && pixel
    }

    /// Turns every pixel off and marks the display as changed.
    pub fn clear(&mut self)
        ensures
            final(self)@ == Screen::blank(true),
    {
        self.pixels = [false;DISPLAY_PIXELS];
        self.redraw = true;
        assert(self@.pixels =~= Screen::blank(true).pixels);
    }

    /// Whether the display changed since it was last shown.
    pub fn redraw(&self) -> (dirty: bool)
        ensures
            dirty == self@.dirty,
    {
        self.redraw
    }

    /// Whether the display changed since it was last shown; and from now
    /// on it counts as shown.
    pub fn take_dirty(&mut self) -> (dirty: bool)
        ensures
            dirty == old(self)@.dirty,
            final(self)@ == (Screen { dirty: false, ..old(self)@ }),
    {
        let dirty = self.redraw;
        self.redraw = false;
        dirty
    }

    /// The pixel at `(x, y)`, both coordinates wrapped onto the display.
    pub fn pixel_at(&self, x: usize, y: usize) -> (lit: bool)
        ensures
            lit == self@.at(x as int % 64, y as int % 32),
    {
        self.pixels[(y % DISPLAY_HEIGHT) * DISPLAY_WIDTH + x % DISPLAY_WIDTH]
    }

    /// How many rows of a sprite of `rows` rows are drawn at row
    /// `origin_y`.
    pub fn visible_rows(origin_y: usize, rows: usize, vertical_wrap: bool) -> (count: usize)
        ensures
            count == visible_rows(origin_y as int, rows as int, vertical_wrap),
            count <= rows,
    {
        if vertical_wrap {
            rows
        } else if origin_y >= DISPLAY_HEIGHT {
            0
        } else if rows <= DISPLAY_HEIGHT - origin_y {
            rows
        } else {
            DISPLAY_HEIGHT - origin_y
        }
    }

    /// Xors one sprite row onto row `y`, starting at column `left`.
    fn draw_row(&mut self, left: usize, y: usize, byte: u8) -> (erased: bool)
        requires
            left < DISPLAY_WIDTH,
            y < DISPLAY_HEIGHT,
        ensures
            final(self)@ == old(self)@.blit_row(left as int, y as int, byte),
            erased == old(self)@.row_collides(left as int, y as int, byte),
    {
        let mut row_erased = false;
        let mut x_offset: u8 = 0;
        assert(self@.pixels =~= old(self)@.blit_columns(left as int, y as int, byte, 0).pixels);
        while x_offset < 8
            invariant
                x_offset <= 8,
                left < DISPLAY_WIDTH,
                y < DISPLAY_HEIGHT,
                self@ == old(self)@.blit_columns(left as int, y as int, byte, x_offset as int),
                row_erased == old(self)@.columns_collide(
                    left as int,
                    y as int,
                    byte,
                    x_offset as int,
                ),
            decreases 8 - x_offset,
        {
            let pixel = (byte >> (7 - x_offset)) & 1 == 1;
            proof {
                old(self)@.lemma_next_column(left as int, y as int, byte, x_offset as int);
            }
            let erased = self.set_pixel(left + x_offset as usize, y, pixel);
            row_erased = row_erased || erased;
            x_offset += 1;
        }
        row_erased
    }

    /// Draws a sprite with its top left corner at `(origin_x, origin_y)`
    /// and says whether that turned a pixel off.
    ///
    /// Each byte of `sprite` is a row of eight pixels, the most significant
    /// bit on the left. Columns wrap round to the left edge. Rows wrap round
    /// to the top where `vertical_wrap` is set; else the first row that lies
    /// below the display ends the drawing.
    pub fn draw(
        &mut self,
        origin_x: usize,
        origin_y: usize,
        sprite: &[u8],
        vertical_wrap: bool,
    ) -> (collision: bool)
        ensures
            final(self)@ == old(self)@.blit(
                origin_x as int,
                origin_y as int,
                sprite@.take(visible_rows(origin_y as int, sprite@.len() as int, vertical_wrap)),
            ),
            collision == old(self)@.collides(
                origin_x as int,
                origin_y as int,
                sprite@.take(visible_rows(origin_y as int, sprite@.len() as int, vertical_wrap)),
            ),
    {
        let rows = Display::visible_rows(origin_y, sprite.len(), vertical_wrap);
        let left = origin_x % DISPLAY_WIDTH;
        let top = origin_y % DISPLAY_HEIGHT;
        let mut pixel_erased = false;
        let mut y_offset: usize = 0;
        while y_offset < rows
            invariant
                y_offset <= rows <= sprite@.len(),
                left == origin_x % 64,
                top == origin_y % 32,
                self@ == old(self)@.blit(
                    origin_x as int,
                    origin_y as int,
                    sprite@.take(y_offset as int),
                ),
                pixel_erased == old(self)@.collides(
                    origin_x as int,
                    origin_y as int,
                    sprite@.take(y_offset as int),
                ),
            decreases rows - y_offset,
        {
            let byte = sprite[y_offset];
            let y = (top + y_offset % DISPLAY_HEIGHT) % DISPLAY_HEIGHT;
            proof {
                let drawn = sprite@.take(y_offset + 1);
                assert(drawn.drop_last() =~= sprite@.take(y_offset as int));
                assert(drawn.last() == byte);
                assert(y == (origin_y + y_offset) % 32);
                self@.lemma_row_wraps(origin_x as int, origin_y + y_offset, byte, 8);
            }
            let erased = self.draw_row(left, y, byte);
            pixel_erased = pixel_erased || erased;
            y_offset += 1;
        }
        pixel_erased
    }

    /// The coordinates of the pixels that are on, row by row from the top
    /// and from left to right in a row.
    pub fn lit_pixels(&self) -> (cells: Vec<(u8, u8)>)
        ensures
            self@.lit_in_order(cells@),
    {
        let mut cells: Vec<(u8, u8)> = Vec::new();
        let mut k: usize = 0;
        while k < DISPLAY_PIXELS
            invariant
                k <= DISPLAY_PIXELS,
                forall|i: int|
                    0 <= i < cells@.len() ==> (#[trigger] cells@[i]).0 < 64 && cells@[i].1 < 32
                        && cell_index(cells@[i]) < k && self@.at(
                        cells@[i].0 as int,
                        cells@[i].1 as int,
                    ),
                forall|i: int, j: int|
                    0 <= i < j < cells@.len() ==> cell_index(#[trigger] cells@[i]) < cell_index(
                        #[trigger] cells@[j],
                    ),
                forall|x: int, y: int|
                    0 <= x < 64 && 0 <= y < 32 && y * 64 + x < k && #[trigger] self@.at(x, y)
                        ==> cells@.contains((x as u8, y as u8)),
            decreases DISPLAY_PIXELS - k,
        {
            let ghost shorter = cells@;
            if self.pixels[k] {
                let cell = ((k % DISPLAY_WIDTH) as u8, (k / DISPLAY_WIDTH) as u8);
                cells.push(cell);
                proof {
                    assert(cell_index(cell) == k);
                    assert(self@.at(cell.0 as int, cell.1 as int));
                    assert forall|i: int| 0 <= i < cells@.len() implies (#[trigger] cells@[i]).0
                        < 64 && cells@[i].1 < 32 && cell_index(cells@[i]) < k + 1 && self@.at(
                        cells@[i].0 as int,
                        cells@[i].1 as int,
                    ) by {
                        if i < shorter.len() {
                            assert(cells@[i] == shorter[i]);
                        }
                    }
                    assert forall|i: int, j: int| 0 <= i < j < cells@.len() implies cell_index(
                        #[trigger] cells@[i],
                    ) < cell_index(#[trigger] cells@[j]) by {
                        assert(cells@[i] == shorter[i]);
                        if j < shorter.len() {
                            assert(cells@[j] == shorter[j]);
                        }
                    }
                }
            }
            proof {
                assert forall|x: int, y: int|
                    0 <= x < 64 && 0 <= y < 32 && y * 64 + x < k + 1 && #[trigger] self@.at(
                        x,
                        y,
                    ) implies cells@.contains((x as u8, y as u8)) by {
                    if y * 64 + x < k {
                        assert(shorter.contains((x as u8, y as u8)));
                        let i = choose|i: int|
                            0 <= i < shorter.len() && shorter[i] == (x as u8, y as u8);
                        assert(cells@[i] == (x as u8, y as u8));
                    } else {
                        assert(self.pixels@[k as int]);
                        assert(x == k % 64 && y == k / 64);
                        assert(cells@[shorter.len() as int] == (x as u8, y as u8));
                    }
                }
            }
            k += 1;
        }
        cells
    }
}

impl Screen {
    /// Xor-ing column `count` of a sprite row onto the screen that holds
    /// the columns before it gives the screen that holds one column more;
    /// and the pixel it lands on is still as it was before the row.
    proof fn lemma_next_column(self, left: int, y: int, byte: u8, count: int)
        requires
            self.wf(),
            0 <= left < 64,
            0 <= y < 32,
            0 <= count < 8,
        ensures
            self.blit_columns(left, y, byte, count).toggled(
                left + count,
                y,
                sprite_bit(byte, count),
            ) == self.blit_columns(left, y, byte, count + 1),
            self.blit_columns(left, y, byte, count).at((left + count) % 64, y % 32) == self.at(
                (left + count) % 64,
                y % 32,
            ),
            self.columns_collide(left, y, byte, count + 1) == (self.columns_collide(
                left,
                y,
                byte,
                count,
            ) || (sprite_bit(byte, count) && self.at((left + count) % 64, y % 32))),
    {
        let before = self.blit_columns(left, y, byte, count);
        let after = self.blit_columns(left, y, byte, count + 1);
        let x = (left + count) % 64;
        let target = y * 64 + x;
        assert((target % 64 - left) % 64 == count);
        assert(target / 64 == y);
        assert forall|k: int| 0 <= k < DISPLAY_PIXELS implies #[trigger] before.toggled(
            left + count,
            y,
            sprite_bit(byte, count),
        ).pixels[k] == after.pixels[k] by {
            if k != target {
                assert(k / 64 != y || (k % 64 - left) % 64 != count);
            }
        }
        assert(before.toggled(left + count, y, sprite_bit(byte, count)).pixels =~= after.pixels);
    }

    /// Two lists of the pixels that are on, each in order, agree in their
    /// first `count` entries.
    proof fn lemma_lit_prefixes_agree(self, first: Seq<(u8, u8)>, second: Seq<(u8, u8)>, count: int)
        requires
            self.lit_in_order(first),
            self.lit_in_order(second),
            0 <= count <= first.len(),
            count <= second.len(),
        ensures
            forall|i: int| 0 <= i < count ==> first[i] == second[i],
        decreases count,
    {
        if count > 0 {
            let i = count - 1;
            self.lemma_lit_prefixes_agree(first, second, i);
            // each list holds the other's entry `i`, and not before place `i`
            assert(self.at(first[i].0 as int, first[i].1 as int));
            assert(second.contains(first[i]));
            let in_second = choose|j: int| 0 <= j < second.len() && second[j] == first[i];
            if in_second < i {
                assert(cell_index(first[in_second]) < cell_index(first[i]));
            }
            assert(self.at(second[i].0 as int, second[i].1 as int));
            assert(first.contains(second[i]));
            let in_first = choose|j: int| 0 <= j < first.len() && first[j] == second[i];
            if in_first < i {
                assert(cell_index(second[in_first]) < cell_index(second[i]));
            }
            if in_second > i {
                assert(cell_index(second[i]) < cell_index(second[in_second]));
            }
            if in_first > i {
                assert(cell_index(first[i]) < cell_index(first[in_first]));
            }
            assert(cell_index(first[i]) == cell_index(second[i]));
        }
    }

    /// There is one list of the pixels that are on, in order, and no other.
    pub proof fn lemma_lit_in_order_is_unique(self, first: Seq<(u8, u8)>, second: Seq<(u8, u8)>)
        requires
            self.lit_in_order(first),
            self.lit_in_order(second),
        ensures
            first == second,
    {
        let count = if first.len() <= second.len() {
            first.len() as int
        } else {
            second.len() as int
        };
        self.lemma_lit_prefixes_agree(first, second, count);
        if first.len() > count {
            let extra = first[count];
            assert(self.at(extra.0 as int, extra.1 as int));
            assert(second.contains(extra));
            let j = choose|j: int| 0 <= j < second.len() && second[j] == extra;
            assert(cell_index(first[j]) < cell_index(first[count]));
        }
        if second.len() > count {
            let extra = second[count];
            assert(self.at(extra.0 as int, extra.1 as int));
            assert(first.contains(extra));
            let j = choose|j: int| 0 <= j < first.len() && first[j] == extra;
            assert(cell_index(second[j]) < cell_index(second[count]));
        }
        assert(first =~= second);
    }

    /// Drawing a sprite leaves the screen with as many pixels as it had.
    pub proof fn lemma_blit_keeps_size(self, origin_x: int, origin_y: int, sprite: Seq<u8>)
        ensures
            self.blit(origin_x, origin_y, sprite).pixels.len() == self.pixels.len(),
        decreases sprite.len(),
    {
        if sprite.len() > 0 {
            self.lemma_blit_keeps_size(origin_x, origin_y, sprite.drop_last());
        }
    }

    /// A sprite row lands on the same pixels wherever its coordinates are
    /// wrapped onto the display.
    pub proof fn lemma_row_wraps(self, origin_x: int, y: int, byte: u8, count: int)
        requires
            0 <= origin_x,
            0 <= y,
        ensures
            self.blit_columns(origin_x, y, byte, count) == self.blit_columns(
                origin_x % 64,
                y % 32,
                byte,
                count,
            ),
            self.columns_collide(origin_x, y, byte, count) == self.columns_collide(
                origin_x % 64,
                y % 32,
                byte,
                count,
            ),
        decreases count,
    {
        assert(self.blit_columns(origin_x, y, byte, count).pixels =~= self.blit_columns(
            origin_x % 64,
            y % 32,
            byte,
            count,
        ).pixels);
        if count > 0 {
            self.lemma_row_wraps(origin_x, y, byte, count - 1);
            assert((origin_x + count - 1) % 64 == (origin_x % 64 + count - 1) % 64);
        }
    }
}

impl Default for Display {
    fn default() -> (display: Display)
        ensures
            display@ == Screen::blank(true),
    {
        Display::new()
    }
}

} // verus!
