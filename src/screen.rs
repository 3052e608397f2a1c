use vstd::prelude::*;
use vstd::arithmetic::div_mod::lemma_fundamental_div_mod_converse;

verus! {

/// Height of the display, in pixels.
pub const SCREEN_HEIGHT: usize = 32;

/// Width of the display, in pixels.
pub const SCREEN_WIDTH: usize = 64;

/// Width of a sprite row, in pixels.
pub const SPRITE_WIDTH: usize = 8;

/// A monochrome pixel grid, stored row by row.
pub struct Screen {
    screen: Vec<bool>,
    screen_height: usize,
    screen_width: usize,
}

/// Whether pixel `col` (0 is leftmost) of a sprite row is set: the most
/// significant bit is the leftmost pixel.
pub open spec fn sprite_bit(row_bits: u8, col: int) -> bool {
    0 <= col < SPRITE_WIDTH && (row_bits & (0x80u8 >> (col as u8))) != 0
}

/// Whether a sprite drawn with its top-left corner at (`x`, `y`) toggles the
/// pixel in column `col` and row `row`.
pub open spec fn pixel_covered(sprite: Seq<u8>, x: int, y: int, col: int, row: int) -> bool {
    &&& x <= col < x + SPRITE_WIDTH
    &&& y <= row < y + sprite.len()
    &&& sprite_bit(sprite[row - y], col - x)
}

/// The pixels of a grid `width` wide after `sprite` is XOR-drawn at (`x`, `y`).
/// Only pixels that exist change: what runs past an edge is clipped.
pub open spec fn drawn(pixels: Seq<bool>, width: int, sprite: Seq<u8>, x: int, y: int) -> Seq<
    bool,
> {
    Seq::new(
        pixels.len(),
        |p: int| pixels[p] != pixel_covered(sprite, x, y, p % width, p / width),
    )
}

/// Whether drawing `sprite` at (`x`, `y`) turns some set pixel off.
pub open spec fn collides(pixels: Seq<bool>, width: int, sprite: Seq<u8>, x: int, y: int) -> bool {
    exists|p: int|
        0 <= p < pixels.len() && pixels[p] && pixel_covered(sprite, x, y, p % width, p / width)
}

/// Whether pixel `p` of a grid `width` wide lies before the one at (`col`, `row`)
/// in drawing order.
spec fn visited(p: int, width: int, col: int, row: int) -> bool {
    p / width < row || (p / width == row && p % width < col)
}

proof fn lemma_position(col: int, row: int, width: int, height: int)
    requires
        0 <= col < width,
        0 <= row < height,
    ensures
        (row * width + col) % width == col,
        (row * width + col) / width == row,
        0 <= row * width + col < height * width,
        row * width + col < width * height,
{
    lemma_fundamental_div_mod_converse(row * width + col, width, row, col);
    assert(0 <= row * width + col < height * width && height * width == width * height)
        by (nonlinear_arith)
        requires
            0 <= col < width,
            0 <= row < height,
    ;
}

proof fn lemma_split(p: int, width: int, height: int)
    requires
        0 <= p < width * height,
        0 <= width,
        0 <= height,
    ensures
        0 < width,
        p == (p / width) * width + p % width,
        0 <= p % width < width,
        0 <= p / width < height,
{
    assert(0 < width) by (nonlinear_arith)
        requires
            0 <= p < width * height,
            0 <= height,
    ;
    vstd::arithmetic::div_mod::lemma_fundamental_div_mod(p, width);
    vstd::arithmetic::div_mod::lemma_mod_pos_bound(p, width);
    vstd::arithmetic::div_mod::lemma_div_pos_is_pos(p, width);
    let q = p / width;
    let r = p % width;
    assert(p == q * width + r && q < height) by (nonlinear_arith)
        requires
            p == width * q + r,
            0 <= r < width,
            0 <= q,
            p < width * height,
    ;
}

impl Screen {
    /// One pixel for each column of each row.
    pub closed spec fn wf(&self) -> bool {
        self.screen@.len() == self.screen_width * self.screen_height
    }

    /// The pixels, row by row; `true` is lit.
    pub closed spec fn pixels(&self) -> Seq<bool> {
        self.screen@
    }

    pub closed spec fn width(&self) -> usize {
        self.screen_width
    }

    pub closed spec fn height(&self) -> usize {
        self.screen_height
    }

    /// A dark screen `width` pixels wide and `height` pixels high.
    pub fn with_dimensions(width: usize, height: usize) -> (r: Screen)
        requires
            width * height <= usize::MAX,
        ensures
            r.wf(),
            r.width() == width,
            r.height() == height,
            r.pixels() == Seq::new((width * height) as nat, |p: int| false),
    {
        let size = width * height;
        let screen = vec![false; size];
        let r = Screen { screen, screen_height: height, screen_width: width };
        assert(r.pixels() =~= Seq::new((width * height) as nat, |p: int| false));
        r
    }

    pub fn retrieve_state(&self) -> (r: &[bool])
        ensures
            r@ == self.pixels(),
    {
        self.screen.as_slice()
    }

    /// (width, height)
    pub fn get_dimensions(&self) -> (r: (usize, usize))
        ensures
            r == (self.width(), self.height()),
    {
        (self.screen_width, self.screen_height)
    }

    /// Turns every pixel off.
    pub fn clear(&mut self)
        requires
            old(self).wf(),
        ensures
            final(self).wf(),
            final(self).width() == old(self).width(),
            final(self).height() == old(self).height(),
            final(self).pixels() == Seq::new(old(self).pixels().len(), |p: int| false),
    {
        let n = self.screen.len();
        let mut i: usize = 0;
        while i < n
            invariant
                n == self.screen@.len(),
                n == self.screen_width * self.screen_height,
                self.screen_width == old(self).screen_width,
                self.screen_height == old(self).screen_height,
                n == old(self).screen@.len(),
                i <= n,
                forall|j: int| 0 <= j < i ==> !self.screen@[j],
            decreases n - i,
        {
            self.screen.set(i, false);
            i = i + 1;
        }
        assert(self.pixels() =~= Seq::new(old(self).pixels().len(), |p: int| false));
    }

    /// XOR-draws `sprite`, one byte per row, with its top-left corner at
    /// (`pos_x`, `pos_y`); rows and columns past the edges are clipped. Returns
    /// whether some lit pixel was turned off.
    pub fn draw(&mut self, pos_x: u8, pos_y: u8, sprite: &[u8]) -> (r: bool)
        requires
            old(self).wf(),
        ensures
            final(self).wf(),
            final(self).width() == old(self).width(),
            final(self).height() == old(self).height(),
            final(self).pixels() == drawn(
                old(self).pixels(),
                old(self).width() as int,
                sprite@,
                pos_x as int,
                pos_y as int,
            ),
            r == collides(
                old(self).pixels(),
                old(self).width() as int,
                sprite@,
                pos_x as int,
                pos_y as int,
            ),
            forall|col: int, row: int|
                #![trigger old(self).pixels()[row * old(self).width() + col]]
                0 <= col < old(self).width() && 0 <= row < old(self).height() && (col < pos_x
                    || row < pos_y) ==> final(self).pixels()[row * old(self).width() + col]
                    == old(self).pixels()[row * old(self).width() + col],
    {
        let ghost before = self.screen@;
        let total = self.screen.len();
        let w = self.screen_width;
        let h = self.screen_height;
        let x = pos_x as usize;
        let y = pos_y as usize;
        let ghost wi = w as int;
        let ghost s = sprite@;
        let rows: usize = if y >= h {
            0
        } else if sprite.len() < h - y {
            sprite.len()
        } else {
            h - y
        };
        let cols: usize = if x >= w {
            0
        } else if SPRITE_WIDTH < w - x {
            SPRITE_WIDTH
        } else {
            w - x
        };
        let mut pixel_flipped: bool = false;
        let mut row: usize = 0;
        while row < rows
            invariant
                w == self.screen_width,
                h == self.screen_height,
                w == old(self).screen_width,
                h == old(self).screen_height,
                before == old(self).screen@,
                wi == w,
                s == sprite@,
                x == pos_x,
                y == pos_y,
                self.screen@.len() == before.len(),
                before.len() == w * h,
                total == before.len(),
                rows <= sprite@.len(),
                rows > 0 ==> y + rows <= h,
                cols <= SPRITE_WIDTH,
                cols > 0 ==> x + cols <= w,
                x < w ==> (cols == SPRITE_WIDTH || x + cols == w),
                y < h ==> (rows == sprite@.len() || y + rows == h),
                y >= h ==> rows == 0,
                row <= rows,
                forall|p: int|
                    0 <= p < before.len() ==> #[trigger] self.screen@[p] == (before[p] != (
                    pixel_covered(s, x as int, y as int, p % wi, p / wi) && visited(
                        p,
                        wi,
                        0,
                        y + row,
                    ))),
                pixel_flipped <==> exists|p: int|
                    0 <= p < before.len() && before[p] && pixel_covered(
                        s,
                        x as int,
                        y as int,
                        p % wi,
                        p / wi,
                    ) && visited(p, wi, 0, y + row),
            decreases rows - row,
        {
            let sprite_row = sprite[row];
            let mut col: usize = 0;
            while col < cols
                invariant
                    w == self.screen_width,
                    h == self.screen_height,
                    w == old(self).screen_width,
                    h == old(self).screen_height,
                    before == old(self).screen@,
                    wi == w,
                    s == sprite@,
                    x == pos_x,
                    y == pos_y,
                    self.screen@.len() == before.len(),
                    before.len() == w * h,
                    total == before.len(),
                    rows <= sprite@.len(),
                    row < rows,
                    y + rows <= h,
                    sprite_row == s[row as int],
                    cols <= SPRITE_WIDTH,
                    cols > 0 ==> x + cols <= w,
                    x < w ==> (cols == SPRITE_WIDTH || x + cols == w),
                    col <= cols,
                    forall|p: int|
                        0 <= p < before.len() ==> #[trigger] self.screen@[p] == (before[p] != (
                        pixel_covered(s, x as int, y as int, p % wi, p / wi) && visited(
                            p,
                            wi,
                            x + col,
                            y + row,
                        ))),
                    pixel_flipped <==> exists|p: int|
                        0 <= p < before.len() && before[p] && pixel_covered(
                            s,
                            x as int,
                            y as int,
                            p % wi,
                            p / wi,
                        ) && visited(p, wi, x + col, y + row),
                decreases cols - col,
            {
                let ghost cur = self.screen@;
                let ghost flipped_before = pixel_flipped;
                let ghost c = (x + col) as int;
                let ghost rr = (y + row) as int;
                proof {
                    lemma_position(c, rr, wi, h as int);
                }
                let line = y + row;
                let column = x + col;
                assert(line * w + column < total);
                let pos = line * w + column;
                assert(pixel_covered(s, x as int, y as int, c, rr) == sprite_bit(
                    sprite_row,
                    col as int,
                ));
                if (sprite_row & (0x80u8 >> (col as u8))) > 0 {
                    if self.screen[pos] {
                        pixel_flipped = true;
                    }
                    let toggled = !self.screen[pos];
                    self.screen.set(pos, toggled);
                }
                col = col + 1;
                proof {
                    assert forall|p: int| 0 <= p < before.len() implies #[trigger] visited(
                        p,
                        wi,
                        x + col,
                        y + row,
                    ) == (visited(p, wi, c, y + row) || p == pos) by {
                        lemma_split(p, wi, h as int);
                    }
                    assert(!visited(pos as int, wi, c, y + row));
                    assert forall|p: int| 0 <= p < before.len() implies #[trigger] self.screen@[p]
                        == (before[p] != (pixel_covered(s, x as int, y as int, p % wi, p / wi)
                        && visited(p, wi, x + col, y + row))) by {
                        if p != pos {
                            assert(self.screen@[p] == cur[p]);
                        }
                    }
                    if flipped_before {
                        let q = choose|q: int|
                            0 <= q < before.len() && before[q] && pixel_covered(
                                s,
                                x as int,
                                y as int,
                                q % wi,
                                q / wi,
                            ) && visited(q, wi, c, y + row);
                        assert(visited(q, wi, x + col, y + row));
                    }
                    if pixel_flipped && !flipped_before {
                        let pp = pos as int;
                        assert(cur[pp] == before[pp]);
                        assert(visited(pp, wi, x + col, y + row));
                        assert(0 <= pp < before.len() && before[pp] && pixel_covered(
                            s,
                            x as int,
                            y as int,
                            pp % wi,
                            pp / wi,
                        ) && visited(pp, wi, x + col, y + row));
                    }
                    if !pixel_flipped {
                        assert forall|q: int|
                            0 <= q < before.len() && before[q] && pixel_covered(
                                s,
                                x as int,
                                y as int,
                                q % wi,
                                q / wi,
                            ) implies !#[trigger] visited(q, wi, x + col, y + row) by {
                            if q != pos {
                                assert(!visited(q, wi, c, y + row));
                            }
                        }
                    }
                }
            }
            let ghost row0 = row as int;
            row = row + 1;
            proof {
                assert forall|p: int|
                    0 <= p < before.len() && pixel_covered(
                        s,
                        x as int,
                        y as int,
                        p % wi,
                        p / wi,
                    ) implies #[trigger] visited(p, wi, 0, y + row) == visited(
                    p,
                    wi,
                    x + cols,
                    y + row0,
                ) by {
                    lemma_split(p, wi, h as int);
                }
                if pixel_flipped {
                    let q = choose|q: int|
                        0 <= q < before.len() && before[q] && pixel_covered(
                            s,
                            x as int,
                            y as int,
                            q % wi,
                            q / wi,
                        ) && visited(q, wi, x + cols, y + row0);
                    assert(visited(q, wi, 0, y + row));
                }
            }
        }
        proof {
            assert forall|p: int|
                0 <= p < before.len() && pixel_covered(
                    s,
                    x as int,
                    y as int,
                    p % wi,
                    p / wi,
                ) implies #[trigger] visited(p, wi, 0, y + rows) by {
                lemma_split(p, wi, h as int);
            }
            assert(self.screen@ =~= drawn(before, wi, s, x as int, y as int));
            if pixel_flipped {
                let q = choose|q: int|
                    0 <= q < before.len() && before[q] && pixel_covered(
                        s,
                        x as int,
                        y as int,
                        q % wi,
                        q / wi,
                    ) && visited(q, wi, 0, y + rows);
                assert(collides(before, wi, s, x as int, y as int));
            }
            assert forall|col: int, row: int|
                0 <= col < w && 0 <= row < h && (col < pos_x || row < pos_y) implies self.screen@[row
                * w + col] == #[trigger] before[row * w + col] by {
                lemma_position(col, row, wi, h as int);
            }
        }
        pixel_flipped
    }

    /// The index of pixel (`pos_x`, `pos_y`) in the row-by-row pixel sequence.
    pub fn translate_coordinate(&self, pos_x: u8, pos_y: u8) -> (r: usize)
        requires
            self.wf(),
            (pos_x as int) < self.width(),
            (pos_y as int) < self.height(),
        ensures
            r == pos_x + pos_y * self.width(),
    {
        let total = self.screen.len();
        let x = pos_x as usize;
        let y = pos_y as usize;
        let w = self.screen_width;
        proof {
            lemma_position(x as int, y as int, w as int, self.height() as int);
        }
        assert(y * w + x < total);
        x + y * w
    }
}

impl Default for Screen {
    /// A dark 64 by 32 screen.
    fn default() -> (r: Screen)
        ensures
            r.wf(),
            r.width() == SCREEN_WIDTH,
            r.height() == SCREEN_HEIGHT,
            r.pixels() == Seq::new((SCREEN_WIDTH * SCREEN_HEIGHT) as nat, |p: int| false),
    {
        Screen::with_dimensions(SCREEN_WIDTH, SCREEN_HEIGHT)
    }
}

/// Drawing the same sprite twice at the same place gives back the pixels it
/// started from. On a dark grid the first of the two draws reports no
/// collision, and the second reports one as soon as the sprite lit a pixel.
pub proof fn lemma_draw_twice(pixels: Seq<bool>, width: int, sprite: Seq<u8>, x: int, y: int)
    ensures
        drawn(drawn(pixels, width, sprite, x, y), width, sprite, x, y) == pixels,
        (forall|p: int| 0 <= p < pixels.len() ==> !pixels[p]) ==> !collides(
            pixels,
            width,
            sprite,
            x,
            y,
        ),
        (forall|p: int| 0 <= p < pixels.len() ==> !pixels[p]) && (exists|p: int|
            0 <= p < pixels.len() && #[trigger] pixel_covered(sprite, x, y, p % width, p / width))
            ==> collides(drawn(pixels, width, sprite, x, y), width, sprite, x, y),
{
    assert(drawn(drawn(pixels, width, sprite, x, y), width, sprite, x, y) =~= pixels);
    if (forall|p: int| 0 <= p < pixels.len() ==> !pixels[p]) && (exists|p: int|
        0 <= p < pixels.len() && #[trigger] pixel_covered(sprite, x, y, p % width, p / width)) {
        let q = choose|q: int|
            0 <= q < pixels.len() && #[trigger] pixel_covered(sprite, x, y, q % width, q / width);
        assert(drawn(pixels, width, sprite, x, y)[q]);
    }
}

} // verus!
