//! The framebuffer: a 64x32 row-major grid of monochrome pixels. Sprites are
//! XOR-blitted: the anchor coordinate wraps modulo the screen size once at
//! entry, rows and columns that would run past the right or bottom edge are
//! clipped, and turning any lit pixel off is reported as a collision.

use vstd::prelude::*;

verus! {

use vstd::arithmetic::div_mod::lemma_fundamental_div_mod;

/// The width of the screen in pixels.
pub const SCREEN_WIDTH_PIXELS: usize = 64;

/// The height of the screen in pixels.
pub const SCREEN_HEIGHT_PIXELS: usize = 32;

/// The column at which a sprite anchored at `x` is drawn: the anchor wraps
/// modulo the screen width once, at entry.
pub open spec fn wrapped_x(x: u8) -> int {
    (x % (SCREEN_WIDTH_PIXELS as u8)) as int
}

/// The row at which a sprite anchored at `y` is drawn.
pub open spec fn wrapped_y(y: u8) -> int {
    (y % (SCREEN_HEIGHT_PIXELS as u8)) as int
}

/// How many of a sprite's 8 columns fit between the wrapped anchor and the
/// right screen edge: columns past the edge are clipped, not wrapped.
pub open spec fn draw_width(x: u8) -> int {
    if wrapped_x(x) + 8 > SCREEN_WIDTH_PIXELS {
        SCREEN_WIDTH_PIXELS - wrapped_x(x)
    } else {
        8
    }
}

/// How many of a sprite's `len` rows fit between the wrapped anchor and the
/// bottom screen edge.
pub open spec fn draw_height(y: u8, len: int) -> int {
    if wrapped_y(y) + len > SCREEN_HEIGHT_PIXELS {
        SCREEN_HEIGHT_PIXELS - wrapped_y(y)
    } else {
        len
    }
}

/// Whether bit `ix` (counted from the most significant, drawn leftmost) of a
/// sprite row byte is set.
pub open spec fn row_bit(row: u8, ix: u8) -> bool {
    row & (0x80u8 >> ix) != 0
}

/// Whether the pixel at `(px, py)` lies in the clipped rectangle that drawing
/// a `len`-row sprite anchored at `(x, y)` covers.
pub open spec fn covers(x: u8, y: u8, len: int, px: int, py: int) -> bool {
    &&& wrapped_x(x) <= px < wrapped_x(x) + draw_width(x)
    &&& wrapped_y(y) <= py < wrapped_y(y) + draw_height(y, len)
}

/// The sprite bit drawn onto the pixel at `(px, py)`, which must lie in the
/// covered rectangle.
pub open spec fn sprite_bit_at(x: u8, y: u8, sprite: Seq<u8>, px: int, py: int) -> bool {
    row_bit(sprite[py - wrapped_y(y)], (px - wrapped_x(x)) as u8)
}

/// The screen after XOR-drawing `sprite` anchored at `(x, y)`: every pixel in
/// the covered rectangle is toggled by its sprite bit, every other pixel is
/// untouched.
pub open spec fn spec_draw(screen: Seq<bool>, x: u8, y: u8, sprite: Seq<u8>) -> Seq<bool> {
    Seq::new(
        screen.len(),
        |k: int|
            {
                let px = k % 64;
                let py = k / 64;
                if covers(x, y, sprite.len() as int, px, py) {
                    screen[k] != sprite_bit_at(x, y, sprite, px, py)
                } else {
                    screen[k]
                }
            },
    )
}

/// Whether XOR-drawing `sprite` anchored at `(x, y)` turns some lit pixel
/// off: a lit pixel in the covered rectangle meets a set sprite bit.
pub open spec fn spec_draw_collision(screen: Seq<bool>, x: u8, y: u8, sprite: Seq<u8>) -> bool {
    exists|px: int, py: int|
        #[trigger] covers(x, y, sprite.len() as int, px, py) && screen[py * 64 + px]
            && sprite_bit_at(x, y, sprite, px, py)
}

/// A screen with every pixel off.
pub open spec fn blank_screen() -> Seq<bool> {
    Seq::new((SCREEN_WIDTH_PIXELS * SCREEN_HEIGHT_PIXELS) as nat, |k: int| false)
}

/// Whether the pixel at `(px, py)` lies in the part of the covered rectangle
/// already drawn after `rows` full sprite rows and `cols` pixels of the next
/// row.
spec fn covers_partial(x: u8, y: u8, len: int, rows: int, cols: int, px: int, py: int) -> bool {
    &&& covers(x, y, len, px, py)
    &&& (py - wrapped_y(y) < rows || (py - wrapped_y(y) == rows && px - wrapped_x(x) < cols))
}

/// The screen part-way through a draw: pixels in the already-drawn region are
/// toggled, the rest untouched.
spec fn partial_draw(screen: Seq<bool>, x: u8, y: u8, sprite: Seq<u8>, rows: int, cols: int) -> Seq<
    bool,
> {
    Seq::new(
        screen.len(),
        |k: int|
            {
                let px = k % 64;
                let py = k / 64;
                if covers_partial(x, y, sprite.len() as int, rows, cols, px, py) {
                    screen[k] != sprite_bit_at(x, y, sprite, px, py)
                } else {
                    screen[k]
                }
            },
    )
}

/// Whether a collision has occurred in the already-drawn region.
spec fn partial_collision(screen: Seq<bool>, x: u8, y: u8, sprite: Seq<u8>, rows: int, cols: int) -> bool {
    exists|px: int, py: int|
        #[trigger] covers_partial(x, y, sprite.len() as int, rows, cols, px, py) && screen[py * 64
            + px] && sprite_bit_at(x, y, sprite, px, py)
}

/// Error produced by the pixel accessors for coordinates off the screen.
#[derive(Clone, Copy, Debug, PartialEq, Eq, Structural)]
pub enum ScreenError {
    /// The coordinate lies outside the 64x32 grid.
    OutOfRange { x: u8, y: u8 },
}

/// The state of the screen: 64 * 32 pixels in row-major order.
pub struct Chip8Screen {
    screen: Vec<bool>,
}

impl View for Chip8Screen {
    type V = Seq<bool>;

    closed spec fn view(&self) -> Seq<bool> {
        self.screen@
    }
}

/// The row-major index of the pixel at `(x, y)`.
pub fn calc_index(x: u8, y: u8) -> (r: usize)
    requires
        x < SCREEN_WIDTH_PIXELS,
        y < SCREEN_HEIGHT_PIXELS,
    ensures
        r == y * SCREEN_WIDTH_PIXELS + x,
{
    y as usize * SCREEN_WIDTH_PIXELS + x as usize
}

proof fn lemma_index_decomp(px: int, py: int)
    requires
        0 <= px < 64,
        0 <= py < 32,
    ensures
        (py * 64 + px) % 64 == px,
        (py * 64 + px) / 64 == py,
        0 <= py * 64 + px < 2048,
{
    assert((py * 64 + px) % 64 == px && (py * 64 + px) / 64 == py) by (nonlinear_arith)
        requires
            0 <= px < 64,
            0 <= py < 32,
    ;
}

impl Chip8Screen {
    /// The screen always holds exactly 64 * 32 pixels.
    pub open spec fn wf(&self) -> bool {
        self@.len() == SCREEN_WIDTH_PIXELS * SCREEN_HEIGHT_PIXELS
    }

    /// Create a screen with every pixel off.
    pub fn new() -> (s: Chip8Screen)
        ensures
            s.wf(),
            s@ == blank_screen(),
    {
        let mut screen: Vec<bool> = Vec::new();
        let mut i: usize = 0;
        while i < SCREEN_WIDTH_PIXELS * SCREEN_HEIGHT_PIXELS
            invariant
                i <= SCREEN_WIDTH_PIXELS * SCREEN_HEIGHT_PIXELS,
                screen@.len() == i,
                forall|k: int| 0 <= k < i ==> !screen@[k],
            decreases SCREEN_WIDTH_PIXELS * SCREEN_HEIGHT_PIXELS - i,
        {
            screen.push(false);
            i += 1;
        }
        let s = Chip8Screen { screen };
        proof {
            assert(s@ =~= blank_screen());
        }
        s
    }

    /// Turn every pixel off.
    pub fn clear(&mut self)
        ensures
            final(self).wf(),
            final(self)@ == blank_screen(),
    {
        let blank = Chip8Screen::new();
        self.screen = blank.screen;
    }

    /// XOR-draw an 8-pixel-wide sprite whose rows are the bytes of `sprite`,
    /// most significant bit leftmost, anchored at `(x, y)`. The anchor wraps
    /// modulo the screen size once at entry; rows and columns past the right
    /// or bottom edge are clipped. Returns whether any lit pixel was turned
    /// off.
    pub fn draw_sprite(&mut self, x: u8, y: u8, sprite: &[u8]) -> (collision: bool)
        requires
            old(self).wf(),
        ensures
            final(self).wf(),
            final(self)@ == spec_draw(old(self)@, x, y, sprite@),
            collision == spec_draw_collision(old(self)@, x, y, sprite@),
    {
        let ghost len = sprite@.len() as int;
        if sprite.is_empty() {
            proof {
                assert(self@ =~= spec_draw(old(self)@, x, y, sprite@));
                assert(forall|px: int, py: int| !covers(x, y, len, px, py));
            }
            return false;
        }
        let xw = x % (SCREEN_WIDTH_PIXELS as u8);
        let yw = y % (SCREEN_HEIGHT_PIXELS as u8);
        let sprite_height = sprite.len();
        let area_width: u8 = if xw as usize + 8 > SCREEN_WIDTH_PIXELS {
            (SCREEN_WIDTH_PIXELS - xw as usize) as u8
        } else {
            8
        };
        let area_height: usize = if sprite_height > SCREEN_HEIGHT_PIXELS - yw as usize {
            SCREEN_HEIGHT_PIXELS - yw as usize
        } else {
            sprite_height
        };
        let ghost s0 = self@;
        let mut collision = false;
        proof {
            assert(self@ =~= partial_draw(s0, x, y, sprite@, 0, 0));
        }
        let mut iy: usize = 0;
        while iy < area_height
            invariant
                self@.len() == SCREEN_WIDTH_PIXELS * SCREEN_HEIGHT_PIXELS,
                s0.len() == SCREEN_WIDTH_PIXELS * SCREEN_HEIGHT_PIXELS,
                sprite@.len() == sprite_height,
                len == sprite@.len() as int,
                xw as int == wrapped_x(x),
                yw as int == wrapped_y(y),
                area_width as int == draw_width(x),
                area_height as int == draw_height(y, len),
                iy <= area_height,
                self@ == partial_draw(s0, x, y, sprite@, iy as int, 0),
                collision == partial_collision(s0, x, y, sprite@, iy as int, 0),
            decreases area_height - iy,
        {
            let mut ix: u8 = 0;
            while ix < area_width
                invariant
                    self@.len() == SCREEN_WIDTH_PIXELS * SCREEN_HEIGHT_PIXELS,
                    s0.len() == SCREEN_WIDTH_PIXELS * SCREEN_HEIGHT_PIXELS,
                    sprite@.len() == sprite_height,
                    len == sprite@.len() as int,
                    xw as int == wrapped_x(x),
                    yw as int == wrapped_y(y),
                    area_width as int == draw_width(x),
                    area_height as int == draw_height(y, len),
                    iy < area_height,
                    ix <= area_width,
                    self@ == partial_draw(s0, x, y, sprite@, iy as int, ix as int),
                    collision == partial_collision(s0, x, y, sprite@, iy as int, ix as int),
                decreases area_width - ix,
            {
                let px = xw + ix;
                let py = yw + (iy as u8);
                proof {
                    lemma_index_decomp(px as int, py as int);
                }
                let idx = calc_index(px, py);
                let pixel = self.screen[idx];
                let sprite_pixel = (sprite[iy] & (0b1000_0000u8 >> ix)) != 0;
                proof {
                    assert(!covers_partial(x, y, len, iy as int, ix as int, px as int, py as int));
                    assert(pixel == s0[idx as int]);
                    assert(sprite_pixel == sprite_bit_at(x, y, sprite@, px as int, py as int));
                }
                if pixel && sprite_pixel {
                    collision = true;
                    proof {
                        assert(covers_partial(
                            x, y, len, iy as int, ix as int + 1, px as int, py as int,
                        ) && s0[py as int * 64 + px as int] && sprite_bit_at(
                            x, y, sprite@, px as int, py as int,
                        ));
                        assert(partial_collision(s0, x, y, sprite@, iy as int, ix as int + 1));
                    }
                } else {
                    proof {
                        if collision {
                            let (qx, qy) = choose|qx: int, qy: int|
                                covers_partial(x, y, len, iy as int, ix as int, qx, qy) && s0[qy
                                    * 64 + qx] && sprite_bit_at(x, y, sprite@, qx, qy);
                            assert(covers_partial(x, y, len, iy as int, ix as int + 1, qx, qy));
                            assert(partial_collision(s0, x, y, sprite@, iy as int, ix as int + 1));
                        } else {
                            assert forall|qx: int, qy: int|
                                !(#[trigger] covers_partial(
                                    x, y, len, iy as int, ix as int + 1, qx, qy,
                                ) && s0[qy * 64 + qx] && sprite_bit_at(x, y, sprite@, qx, qy)) by {
                                if covers_partial(x, y, len, iy as int, ix as int + 1, qx, qy)
                                    && s0[qy * 64 + qx] && sprite_bit_at(x, y, sprite@, qx, qy) {
                                    if covers_partial(x, y, len, iy as int, ix as int, qx, qy) {
                                        assert(partial_collision(
                                            s0, x, y, sprite@, iy as int, ix as int,
                                        ));
                                    } else {
                                        assert(qx == px as int && qy == py as int);
                                    }
                                }
                            }
                            assert(!partial_collision(s0, x, y, sprite@, iy as int, ix as int + 1));
                        }
                    }
                }
                self.screen[idx] = pixel != sprite_pixel;
                proof {
                    assert forall|k: int| 0 <= k < 2048 implies self@[k] == partial_draw(
                        s0, x, y, sprite@, iy as int, ix as int + 1,
                    )[k] by {
                        lemma_fundamental_div_mod(k, 64);
                    }
                    assert(self@ =~= partial_draw(s0, x, y, sprite@, iy as int, ix as int + 1));
                }
                ix += 1;
            }
            proof {
                assert forall|k: int| 0 <= k < 2048 implies partial_draw(
                    s0, x, y, sprite@, iy as int, area_width as int,
                )[k] == partial_draw(s0, x, y, sprite@, iy as int + 1, 0)[k] by {
                    lemma_fundamental_div_mod(k, 64);
                }
                assert(partial_draw(s0, x, y, sprite@, iy as int, area_width as int) =~= partial_draw(
                    s0, x, y, sprite@, iy as int + 1, 0,
                ));
                if partial_collision(s0, x, y, sprite@, iy as int, area_width as int) {
                    let (qx, qy) = choose|qx: int, qy: int|
                        covers_partial(x, y, len, iy as int, area_width as int, qx, qy) && s0[qy * 64
                            + qx] && sprite_bit_at(x, y, sprite@, qx, qy);
                    assert(covers_partial(x, y, len, iy as int + 1, 0, qx, qy));
                    assert(partial_collision(s0, x, y, sprite@, iy as int + 1, 0));
                }
                if partial_collision(s0, x, y, sprite@, iy as int + 1, 0) {
                    let (qx, qy) = choose|qx: int, qy: int|
                        covers_partial(x, y, len, iy as int + 1, 0, qx, qy) && s0[qy * 64 + qx]
                            && sprite_bit_at(x, y, sprite@, qx, qy);
                    assert(covers_partial(x, y, len, iy as int, area_width as int, qx, qy));
                    assert(partial_collision(s0, x, y, sprite@, iy as int, area_width as int));
                }
            }
            iy += 1;
        }
        proof {
            assert forall|k: int| 0 <= k < 2048 implies partial_draw(
                s0, x, y, sprite@, area_height as int, 0,
            )[k] == spec_draw(s0, x, y, sprite@)[k] by {
                lemma_fundamental_div_mod(k, 64);
            }
            assert(partial_draw(s0, x, y, sprite@, area_height as int, 0) =~= spec_draw(
                s0, x, y, sprite@,
            ));
            if partial_collision(s0, x, y, sprite@, area_height as int, 0) {
                let (qx, qy) = choose|qx: int, qy: int|
                    covers_partial(x, y, len, area_height as int, 0, qx, qy) && s0[qy * 64 + qx]
                        && sprite_bit_at(x, y, sprite@, qx, qy);
                assert(covers(x, y, len, qx, qy));
                assert(spec_draw_collision(s0, x, y, sprite@));
            }
            if spec_draw_collision(s0, x, y, sprite@) {
                let (qx, qy) = choose|qx: int, qy: int|
                    covers(x, y, len, qx, qy) && s0[qy * 64 + qx] && sprite_bit_at(
                        x, y, sprite@, qx, qy,
                    );
                assert(covers_partial(x, y, len, area_height as int, 0, qx, qy));
                assert(partial_collision(s0, x, y, sprite@, area_height as int, 0));
            }
        }
        collision
    }

    /// Read the pixel at `(x, y)`, or report the coordinate as off-screen.
    pub fn get_pixel(&self, x: u8, y: u8) -> (r: Result<bool, ScreenError>)
        requires
            self.wf(),
        ensures
            x < SCREEN_WIDTH_PIXELS && y < SCREEN_HEIGHT_PIXELS ==> r == Ok::<bool, ScreenError>(
                self@[y * SCREEN_WIDTH_PIXELS + x],
            ),
            x >= SCREEN_WIDTH_PIXELS || y >= SCREEN_HEIGHT_PIXELS ==> r == Err::<bool, ScreenError>(
                ScreenError::OutOfRange { x, y },
            ),
    {
        if x < SCREEN_WIDTH_PIXELS as u8 && y < SCREEN_HEIGHT_PIXELS as u8 {
            Ok(self.screen[calc_index(x, y)])
        } else {
            Err(ScreenError::OutOfRange { x, y })
        }
    }

    /// Write the pixel at `(x, y)`, or report the coordinate as off-screen
    /// and leave the screen unchanged.
    pub fn set_pixel(&mut self, x: u8, y: u8, value: bool) -> (r: Result<(), ScreenError>)
        requires
            old(self).wf(),
        ensures
            final(self).wf(),
            x < SCREEN_WIDTH_PIXELS && y < SCREEN_HEIGHT_PIXELS ==> r == Ok::<(), ScreenError>(())
                && final(self)@ == old(self)@.update(y * SCREEN_WIDTH_PIXELS + x, value),
            x >= SCREEN_WIDTH_PIXELS || y >= SCREEN_HEIGHT_PIXELS ==> r == Err::<(), ScreenError>(
                ScreenError::OutOfRange { x, y },
            ) && final(self)@ == old(self)@,
    {
        if x < SCREEN_WIDTH_PIXELS as u8 && y < SCREEN_HEIGHT_PIXELS as u8 {
            let idx = calc_index(x, y);
            self.screen[idx] = value;
            Ok(())
        } else {
            Err(ScreenError::OutOfRange { x, y })
        }
    }
}

/// Law: XOR-drawing is self-inverse against a cleared screen. Drawing any
/// sprite on a blank screen reports no collision; drawing the identical
/// sprite at the same anchor a second time toggles every drawn pixel back
/// off, restoring the blank screen, and the second draw reports a collision
/// exactly when the first draw lit some pixel.
pub proof fn lemma_sprite_redraw_restores(x: u8, y: u8, sprite: Seq<u8>)
    ensures
        !spec_draw_collision(blank_screen(), x, y, sprite),
        spec_draw(spec_draw(blank_screen(), x, y, sprite), x, y, sprite) =~= blank_screen(),
        spec_draw_collision(spec_draw(blank_screen(), x, y, sprite), x, y, sprite) <==> (exists|
            k: int,
        |
            0 <= k < 2048 && #[trigger] spec_draw(blank_screen(), x, y, sprite)[k]),
{
    let blank = blank_screen();
    let s1 = spec_draw(blank, x, y, sprite);
    let len = sprite.len() as int;
    assert forall|px: int, py: int|
        !(#[trigger] covers(x, y, len, px, py) && blank[py * 64 + px] && sprite_bit_at(
            x, y, sprite, px, py,
        )) by {
        if covers(x, y, len, px, py) {
            lemma_index_decomp(px, py);
        }
    }
    assert(!spec_draw_collision(blank, x, y, sprite));
    assert(spec_draw(s1, x, y, sprite) =~= blank);
    if spec_draw_collision(s1, x, y, sprite) {
        let (px, py) = choose|px: int, py: int|
            #[trigger] covers(x, y, len, px, py) && s1[py * 64 + px] && sprite_bit_at(
                x, y, sprite, px, py,
            );
        lemma_index_decomp(px, py);
        assert(0 <= py * 64 + px < 2048 && spec_draw(blank_screen(), x, y, sprite)[py * 64 + px]);
    }
    if exists|k: int| 0 <= k < 2048 && #[trigger] spec_draw(blank_screen(), x, y, sprite)[k] {
        let k = choose|k: int| 0 <= k < 2048 && #[trigger] spec_draw(blank_screen(), x, y, sprite)[k];
        lemma_fundamental_div_mod(k, 64);
        assert(covers(x, y, len, k % 64, k / 64));
        assert(s1[(k / 64) * 64 + (k % 64)]);
        assert(spec_draw_collision(s1, x, y, sprite));
    }
}

} // verus!
