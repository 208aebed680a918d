//! A 64 by 32 two-color pixel grid with clear and sprite-composite
//! operations.
//!
//! Sprites are drawn by XOR: a set sprite bit toggles the pixel under it,
//! and the draw reports whether any pixel was turned off by that toggle.
//! Sprite bits whose target falls outside the grid are dropped silently.

use vstd::prelude::*;

use crate::bit_operations;
use crate::bit_operations::spec_nth_bit;
use crate::error::Chip8Error;

verus! {

/// A screen coordinate pair; the origin is the top-left corner.
#[derive(Clone, Copy, Debug, Eq, PartialEq, Structural)]
pub struct Position {
    pub x: u8,
    pub y: u8,
}

impl Position {
    pub fn new(x: u8, y: u8) -> (r: Position)
        ensures
            r == (Position { x, y }),
    {
        Position { x, y }
    }
}

/// The state of one screen cell.
#[derive(Clone, Copy, Debug, Eq, PartialEq, Structural)]
pub enum Pixel {
    On,
    Off,
}

impl Default for Pixel {
    fn default() -> (r: Self)
        ensures
            r == Pixel::Off,
    {
        Pixel::Off
    }
}

/// Whether a sprite draw turned any pixel from on to off; the CPU mirrors
/// this report into the flags register.
#[derive(Clone, Copy, Debug, Eq, PartialEq, Structural)]
pub enum AnyPixelsUnset {
    Yes,
    No,
}

/// The pixel grid, stored row-major; its view is a 32-row sequence of
/// 64-column rows of booleans, `true` meaning the pixel is on.
#[derive(Debug, Eq, PartialEq)]
pub struct Screen {
    pixels: [Pixel; 2048],
}

impl View for Screen {
    type V = Seq<Seq<bool>>;

    closed spec fn view(&self) -> Seq<Seq<bool>> {
        Seq::new(32, |y: int| Seq::new(64, |x: int| self.pixels@[y * 64 + x] == Pixel::On))
    }
}

/// A position names a grid cell exactly when it lies in [0,64) x [0,32).
pub open spec fn spec_valid_position(position: Position) -> bool {
    position.x < 64 && position.y < 32
}

/// A 32-row grid of 64-column rows.
pub open spec fn spec_grid_wf(grid: Seq<Seq<bool>>) -> bool {
    grid.len() == 32 && (forall|y: int| 0 <= y < 32 ==> (#[trigger] grid[y]).len() == 64)
}

/// The grid with every pixel off.
pub open spec fn spec_blank_grid() -> Seq<Seq<bool>> {
    Seq::new(32, |y: int| Seq::new(64, |x: int| false))
}

/// The sprite bit in row `yi` at column `xi`, with column 0 the leftmost
/// (most significant) bit of the row byte.
pub open spec fn spec_sprite_bit(rows: Seq<u8>, yi: int, xi: int) -> bool {
    spec_nth_bit((7 - xi) as u8, rows[yi])
}

/// Whether grid cell (row `r`, column `c`) lies under a sprite of
/// `h` rows drawn with its top-left corner at column `x`, row `y`.
pub open spec fn spec_covered(x: int, y: int, h: int, r: int, c: int) -> bool {
    y <= r < y + h && x <= c < x + 8
}

/// The grid after a sprite draw: every covered cell whose sprite bit is
/// set is toggled; every other cell, and every sprite bit that falls
/// outside the grid, is left alone.
pub open spec fn spec_draw(grid: Seq<Seq<bool>>, x: int, y: int, rows: Seq<u8>) -> Seq<Seq<bool>> {
    Seq::new(
        grid.len(),
        |r: int|
            Seq::new(
                grid[r].len(),
                |c: int|
                    if spec_covered(x, y, rows.len() as int, r, c) && spec_sprite_bit(
                        rows,
                        r - y,
                        c - x,
                    ) {
                        !grid[r][c]
                    } else {
                        grid[r][c]
                    },
            ),
    )
}

/// Whether a sprite draw on `grid` turns some pixel off: a covered,
/// in-grid cell whose sprite bit is set and whose pixel is already on.
pub open spec fn spec_collision(grid: Seq<Seq<bool>>, x: int, y: int, rows: Seq<u8>) -> bool {
    exists|r: int, c: int|
        #![trigger grid[r][c]]
        0 <= r < grid.len() && 0 <= c < grid[r].len() && spec_covered(
            x,
            y,
            rows.len() as int,
            r,
            c,
        ) && spec_sprite_bit(rows, r - y, c - x) && grid[r][c]
}

/// The grid after the first `n` sprite cells (row-major within the
/// sprite) have been composited.
spec fn spec_draw_upto(grid: Seq<Seq<bool>>, x: int, y: int, rows: Seq<u8>, n: int) -> Seq<
    Seq<bool>,
> {
    Seq::new(
        grid.len(),
        |r: int|
            Seq::new(
                grid[r].len(),
                |c: int|
                    if spec_covered(x, y, rows.len() as int, r, c) && (r - y) * 8 + (c - x) < n
                        && spec_sprite_bit(rows, r - y, c - x) {
                        !grid[r][c]
                    } else {
                        grid[r][c]
                    },
            ),
    )
}

/// Whether one of the first `n` sprite cells turns a pixel off.
spec fn spec_collision_upto(grid: Seq<Seq<bool>>, x: int, y: int, rows: Seq<u8>, n: int) -> bool {
    exists|r: int, c: int|
        #![trigger grid[r][c]]
        0 <= r < grid.len() && 0 <= c < grid[r].len() && spec_covered(
            x,
            y,
            rows.len() as int,
            r,
            c,
        ) && (r - y) * 8 + (c - x) < n && spec_sprite_bit(rows, r - y, c - x) && grid[r][c]
}

/// Two cells of a row-major layout with the same flat index are the
/// same cell.
proof fn lemma_cell_index_unique(m: int, a: int, b: int, a2: int, b2: int)
    by (nonlinear_arith)
    requires
        m > 0,
        0 <= b < m,
        0 <= b2 < m,
        a * m + b == a2 * m + b2,
    ensures
        a == a2 && b == b2,
{
}

impl Default for Screen {
    /// A fresh screen has every pixel off.
    fn default() -> (r: Self)
        ensures
            r@ == spec_blank_grid(),
    {
        let screen = Screen { pixels: [Pixel::Off; 2048] };
        proof {
            vstd::array::axiom_spec_array_fill_for_copy_type::<Pixel, 2048>(Pixel::Off);
            assert(forall|i: int| 0 <= i < 2048 ==> screen.pixels@[i] == Pixel::Off);
            assert(screen@ =~~= spec_blank_grid());
        }
        screen
    }
}

impl Screen {
    /// Sets every pixel off.
    pub fn clear(&mut self)
        ensures
            final(self)@ == spec_blank_grid(),
    {
        self.pixels = [Pixel::Off; 2048];
        proof {
            vstd::array::axiom_spec_array_fill_for_copy_type::<Pixel, 2048>(Pixel::Off);
            assert(forall|i: int| 0 <= i < 2048 ==> self.pixels@[i] == Pixel::Off);
            assert(self@ =~~= spec_blank_grid());
        }
    }

    /// Composites a sprite, one byte per 8-pixel row, with its top-left
    /// corner at `position`.  Set bits toggle the pixel under them;
    /// off-screen spill is dropped without error.  Reports `Yes` exactly
    /// when some pixel was turned off.
    pub fn draw_sprite(&mut self, position: &Position, bytes: &[u8]) -> (r: Result<
        AnyPixelsUnset,
        Chip8Error,
    >)
        ensures
            final(self)@ == spec_draw(old(self)@, position.x as int, position.y as int, bytes@),
            r == Ok::<AnyPixelsUnset, Chip8Error>(
                if spec_collision(old(self)@, position.x as int, position.y as int, bytes@) {
                    AnyPixelsUnset::Yes
                } else {
                    AnyPixelsUnset::No
                },
            ),
    {
        let ghost pre = self@;
        let ghost gx = position.x as int;
        let ghost gy = position.y as int;

        let mut any_unset = AnyPixelsUnset::No;
        let mut yi: usize = 0;
        while yi < bytes.len()
            invariant
                0 <= yi <= bytes@.len(),
                self@ =~~= spec_draw_upto(pre, gx, gy, bytes@, 8 * yi),
                any_unset == (if spec_collision_upto(pre, gx, gy, bytes@, 8 * yi) {
                    AnyPixelsUnset::Yes
                } else {
                    AnyPixelsUnset::No
                }),
                gx == position.x as int,
                gy == position.y as int,
                pre.len() == 32,
                forall|rr: int| 0 <= rr < 32 ==> (#[trigger] pre[rr]).len() == 64,
            decreases bytes@.len() - yi,
        {
            let row_byte = bytes[yi];
            let mut xi: u8 = 0;
            while xi < 8
                invariant
                    0 <= xi <= 8,
                    0 <= yi < bytes@.len(),
                    row_byte == bytes@[yi as int],
                    self@ =~~= spec_draw_upto(pre, gx, gy, bytes@, 8 * yi + xi),
                    any_unset == (if spec_collision_upto(pre, gx, gy, bytes@, 8 * yi + xi) {
                        AnyPixelsUnset::Yes
                    } else {
                        AnyPixelsUnset::No
                    }),
                    gx == position.x as int,
                    gy == position.y as int,
                    pre.len() == 32,
                    forall|rr: int| 0 <= rr < 32 ==> (#[trigger] pre[rr]).len() == 64,
                decreases 8 - xi,
            {
                let ghost n = 8 * yi + xi as int;
                let ghost view_before = self@;
                // Convert from a left=0 column to a right=0 bit index so a
                // classic mask-and-shift extraction finds the correct bit.
                let sprite_on = match bit_operations::get_nth_bit(7 - xi, row_byte) {
                    Ok(b) => b,
                    Err(_) => false,
                };
                proof {
                    assert(sprite_on == spec_sprite_bit(bytes@, yi as int, xi as int));
                    lemma_draw_upto_step(pre, gx, gy, bytes@, yi as int, xi as int);
                }

                let tx = position.x as usize + xi as usize;
                let row_fits = yi < 32 && (position.y as usize) < 32 - yi;

                if tx < 64 && row_fits && sprite_on {
                    let ty = position.y as usize + yi;
                    let target = Position::new(tx as u8, ty as u8);
                    let old_value = match self.get_value(&target) {
                        Ok(p) => p,
                        Err(_) => Pixel::Off,
                    };
                    proof {
                        assert((old_value == Pixel::On) == view_before[ty as int][tx as int]);
                        assert((ty as int - gy) * 8 + (tx as int - gx) == n);
                        assert(view_before[ty as int][tx as int] == pre[ty as int][tx as int]) by {
                            if spec_covered(gx, gy, bytes@.len() as int, ty as int, tx as int)
                                && (ty as int - gy) * 8 + (tx as int - gx) < n {
                                lemma_cell_index_unique(
                                    8,
                                    ty as int - gy,
                                    tx as int - gx,
                                    yi as int,
                                    xi as int,
                                );
                            }
                        }
                    }
                    match old_value {
                        Pixel::Off => {
                            let set_result = self.set_value(&target, Pixel::On);
                            proof {
                                assert(set_result == Ok::<(), Chip8Error>(()));
                            }
                        },
                        Pixel::On => {
                            let set_result = self.set_value(&target, Pixel::Off);
                            proof {
                                assert(set_result == Ok::<(), Chip8Error>(()));
                            }
                            any_unset = AnyPixelsUnset::Yes;
                        },
                    }
                    proof {
                        assert(self@ =~~= spec_draw_upto(pre, gx, gy, bytes@, n + 1));
                        assert(pre[ty as int][tx as int] ==> spec_collision_upto(
                            pre,
                            gx,
                            gy,
                            bytes@,
                            n + 1,
                        ));
                        assert(spec_collision_upto(pre, gx, gy, bytes@, n + 1)
                            ==> spec_collision_upto(pre, gx, gy, bytes@, n) || pre[ty as int][tx as int]) by {
                            if spec_collision_upto(pre, gx, gy, bytes@, n + 1) {
                                let (r, c) = choose|r: int, c: int|
                                    #![trigger pre[r][c]]
                                    0 <= r < pre.len() && 0 <= c < pre[r].len()
                                        && spec_covered(gx, gy, bytes@.len() as int, r, c)
                                        && (r - gy) * 8 + (c - gx) < n + 1
                                        && spec_sprite_bit(bytes@, r - gy, c - gx) && pre[r][c];
                                if (r - gy) * 8 + (c - gx) == n {
                                    lemma_cell_index_unique(8, r - gy, c - gx, yi as int, xi as int);
                                }
                            }
                        }
                    }
                } else {
                    proof {
                        assert(self@ =~~= spec_draw_upto(pre, gx, gy, bytes@, n + 1));
                        assert(spec_collision_upto(pre, gx, gy, bytes@, n + 1)
                            == spec_collision_upto(pre, gx, gy, bytes@, n)) by {
                            if spec_collision_upto(pre, gx, gy, bytes@, n + 1) {
                                let (r, c) = choose|r: int, c: int|
                                    #![trigger pre[r][c]]
                                    0 <= r < pre.len() && 0 <= c < pre[r].len()
                                        && spec_covered(gx, gy, bytes@.len() as int, r, c)
                                        && (r - gy) * 8 + (c - gx) < n + 1
                                        && spec_sprite_bit(bytes@, r - gy, c - gx) && pre[r][c];
                                if (r - gy) * 8 + (c - gx) == n {
                                    lemma_cell_index_unique(8, r - gy, c - gx, yi as int, xi as int);
                                }
                            }
                        }
                    }
                }
                xi = xi + 1;
            }
            yi = yi + 1;
        }

        proof {
            assert(self@ =~~= spec_draw(pre, gx, gy, bytes@)) by {
                assert(forall|r: int, c: int|
                    #![trigger pre[r][c]]
                    0 <= r < pre.len() && 0 <= c < pre[r].len() && spec_covered(
                        gx,
                        gy,
                        bytes@.len() as int,
                        r,
                        c,
                    ) ==> (r - gy) * 8 + (c - gx) < 8 * bytes@.len());
            }
            assert(spec_collision_upto(pre, gx, gy, bytes@, 8 * bytes@.len() as int)
                == spec_collision(pre, gx, gy, bytes@));
        }
        Ok(any_unset)
    }

    /// Rejects positions outside the grid.
    fn validate_position(&self, position: &Position) -> (r: Result<(), Chip8Error>)
        ensures
            spec_valid_position(*position) ==> r == Ok::<(), Chip8Error>(()),
            !spec_valid_position(*position) ==> r == Err::<(), Chip8Error>(
                Chip8Error::InvalidPosition(position.x, position.y),
            ),
    {
        if position.x > self.get_width() - 1 {
            return Err(Chip8Error::InvalidPosition(position.x, position.y));
        }

        if position.y > self.get_height() - 1 {
            return Err(Chip8Error::InvalidPosition(position.x, position.y));
        }
        Ok(())
    }

    /// Reads the pixel at `position`, rejecting out-of-grid positions.
    pub fn get_value(&self, position: &Position) -> (r: Result<Pixel, Chip8Error>)
        ensures
            spec_valid_position(*position) ==> r == Ok::<Pixel, Chip8Error>(
                if self@[position.y as int][position.x as int] {
                    Pixel::On
                } else {
                    Pixel::Off
                },
            ),
            !spec_valid_position(*position) ==> r == Err::<Pixel, Chip8Error>(
                Chip8Error::InvalidPosition(position.x, position.y),
            ),
    {
        match self.validate_position(position) {
            Ok(()) => {},
            Err(e) => { return Err(e) },
        }

        let idx = (position.y as usize) * 64 + (position.x as usize);
        Ok(self.pixels[idx])
    }

    /// Writes the pixel at `position`, rejecting out-of-grid positions.
    pub fn set_value(&mut self, position: &Position, value: Pixel) -> (r: Result<(), Chip8Error>)
        ensures
            spec_valid_position(*position) ==> r == Ok::<(), Chip8Error>(()) && final(self)@
                == old(self)@.update(
                position.y as int,
                old(self)@[position.y as int].update(position.x as int, value == Pixel::On),
            ),
            !spec_valid_position(*position) ==> r == Err::<(), Chip8Error>(
                Chip8Error::InvalidPosition(position.x, position.y),
            ) && final(self)@ == old(self)@,
    {
        let valid = match self.validate_position(position) {
            Ok(()) => true,
            Err(_) => false,
        };
        if !valid {
            return Err(Chip8Error::InvalidPosition(position.x, position.y));
        }

        let ghost pre = self@;
        let idx = (position.y as usize) * 64 + (position.x as usize);
        self.pixels[idx] = value;

        proof {
            assert(self@ =~~= pre.update(
                position.y as int,
                pre[position.y as int].update(position.x as int, value == Pixel::On),
            )) by {
                assert forall|r: int, c: int| 0 <= r < 32 && 0 <= c < 64 implies #[trigger] self@[r][c]
                    == (if r == position.y as int && c == position.x as int {
                        value == Pixel::On
                    } else {
                        pre[r][c]
                    }) by {
                    if r * 64 + c == position.y as int * 64 + position.x as int {
                        lemma_cell_index_unique(64, r, c, position.y as int, position.x as int);
                    }
                }
            }
        }
        Ok(())
    }

    /// The grid is 64 pixels wide.
    pub fn get_width(&self) -> (r: u8)
        ensures
            r == 64,
    {
        64
    }

    /// The grid is 32 pixels tall.
    pub fn get_height(&self) -> (r: u8)
        ensures
            r == 32,
    {
        32
    }
}

/// Drawing a sprite is self-inverse: drawing the identical sprite at the
/// identical position twice in succession restores the prior pixel state.
/// The first draw reports a collision exactly when some covered, set
/// sprite bit lands on a pixel that is on; the second draw reports one
/// exactly when some covered, set sprite bit landed on a pixel that was
/// off before the first draw (the first draw turned it on, the second
/// turns it back off).
pub proof fn lemma_draw_sprite_self_inverse(grid: Seq<Seq<bool>>, x: int, y: int, rows: Seq<u8>)
    requires
        spec_grid_wf(grid),
    ensures
        spec_grid_wf(spec_draw(grid, x, y, rows)),
        spec_draw(spec_draw(grid, x, y, rows), x, y, rows) == grid,
        spec_collision(spec_draw(grid, x, y, rows), x, y, rows) <==> (exists|r: int, c: int|
            #![trigger grid[r][c]]
            0 <= r < grid.len() && 0 <= c < grid[r].len() && spec_covered(
                x,
                y,
                rows.len() as int,
                r,
                c,
            ) && spec_sprite_bit(rows, r - y, c - x) && !grid[r][c]),
{
    let drawn = spec_draw(grid, x, y, rows);
    assert forall|r: int| 0 <= r < 32 implies (#[trigger] drawn[r]).len() == 64 by {
        assert(grid[r].len() == 64);
    }
    assert(spec_draw(drawn, x, y, rows) =~~= grid);

    if spec_collision(drawn, x, y, rows) {
        let (r, c) = choose|r: int, c: int|
            #![trigger drawn[r][c]]
            0 <= r < drawn.len() && 0 <= c < drawn[r].len() && spec_covered(
                x,
                y,
                rows.len() as int,
                r,
                c,
            ) && spec_sprite_bit(rows, r - y, c - x) && drawn[r][c];
        assert(drawn[r][c] == !grid[r][c]);
        assert(0 <= r < grid.len() && 0 <= c < grid[r].len() && spec_covered(
            x,
            y,
            rows.len() as int,
            r,
            c,
        ) && spec_sprite_bit(rows, r - y, c - x) && !grid[r][c]);
    }
    if exists|r: int, c: int|
        #![trigger grid[r][c]]
        0 <= r < grid.len() && 0 <= c < grid[r].len() && spec_covered(x, y, rows.len() as int, r, c)
            && spec_sprite_bit(rows, r - y, c - x) && !grid[r][c] {
        let (r, c) = choose|r: int, c: int|
            #![trigger grid[r][c]]
            0 <= r < grid.len() && 0 <= c < grid[r].len() && spec_covered(
                x,
                y,
                rows.len() as int,
                r,
                c,
            ) && spec_sprite_bit(rows, r - y, c - x) && !grid[r][c];
        assert(drawn[r][c] == !grid[r][c]);
        assert(0 <= r < drawn.len() && 0 <= c < drawn[r].len() && spec_covered(
            x,
            y,
            rows.len() as int,
            r,
            c,
        ) && spec_sprite_bit(rows, r - y, c - x) && drawn[r][c]);
    }
}

/// Compositing one more sprite cell changes at most the one grid cell
/// under it.
proof fn lemma_draw_upto_step(grid: Seq<Seq<bool>>, x: int, y: int, rows: Seq<u8>, yi: int, xi: int)
    requires
        spec_grid_wf(grid),
        0 <= yi < rows.len(),
        0 <= xi < 8,
    ensures
        ({
            let n = 8 * yi + xi;
            let before = spec_draw_upto(grid, x, y, rows, n);
            let target_r = y + yi;
            let target_c = x + xi;
            if 0 <= target_r < 32 && 0 <= target_c < 64 && spec_sprite_bit(rows, yi, xi) {
                spec_draw_upto(grid, x, y, rows, n + 1) =~~= before.update(
                    target_r,
                    before[target_r].update(target_c, !grid[target_r][target_c]),
                )
            } else {
                spec_draw_upto(grid, x, y, rows, n + 1) =~~= before
            }
        }),
{
    let n = 8 * yi + xi;
    let before = spec_draw_upto(grid, x, y, rows, n);
    let after = spec_draw_upto(grid, x, y, rows, n + 1);
    assert forall|r: int, c: int|
        #![trigger grid[r][c]]
        0 <= r < grid.len() && 0 <= c < grid[r].len() implies after[r][c] == (
    if r == y + yi && c == x + xi && 0 <= r < 32 && 0 <= c < 64 && spec_sprite_bit(rows, yi, xi) {
        !grid[r][c]
    } else {
        before[r][c]
    }) by {
        if spec_covered(x, y, rows.len() as int, r, c) && (r - y) * 8 + (c - x) == n {
            lemma_cell_index_unique(8, r - y, c - x, yi, xi);
        }
    }
}

} // verus!
