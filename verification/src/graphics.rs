//! Display memory: a 64x32 monochrome pixel grid with XOR-blit semantics.
//!
//! Pixels are stored row-major; the top-left corner is (0, 0) and the
//! bottom-right corner is (63, 31).  Coordinates wrap modulo the width and
//! height.  A sprite is a run of bytes, each encoding 8 horizontal pixels
//! with the most-significant bit leftmost; blitting XORs sprite bits into
//! the grid and reports a collision whenever a lit pixel is unset.

use vstd::arithmetic::div_mod::{
    lemma_fundamental_div_mod, lemma_fundamental_div_mod_converse_mod, lemma_mod_bound,
};
use vstd::prelude::*;

verus! {

/// Width of the display in pixels.
pub const WIDTH: u32 = 64;

/// Height of the display in pixels.
pub const HEIGHT: u32 = 32;

/// Number of pixels in the grid (`WIDTH * HEIGHT`).
pub const GRID_LEN: usize = 2048;

/// Row-major index of the pixel hit by coordinate (x, y), wrapping both
/// coordinates: row `y mod 32`, column `x mod 64`.
pub open spec fn pix(x: int, y: int) -> int {
    (y % 32) * 64 + (x % 64)
}

/// Bit `b` of `byte`, counting from the least-significant end.
pub open spec fn byte_bit(byte: u8, b: u8) -> bool {
    (byte >> b) & 1 == 1
}

/// The grid index that sprite row `r`, bit position `b` lands on when the
/// sprite is blitted at (x, y): bit 7 is the leftmost pixel of a row, so
/// the target is `((x + 7 - b) mod 64, (y + r) mod 32)`.
pub open spec fn target_pix(x: u8, y: u8, r: int, b: int) -> int {
    pix(x + 7 - b, y + r)
}

/// True when blitting `bytes` at (x, y) toggles the pixel at grid index
/// `idx`: some sprite row `r` and bit position `b` is set and lands there.
pub open spec fn sprite_bit(x: u8, y: u8, bytes: Seq<u8>, idx: int) -> bool {
    exists|r: int, b: int|
        0 <= r < bytes.len() && 0 <= b < 8 && idx == #[trigger] target_pix(x, y, r, b)
            && byte_bit(bytes[r], b as u8)
}

/// The grid after blitting `bytes` at (x, y): each pixel is XORed with its
/// sprite bit.
pub open spec fn draw_grid(grid: Seq<bool>, x: u8, y: u8, bytes: Seq<u8>) -> Seq<bool> {
    Seq::new(grid.len(), |idx: int| grid[idx] != sprite_bit(x, y, bytes, idx))
}

/// True when blitting `bytes` at (x, y) unsets some lit pixel of `grid`:
/// a set sprite bit lands on a pixel that is already true.
pub open spec fn draw_collision(grid: Seq<bool>, x: u8, y: u8, bytes: Seq<u8>) -> bool {
    exists|idx: int| 0 <= idx < grid.len() && grid[idx] && sprite_bit(x, y, bytes, idx)
}

/// The all-dark grid.
pub open spec fn blank_grid() -> Seq<bool> {
    Seq::new(GRID_LEN as nat, |idx: int| false)
}

/// The display memory.
pub struct Graphics {
    /// The pixel states, row-major; `true` is lit.
    pub memory: Vec<bool>,
}

impl View for Graphics {
    type V = Seq<bool>;

    open spec fn view(&self) -> Seq<bool> {
        self.memory@
    }
}

impl Graphics {
    /// The grid holds exactly one state per pixel.
    pub open spec fn wf(&self) -> bool {
        self@.len() == GRID_LEN
    }

    /// Creates a display with every pixel dark.
    pub fn new() -> (g: Graphics)
        ensures
            g.wf(),
            g@ == blank_grid(),
    {
        let mut memory: Vec<bool> = Vec::new();
        let mut i: usize = 0;
        while i < GRID_LEN
            invariant
                i <= GRID_LEN,
                memory@.len() == i,
                forall|j: int| 0 <= j < i ==> !memory@[j],
            decreases GRID_LEN - i,
        {
            memory.push(false);
            i = i + 1;
        }
        let g = Graphics { memory };
        proof {
            assert(g@ =~= blank_grid());
        }
        g
    }

    /// Toggles the pixel at the (wrapped) coordinate (x, y) with the given
    /// sprite bit, and reports a collision: the pixel was lit and the bit is
    /// set.
    pub fn draw_pixel(&mut self, x: u8, y: u8, state: bool) -> (collision: bool)
        requires
            old(self).wf(),
        ensures
            final(self).wf(),
            final(self)@ == old(self)@.update(
                pix(x as int, y as int),
                old(self)@[pix(x as int, y as int)] != state,
            ),
            collision == (state && old(self)@[pix(x as int, y as int)]),
    {
        proof {
            lemma_pix_bounds(x as int, y as int);
        }
        let index = (y as usize % 32) * 64 + (x as usize % 64);
        let prev = self.memory[index];
        self.memory.set(index, prev != state);
        state && prev
    }

    /// Overwrites the pixel at the (wrapped) coordinate (x, y), ignoring
    /// its previous state.
    pub fn set_pixel(&mut self, x: u8, y: u8, state: bool)
        requires
            old(self).wf(),
        ensures
            final(self).wf(),
            final(self)@ == old(self)@.update(pix(x as int, y as int), state),
    {
        proof {
            lemma_pix_bounds(x as int, y as int);
        }
        let index = (y as usize % 32) * 64 + (x as usize % 64);
        self.memory.set(index, state);
    }

    /// Blits the sprite `bytes` at (x, y): every sprite bit is XORed into
    /// the grid, rows below the bottom edge and columns past the right edge
    /// wrapping around.  Returns true exactly when a lit pixel was unset.
    pub fn draw(&mut self, x: u8, y: u8, bytes: Vec<u8>) -> (collision: bool)
        requires
            old(self).wf(),
            bytes@.len() <= 15,
        ensures
            final(self).wf(),
            final(self)@ == draw_grid(old(self)@, x, y, bytes@),
            collision == draw_collision(old(self)@, x, y, bytes@),
    {
        let ghost g0 = self@;
        let mut collision = false;
        let mut yy: usize = 0;
        while yy < bytes.len()
            invariant
                self.wf(),
                g0.len() == GRID_LEN,
                bytes@.len() <= 15,
                yy <= bytes@.len(),
                collision == collision_upto(g0, x, y, bytes@, yy as int, 0),
                forall|idx: int|
                    0 <= idx < GRID_LEN ==> self@[idx] == (g0[idx] != sprite_bit_upto(
                        x,
                        y,
                        bytes@,
                        yy as int,
                        0,
                        idx,
                    )),
            decreases bytes@.len() - yy,
        {
            let mut xx: usize = 0;
            while xx < 8
                invariant
                    self.wf(),
                    g0.len() == GRID_LEN,
                    bytes@.len() <= 15,
                    yy < bytes@.len(),
                    xx <= 8,
                    collision == collision_upto(g0, x, y, bytes@, yy as int, xx as int),
                    forall|idx: int|
                        0 <= idx < GRID_LEN ==> self@[idx] == (g0[idx] != sprite_bit_upto(
                            x,
                            y,
                            bytes@,
                            yy as int,
                            xx as int,
                            idx,
                        )),
                decreases 8 - xx,
            {
                let bit = (bytes[yy] >> (xx as u8)) & 1 == 1;
                let px = ((x as usize + 7 - xx) % 64) as u8;
                let py = ((y as usize + yy) % 32) as u8;
                let ghost t = target_pix(x, y, yy as int, xx as int);
                let ghost pre = self@;
                proof {
                    lemma_mod_bound(x as int + 7 - xx, 64);
                    lemma_mod_bound(y as int + yy, 32);
                    lemma_pix_small(px as int, py as int);
                    assert(pix(px as int, py as int) == t) by {
                        lemma_mod_twice_small(x as int + 7 - xx, 64);
                        lemma_mod_twice_small(y as int + yy, 32);
                    }
                    lemma_pix_bounds(x as int + 7 - xx, y as int + yy);
                    lemma_earlier_misses(x, y, bytes@, yy as int, xx as int);
                    assert(pre[t] == g0[t]);
                }
                let hit = self.draw_pixel(px, py, bit);
                collision = collision || hit;
                proof {
                    assert forall|idx: int| 0 <= idx < GRID_LEN implies self@[idx] == (g0[idx]
                        != sprite_bit_upto(x, y, bytes@, yy as int, xx as int + 1, idx)) by {
                        lemma_sprite_upto_step(x, y, bytes@, yy as int, xx as int, idx);
                    }
                    lemma_collision_upto_step(g0, x, y, bytes@, yy as int, xx as int);
                }
                xx = xx + 1;
            }
            proof {
                assert forall|idx: int| 0 <= idx < GRID_LEN implies self@[idx] == (g0[idx]
                    != sprite_bit_upto(x, y, bytes@, yy as int + 1, 0, idx)) by {
                    lemma_sprite_upto_row(x, y, bytes@, yy as int, idx);
                }
                lemma_collision_upto_row(g0, x, y, bytes@, yy as int);
            }
            yy = yy + 1;
        }
        proof {
            assert forall|idx: int| 0 <= idx < GRID_LEN implies self@[idx] == (g0[idx]
                != sprite_bit(x, y, bytes@, idx)) by {
                lemma_sprite_upto_complete(x, y, bytes@, idx);
            }
            assert(self@ =~= draw_grid(g0, x, y, bytes@));
            lemma_collision_upto_complete(g0, x, y, bytes@);
        }
        collision
    }

    /// Sets every pixel dark.
    pub fn clear(&mut self)
        requires
            old(self).wf(),
        ensures
            final(self).wf(),
            final(self)@ == blank_grid(),
    {
        let mut y: u32 = 0;
        while y < HEIGHT
            invariant
                self.wf(),
                y <= HEIGHT,
                forall|j: int| 0 <= j < y * 64 ==> !self@[j],
            decreases HEIGHT - y,
        {
            let mut x: u32 = 0;
            while x < WIDTH
                invariant
                    self.wf(),
                    y < HEIGHT,
                    x <= WIDTH,
                    forall|j: int| 0 <= j < y * 64 + x ==> !self@[j],
                decreases WIDTH - x,
            {
                proof {
                    lemma_pix_small(x as int, y as int);
                }
                self.set_pixel(x as u8, y as u8, false);
                x = x + 1;
            }
            y = y + 1;
        }
        proof {
            assert(self@ =~= blank_grid());
        }
    }
}

/// The wrapped pixel index always lies inside the grid.
pub proof fn lemma_pix_bounds(x: int, y: int)
    ensures
        0 <= pix(x, y) < GRID_LEN,
{
    lemma_mod_bound(x, 64);
    lemma_mod_bound(y, 32);
}

/// For coordinates already inside the grid the wrap is the identity.
proof fn lemma_pix_small(x: int, y: int)
    requires
        0 <= x < 64,
        0 <= y < 32,
    ensures
        pix(x, y) == y * 64 + x,
{
    lemma_fundamental_div_mod_converse_mod(x, 64, 0, x);
    lemma_fundamental_div_mod_converse_mod(y, 32, 0, y);
}

/// Two distinct offsets that are less than the modulus apart wrap to
/// distinct residues.
proof fn lemma_mod_distinct(a: int, d: int, m: int)
    requires
        0 <= a,
        0 < d < m,
    ensures
        a % m != (a + d) % m,
{
    lemma_mod_bound(a, m);
    lemma_fundamental_div_mod(a, m);
    let q = a / m;
    let r = a % m;
    assert(q * m == m * q) by (nonlinear_arith);
    if r + d < m {
        lemma_fundamental_div_mod_converse_mod(a + d, m, q, r + d);
    } else {
        assert(a + d == (q + 1) * m + (r + d - m)) by (nonlinear_arith)
            requires
                a == q * m + r,
        ;
        lemma_fundamental_div_mod_converse_mod(a + d, m, q + 1, r + d - m);
    }
}

/// Like `sprite_bit`, restricted to the sprite positions the blit loop has
/// already processed: every row before `rows`, and bit positions before
/// `bits` within row `rows`.
spec fn sprite_bit_upto(x: u8, y: u8, bytes: Seq<u8>, rows: int, bits: int, idx: int) -> bool {
    exists|r: int, b: int|
        0 <= r < bytes.len() && 0 <= b < 8 && (r < rows || (r == rows && b < bits)) && idx
            == #[trigger] target_pix(x, y, r, b) && byte_bit(bytes[r], b as u8)
}

/// Like `draw_collision`, restricted to the sprite positions the blit loop
/// has already processed.
spec fn collision_upto(grid: Seq<bool>, x: u8, y: u8, bytes: Seq<u8>, rows: int, bits: int) -> bool {
    exists|r: int, b: int|
        0 <= r < bytes.len() && 0 <= b < 8 && (r < rows || (r == rows && b < bits))
            && grid[#[trigger] target_pix(x, y, r, b)] && byte_bit(bytes[r], b as u8)
}

/// Wrapping an already-wrapped value changes nothing.
proof fn lemma_mod_twice_small(a: int, m: int)
    requires
        0 < m,
    ensures
        (a % m) % m == a % m,
{
    lemma_mod_bound(a, m);
    lemma_fundamental_div_mod_converse_mod(a % m, m, 0, a % m);
}

/// No sprite position processed before (rows, bits) lands on the pixel
/// that (rows, bits) itself targets.
proof fn lemma_earlier_misses(x: u8, y: u8, bytes: Seq<u8>, rows: int, bits: int)
    requires
        bytes.len() <= 32,
        0 <= rows < bytes.len(),
        0 <= bits < 8,
    ensures
        !sprite_bit_upto(x, y, bytes, rows, bits, target_pix(x, y, rows, bits)),
{
    let t = target_pix(x, y, rows, bits);
    if sprite_bit_upto(x, y, bytes, rows, bits, t) {
        let (r, b) = choose|r: int, b: int|
            0 <= r < bytes.len() && 0 <= b < 8 && (r < rows || (r == rows && b < bits)) && t
                == #[trigger] target_pix(x, y, r, b) && byte_bit(bytes[r], b as u8);
        lemma_distinct_targets(x, y, r, b, rows, bits);
        assert(false);
    }
}

/// Processing one more sprite bit extends `sprite_bit_upto` by exactly the
/// contribution of position (rows, bits).
proof fn lemma_sprite_upto_step(x: u8, y: u8, bytes: Seq<u8>, rows: int, bits: int, idx: int)
    requires
        0 <= rows < bytes.len(),
        0 <= bits < 8,
    ensures
        sprite_bit_upto(x, y, bytes, rows, bits + 1, idx) == (sprite_bit_upto(
            x,
            y,
            bytes,
            rows,
            bits,
            idx,
        ) || (idx == target_pix(x, y, rows, bits) && byte_bit(bytes[rows], bits as u8))),
{
    if sprite_bit_upto(x, y, bytes, rows, bits + 1, idx) {
        let (r, b) = choose|r: int, b: int|
            0 <= r < bytes.len() && 0 <= b < 8 && (r < rows || (r == rows && b < bits + 1)) && idx
                == #[trigger] target_pix(x, y, r, b) && byte_bit(bytes[r], b as u8);
        if r < rows || (r == rows && b < bits) {
            assert(sprite_bit_upto(x, y, bytes, rows, bits, idx));
        }
    }
    if sprite_bit_upto(x, y, bytes, rows, bits, idx) {
        let (r, b) = choose|r: int, b: int|
            0 <= r < bytes.len() && 0 <= b < 8 && (r < rows || (r == rows && b < bits)) && idx
                == #[trigger] target_pix(x, y, r, b) && byte_bit(bytes[r], b as u8);
        assert(sprite_bit_upto(x, y, bytes, rows, bits + 1, idx));
    }
    if idx == target_pix(x, y, rows, bits) && byte_bit(bytes[rows], bits as u8) {
        assert(sprite_bit_upto(x, y, bytes, rows, bits + 1, idx));
    }
}

/// Finishing a row of 8 bits is the same as standing at the start of the
/// next row.
proof fn lemma_sprite_upto_row(x: u8, y: u8, bytes: Seq<u8>, rows: int, idx: int)
    requires
        0 <= rows < bytes.len(),
    ensures
        sprite_bit_upto(x, y, bytes, rows, 8, idx) == sprite_bit_upto(x, y, bytes, rows + 1, 0, idx),
{
    if sprite_bit_upto(x, y, bytes, rows, 8, idx) {
        let (r, b) = choose|r: int, b: int|
            0 <= r < bytes.len() && 0 <= b < 8 && (r < rows || (r == rows && b < 8)) && idx
                == #[trigger] target_pix(x, y, r, b) && byte_bit(bytes[r], b as u8);
        assert(sprite_bit_upto(x, y, bytes, rows + 1, 0, idx));
    }
    if sprite_bit_upto(x, y, bytes, rows + 1, 0, idx) {
        let (r, b) = choose|r: int, b: int|
            0 <= r < bytes.len() && 0 <= b < 8 && (r < rows + 1) && idx == #[trigger] target_pix(
                x,
                y,
                r,
                b,
            ) && byte_bit(bytes[r], b as u8);
        assert(sprite_bit_upto(x, y, bytes, rows, 8, idx));
    }
}

/// Having processed every row, `sprite_bit_upto` coincides with
/// `sprite_bit`.
proof fn lemma_sprite_upto_complete(x: u8, y: u8, bytes: Seq<u8>, idx: int)
    ensures
        sprite_bit_upto(x, y, bytes, bytes.len() as int, 0, idx) == sprite_bit(x, y, bytes, idx),
{
    if sprite_bit_upto(x, y, bytes, bytes.len() as int, 0, idx) {
        let (r, b) = choose|r: int, b: int|
            0 <= r < bytes.len() && 0 <= b < 8 && (r < bytes.len() || (r == bytes.len() && b < 0))
                && idx == #[trigger] target_pix(x, y, r, b) && byte_bit(bytes[r], b as u8);
        assert(sprite_bit(x, y, bytes, idx));
    }
    if sprite_bit(x, y, bytes, idx) {
        let (r, b) = choose|r: int, b: int|
            0 <= r < bytes.len() && 0 <= b < 8 && idx == #[trigger] target_pix(x, y, r, b)
                && byte_bit(bytes[r], b as u8);
        assert(sprite_bit_upto(x, y, bytes, bytes.len() as int, 0, idx));
    }
}

/// Processing one more sprite bit extends `collision_upto` by exactly the
/// contribution of position (rows, bits).
proof fn lemma_collision_upto_step(grid: Seq<bool>, x: u8, y: u8, bytes: Seq<u8>, rows: int, bits: int)
    requires
        0 <= rows < bytes.len(),
        0 <= bits < 8,
    ensures
        collision_upto(grid, x, y, bytes, rows, bits + 1) == (collision_upto(
            grid,
            x,
            y,
            bytes,
            rows,
            bits,
        ) || (grid[target_pix(x, y, rows, bits)] && byte_bit(bytes[rows], bits as u8))),
{
    if collision_upto(grid, x, y, bytes, rows, bits + 1) {
        let (r, b) = choose|r: int, b: int|
            0 <= r < bytes.len() && 0 <= b < 8 && (r < rows || (r == rows && b < bits + 1))
                && grid[#[trigger] target_pix(x, y, r, b)] && byte_bit(bytes[r], b as u8);
        if r < rows || (r == rows && b < bits) {
            assert(collision_upto(grid, x, y, bytes, rows, bits));
        }
    }
    if collision_upto(grid, x, y, bytes, rows, bits) {
        let (r, b) = choose|r: int, b: int|
            0 <= r < bytes.len() && 0 <= b < 8 && (r < rows || (r == rows && b < bits))
                && grid[#[trigger] target_pix(x, y, r, b)] && byte_bit(bytes[r], b as u8);
        assert(collision_upto(grid, x, y, bytes, rows, bits + 1));
    }
    if grid[target_pix(x, y, rows, bits)] && byte_bit(bytes[rows], bits as u8) {
        assert(collision_upto(grid, x, y, bytes, rows, bits + 1));
    }
}

/// Finishing a row of 8 bits is the same as standing at the start of the
/// next row.
proof fn lemma_collision_upto_row(grid: Seq<bool>, x: u8, y: u8, bytes: Seq<u8>, rows: int)
    requires
        0 <= rows < bytes.len(),
    ensures
        collision_upto(grid, x, y, bytes, rows, 8) == collision_upto(grid, x, y, bytes, rows + 1, 0),
{
    if collision_upto(grid, x, y, bytes, rows, 8) {
        let (r, b) = choose|r: int, b: int|
            0 <= r < bytes.len() && 0 <= b < 8 && (r < rows || (r == rows && b < 8))
                && grid[#[trigger] target_pix(x, y, r, b)] && byte_bit(bytes[r], b as u8);
        assert(collision_upto(grid, x, y, bytes, rows + 1, 0));
    }
    if collision_upto(grid, x, y, bytes, rows + 1, 0) {
        let (r, b) = choose|r: int, b: int|
            0 <= r < bytes.len() && 0 <= b < 8 && (r < rows + 1)
                && grid[#[trigger] target_pix(x, y, r, b)] && byte_bit(bytes[r], b as u8);
        assert(collision_upto(grid, x, y, bytes, rows, 8));
    }
}

/// Having processed every row, `collision_upto` coincides with
/// `draw_collision`.
proof fn lemma_collision_upto_complete(grid: Seq<bool>, x: u8, y: u8, bytes: Seq<u8>)
    requires
        grid.len() == GRID_LEN,
    ensures
        collision_upto(grid, x, y, bytes, bytes.len() as int, 0) == draw_collision(
            grid,
            x,
            y,
            bytes,
        ),
{
    if collision_upto(grid, x, y, bytes, bytes.len() as int, 0) {
        let (r, b) = choose|r: int, b: int|
            0 <= r < bytes.len() && 0 <= b < 8 && (r < bytes.len() || (r == bytes.len() && b < 0))
                && grid[#[trigger] target_pix(x, y, r, b)] && byte_bit(bytes[r], b as u8);
        lemma_pix_bounds(x + 7 - b, y + r);
        let t = target_pix(x, y, r, b);
        assert(sprite_bit(x, y, bytes, t));
        assert(draw_collision(grid, x, y, bytes));
    }
    if draw_collision(grid, x, y, bytes) {
        let idx = choose|idx: int|
            0 <= idx < grid.len() && grid[idx] && sprite_bit(x, y, bytes, idx);
        let (r, b) = choose|r: int, b: int|
            0 <= r < bytes.len() && 0 <= b < 8 && idx == #[trigger] target_pix(x, y, r, b)
                && byte_bit(bytes[r], b as u8);
        assert(collision_upto(grid, x, y, bytes, bytes.len() as int, 0));
    }
}

/// Distinct (row, bit) pairs of a sprite of at most 32 rows land on
/// distinct pixels.
pub proof fn lemma_distinct_targets(x: u8, y: u8, r1: int, b1: int, r2: int, b2: int)
    requires
        0 <= r1 < 32,
        0 <= r2 < 32,
        0 <= b1 < 8,
        0 <= b2 < 8,
        r1 != r2 || b1 != b2,
    ensures
        target_pix(x, y, r1, b1) != target_pix(x, y, r2, b2),
{
    lemma_mod_bound(x + 7 - b1, 64);
    lemma_mod_bound(x + 7 - b2, 64);
    lemma_mod_bound(y + r1, 32);
    lemma_mod_bound(y + r2, 32);
    if r1 != r2 {
        if r1 < r2 {
            lemma_mod_distinct(y + r1, r2 - r1, 32);
        } else {
            lemma_mod_distinct(y + r2, r1 - r2, 32);
        }
    } else {
        if b1 > b2 {
            lemma_mod_distinct(x + 7 - b1, b1 - b2, 64);
        } else {
            lemma_mod_distinct(x + 7 - b2, b2 - b1, 64);
        }
    }
}

/// A nonzero byte has at least one set bit.
proof fn lemma_nonzero_byte_has_bit(byte: u8)
    requires
        byte != 0,
    ensures
        exists|b: u8| b < 8 && byte_bit(byte, b),
{
    assert(byte_bit(byte, 0) || byte_bit(byte, 1) || byte_bit(byte, 2) || byte_bit(byte, 3)
        || byte_bit(byte, 4) || byte_bit(byte, 5) || byte_bit(byte, 6) || byte_bit(byte, 7))
        by (bit_vector)
        requires
            byte != 0,
    ;
}

/// Blitting changes the grid exactly when the sprite has a set bit, that
/// is, when some byte of it is nonzero.
pub proof fn lemma_draw_changes(grid: Seq<bool>, x: u8, y: u8, bytes: Seq<u8>)
    requires
        grid.len() == GRID_LEN,
        bytes.len() <= 15,
    ensures
        (draw_grid(grid, x, y, bytes) != grid) == (exists|r: int|
            0 <= r < bytes.len() && bytes[r] != 0),
{
    if exists|r: int| 0 <= r < bytes.len() && bytes[r] != 0 {
        let r = choose|r: int| 0 <= r < bytes.len() && bytes[r] != 0;
        lemma_nonzero_byte_has_bit(bytes[r]);
        let b = choose|b: u8| b < 8 && byte_bit(bytes[r], b);
        let t = target_pix(x, y, r, b as int);
        lemma_pix_bounds(x + 7 - b, y + r);
        assert(sprite_bit(x, y, bytes, t));
        assert(draw_grid(grid, x, y, bytes)[t] != grid[t]);
    } else {
        assert(forall|b: u8| (0u8 >> b) & 1 != 1) by (bit_vector);
        assert forall|idx: int| 0 <= idx < GRID_LEN implies !sprite_bit(x, y, bytes, idx) by {
            if sprite_bit(x, y, bytes, idx) {
                let (r, b) = choose|r: int, b: int|
                    0 <= r < bytes.len() && 0 <= b < 8 && idx == #[trigger] target_pix(x, y, r, b)
                        && byte_bit(bytes[r], b as u8);
                assert(bytes[r] == 0);
            }
        }
        assert(draw_grid(grid, x, y, bytes) =~= grid);
    }
}

/// Blitting the same sprite at the same location twice restores every
/// pixel to its prior state, and the second blit reports a collision
/// exactly when the first blit lit some pixel.
pub proof fn lemma_draw_twice_restores(grid: Seq<bool>, x: u8, y: u8, bytes: Seq<u8>)
    requires
        grid.len() == GRID_LEN,
        bytes.len() <= 15,
    ensures
        draw_grid(draw_grid(grid, x, y, bytes), x, y, bytes) == grid,
        draw_collision(draw_grid(grid, x, y, bytes), x, y, bytes) == (exists|idx: int|
            0 <= idx < GRID_LEN && !grid[idx] && sprite_bit(x, y, bytes, idx)),
{
    let once = draw_grid(grid, x, y, bytes);
    assert(draw_grid(once, x, y, bytes) =~= grid);
    if draw_collision(once, x, y, bytes) {
        let idx = choose|idx: int| 0 <= idx < once.len() && once[idx] && sprite_bit(x, y, bytes, idx);
        assert(!grid[idx] && sprite_bit(x, y, bytes, idx));
    }
    if exists|idx: int| 0 <= idx < GRID_LEN && !grid[idx] && sprite_bit(x, y, bytes, idx) {
        let idx = choose|idx: int|
            0 <= idx < GRID_LEN && !grid[idx] && sprite_bit(x, y, bytes, idx);
        assert(once[idx] && sprite_bit(x, y, bytes, idx));
        assert(draw_collision(once, x, y, bytes));
    }
}

} // verus!
