//! Display memory together with its pending-redraw flag.
//!
//! The flag is the only externally visible dirty signal: it is raised
//! whenever a draw or clear changes some pixel (always on clear), and it is
//! the rendering collaborator's job to lower it after consuming a frame.

use crate::graphics::{
    blank_grid, draw_collision, draw_grid, lemma_draw_changes, pix, Graphics, GRID_LEN,
};
use vstd::prelude::*;

verus! {

/// Abstract state of the display: the pixel grid and the pending-redraw
/// flag.
#[verifier::ext_equal]
pub ghost struct GpuV {
    /// The pixel states, row-major.
    pub grid: Seq<bool>,
    /// True when the grid changed since the renderer last consumed a frame.
    pub pending: bool,
}

/// Abstract effect of clearing the display: every pixel dark, redraw owed.
pub open spec fn spec_clear(g: GpuV) -> GpuV {
    GpuV { grid: blank_grid(), pending: true }
}

/// The display memory seen by the processor and the renderer.
pub struct Gpu {
    /// The pixel grid.
    pub graphics: Graphics,
    /// True if a redraw is pending.
    pub pending_draw: bool,
}

impl View for Gpu {
    type V = GpuV;

    open spec fn view(&self) -> GpuV {
        GpuV { grid: self.graphics@, pending: self.pending_draw }
    }
}

impl Gpu {
    /// The grid holds exactly one state per pixel.
    pub open spec fn wf(&self) -> bool {
        self@.grid.len() == GRID_LEN
    }

    /// Creates a display with every pixel dark and no redraw pending.
    pub fn new() -> (g: Gpu)
        ensures
            g.wf(),
            g@.grid == blank_grid(),
            !g@.pending,
    {
        Gpu { graphics: Graphics::new(), pending_draw: false }
    }

    /// Sets every pixel dark and raises the pending-redraw flag.
    pub fn clear(&mut self)
        requires
            old(self).wf(),
        ensures
            final(self).wf(),
            final(self)@ == spec_clear(old(self)@),
    {
        self.graphics.clear();
        self.pending_draw = true;
    }

    /// Blits the sprite `bytes` at (x, y) as `Graphics::draw` does, raising
    /// the pending-redraw flag if any pixel changed value.  Returns true
    /// exactly when a lit pixel was unset.
    pub fn draw(&mut self, x: u8, y: u8, bytes: Vec<u8>) -> (collision: bool)
        requires
            old(self).wf(),
            bytes@.len() <= 15,
        ensures
            final(self).wf(),
            final(self)@.grid == draw_grid(old(self)@.grid, x, y, bytes@),
            collision == draw_collision(old(self)@.grid, x, y, bytes@),
            final(self)@.pending == (old(self)@.pending || final(self)@.grid != old(self)@.grid),
    {
        let ghost g0 = self@;
        let mut changed = false;
        let mut i: usize = 0;
        while i < bytes.len()
            invariant
                i <= bytes@.len(),
                changed == (exists|r: int| 0 <= r < i && bytes@[r] != 0),
            decreases bytes@.len() - i,
        {
            if bytes[i] != 0 {
                changed = true;
            }
            i = i + 1;
        }
        let collision = self.graphics.draw(x, y, bytes);
        self.pending_draw = self.pending_draw || changed;
        proof {
            lemma_draw_changes(g0.grid, x, y, bytes@);
        }
        collision
    }

    /// Toggles the pixel at the (wrapped) coordinate (x, y) with the given
    /// sprite bit, raising the pending-redraw flag if the pixel changed
    /// value.  Returns true exactly when the pixel was lit and is unset.
    pub fn toggle_pixel(&mut self, x: u8, y: u8, state: bool) -> (collision: bool)
        requires
            old(self).wf(),
        ensures
            final(self).wf(),
            final(self)@.grid == old(self)@.grid.update(
                pix(x as int, y as int),
                old(self)@.grid[pix(x as int, y as int)] != state,
            ),
            collision == (state && old(self)@.grid[pix(x as int, y as int)]),
            final(self)@.pending == (old(self)@.pending || final(self)@.grid != old(self)@.grid),
    {
        let ghost g0 = self@;
        let ghost t = pix(x as int, y as int);
        let collision = self.graphics.draw_pixel(x, y, state);
        self.pending_draw = self.pending_draw || state;
        proof {
            crate::graphics::lemma_pix_bounds(x as int, y as int);
            if state {
                assert(self@.grid[t] != g0.grid[t]);
            } else {
                assert(self@.grid =~= g0.grid);
            }
        }
        collision
    }

    /// Overwrites the pixel at the (wrapped) coordinate (x, y), raising the
    /// pending-redraw flag if the pixel changed value.
    pub fn set_pixel(&mut self, x: u8, y: u8, state: bool)
        requires
            old(self).wf(),
        ensures
            final(self).wf(),
            final(self)@.grid == old(self)@.grid.update(pix(x as int, y as int), state),
            final(self)@.pending == (old(self)@.pending || final(self)@.grid != old(self)@.grid),
    {
        let ghost g0 = self@;
        let ghost t = pix(x as int, y as int);
        proof {
            crate::graphics::lemma_pix_bounds(x as int, y as int);
        }
        let index = (y as usize % 32) * 64 + (x as usize % 64);
        let prev = self.graphics.memory[index];
        self.graphics.set_pixel(x, y, state);
        self.pending_draw = self.pending_draw || prev != state;
        proof {
            if prev != state {
                assert(self@.grid[t] != g0.grid[t]);
            } else {
                assert(self@.grid =~= g0.grid);
            }
        }
    }
}

/// Clearing display memory twice in a row yields exactly the state that
/// one clear yields: every pixel dark, redraw pending.
pub proof fn lemma_clear_idempotent(g: GpuV)
    ensures
        spec_clear(spec_clear(g)) == spec_clear(g),
{
}

} // verus!
