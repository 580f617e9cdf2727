//! The monochrome framebuffer: 64 x 32 one-bit pixels, XOR sprite drawing
//! with collision reporting, and the dirty flag owed to the presentation
//! layer.

use vstd::prelude::*;
use crate::state::{
    any_bit_upto, collision_upto, draw_collision, draw_px, lemma_no_prior_hit, lemma_hits_step,
    lemma_row_step, lemma_scan_all, lemma_scan_step, lemma_target_bounds, pixel_index, sprite_bit,
    sprite_hits, sprite_hits_upto, sprite_any_bit, sprite_target, wrap_col, wrap_row, NUM_PIXELS,
    SCREEN_HEIGHT, SCREEN_WIDTH,
};

verus! {

/// What the framebuffer is, mathematically: the pixel grid (row-major) and
/// the redraw flag.
#[verifier::ext_equal]
pub ghost struct GfxView {
    /// Pixel (x, y) sits at index `y * 64 + x`.
    pub px: Seq<bool>,
    /// Whether the picture changed since it was last presented.
    pub dirty: bool,
}

/// The framebuffer.
pub struct Gfx {
    display: Vec<bool>,
    dirty: bool,
}

impl View for Gfx {
    type V = GfxView;

    closed spec fn view(&self) -> GfxView {
        GfxView { px: self.display@, dirty: self.dirty }
    }
}

impl Gfx {
    /// The grid always holds exactly `NUM_PIXELS` pixels.
    pub open spec fn wf(&self) -> bool {
        self@.px.len() == NUM_PIXELS
    }

    /// A fresh framebuffer: every pixel off, no redraw owed.
    pub fn new() -> (g: Gfx)
        ensures
            g.wf(),
            !g@.dirty,
            forall|p: int| 0 <= p < NUM_PIXELS ==> !g@.px[p],
    {
        let mut display: Vec<bool> = Vec::new();
        while display.len() < NUM_PIXELS
            invariant
                display@.len() <= NUM_PIXELS,
                forall|p: int| 0 <= p < display@.len() ==> !display@[p],
            decreases NUM_PIXELS - display@.len(),
        {
            display.push(false);
        }
        Gfx { display, dirty: false }
    }

    /// Whether the pixel at (x, y) is set. Queries without mutating.
    pub fn has_pixel(&mut self, x: usize, y: usize) -> (r: bool)
        requires
            old(self).wf(),
            x < SCREEN_WIDTH,
            y < SCREEN_HEIGHT,
        ensures
            final(self)@ == old(self)@,
            r == old(self)@.px[pixel_index(x as int, y as int)],
    {
        self.display[y * SCREEN_WIDTH + x]
    }

    /// XOR the bit `v` into the pixel at (x, y); a true bit always toggles
    /// the pixel and marks the picture dirty.
    pub fn set_pixel(&mut self, x: usize, y: usize, v: bool)
        requires
            old(self).wf(),
            x < SCREEN_WIDTH,
            y < SCREEN_HEIGHT,
        ensures
            final(self).wf(),
            final(self)@.px == old(self)@.px.update(
                pixel_index(x as int, y as int),
                old(self)@.px[pixel_index(x as int, y as int)] != v,
            ),
            final(self)@.dirty == (old(self)@.dirty || v),
    {
        let idx = y * SCREEN_WIDTH + x;
        let cur = self.display[idx];
        self.display.set(idx, cur != v);
        if v {
            self.dirty = true;
        }
    }

    /// Turn every pixel off and mark the picture dirty.
    pub fn clear(&mut self)
        requires
            old(self).wf(),
        ensures
            final(self).wf(),
            forall|p: int| 0 <= p < NUM_PIXELS ==> !final(self)@.px[p],
            final(self)@.dirty,
    {
        let mut p: usize = 0;
        while p < NUM_PIXELS
            invariant
                self.wf(),
                p <= NUM_PIXELS,
                forall|q: int| 0 <= q < p ==> !self@.px[q],
            decreases NUM_PIXELS - p,
        {
            self.display.set(p, false);
            p = p + 1;
        }
        self.dirty = true;
    }

    /// Whether a redraw is owed to the presentation layer.
    pub fn is_dirty(&self) -> (r: bool)
        ensures
            r == self@.dirty,
    {
        self.dirty
    }

    /// The presentation layer consumed the picture: the redraw debt is paid.
    pub fn clear_dirty(&mut self)
        ensures
            final(self)@.px == old(self)@.px,
            !final(self)@.dirty,
    {
        self.dirty = false;
    }

    /// Draw a sprite at (x0, y0), wrapping on both axes; report whether any
    /// previously set pixel was toggled off. A sprite never has more than
    /// fifteen rows (its row count is a 4-bit opcode field).
    pub fn draw_sprite(&mut self, x0: u8, y0: u8, rows: &Vec<u8>) -> (col: bool)
        requires
            old(self).wf(),
            rows@.len() <= 15,
        ensures
            final(self).wf(),
            final(self)@.px =~= draw_px(old(self)@.px, rows@, x0, y0),
            col == draw_collision(old(self)@.px, rows@, x0, y0),
            final(self)@.dirty == (old(self)@.dirty || sprite_any_bit(rows@)),
    {
        let ghost px0 = self@.px;
        let ghost d0 = self@.dirty;
        let mut col = false;
        let mut i: usize = 0;
        while i < rows.len()
            invariant
                self.wf(),
                i <= rows@.len(),
                rows@.len() <= 15,
                px0.len() == NUM_PIXELS,
                forall|p: int|
                    0 <= p < NUM_PIXELS ==> self@.px[p] == (px0[p] != sprite_hits_upto(
                        rows@,
                        x0,
                        y0,
                        p,
                        i as int,
                        0,
                    )),
                col == collision_upto(px0, rows@, x0, y0, i as int, 0),
                self@.dirty == (d0 || any_bit_upto(rows@, i as int, 0)),
            decreases rows@.len() - i,
        {
            let row = rows[i];
            let mut j: usize = 0;
            while j < 8
                invariant
                    self.wf(),
                    i < rows@.len(),
                    rows@.len() <= 15,
                    j <= 8,
                    row == rows@[i as int],
                    px0.len() == NUM_PIXELS,
                    forall|p: int|
                        0 <= p < NUM_PIXELS ==> self@.px[p] == (px0[p] != sprite_hits_upto(
                            rows@,
                            x0,
                            y0,
                            p,
                            i as int,
                            j as int,
                        )),
                    col == collision_upto(px0, rows@, x0, y0, i as int, j as int),
                    self@.dirty == (d0 || any_bit_upto(rows@, i as int, j as int)),
                decreases 8 - j,
            {
                let sh: u8 = (7 - j) as u8;
                let bit = (row >> sh) & 1;
                if bit == 1 {
                    assert(sprite_bit(rows@[i as int], j as int));
                    let tx = (x0 as usize + j) % SCREEN_WIDTH;
                    let ty = (y0 as usize + i) % SCREEN_HEIGHT;
                    proof {
                        lemma_target_bounds(x0, y0, i as int, j as int);
                        assert(tx == wrap_col(x0, j as int));
                        assert(ty == wrap_row(y0, i as int));
                        lemma_no_prior_hit(rows@, x0, y0, i as int, j as int);
                    }
                    let ghost t = sprite_target(x0, y0, i as int, j as int);
                    let was = self.has_pixel(tx, ty);
                    assert(was == px0[t]);
                    if was {
                        col = true;
                    }
                    self.set_pixel(tx, ty, true);
                    proof {
                        lemma_scan_step(px0, rows@, x0, y0, i as int, j as int);
                        assert forall|p: int| 0 <= p < NUM_PIXELS implies self@.px[p] == (px0[p]
                            != sprite_hits_upto(rows@, x0, y0, p, i as int, j as int + 1)) by {
                            lemma_hits_step(rows@, x0, y0, p, i as int, j as int);
                        }
                    }
                } else {
                    proof {
                        assert(!sprite_bit(rows@[i as int], j as int));
                        lemma_scan_step(px0, rows@, x0, y0, i as int, j as int);
                        assert forall|p: int| 0 <= p < NUM_PIXELS implies self@.px[p] == (px0[p]
                            != sprite_hits_upto(rows@, x0, y0, p, i as int, j as int + 1)) by {
                            lemma_hits_step(rows@, x0, y0, p, i as int, j as int);
                        }
                    }
                }
                j = j + 1;
            }
            proof {
                lemma_row_step(px0, rows@, x0, y0, 0, i as int);
                assert forall|p: int| 0 <= p < NUM_PIXELS implies self@.px[p] == (px0[p]
                    != sprite_hits_upto(rows@, x0, y0, p, i as int + 1, 0)) by {
                    lemma_row_step(px0, rows@, x0, y0, p, i as int);
                }
            }
            i = i + 1;
        }
        proof {
            lemma_scan_all(px0, rows@, x0, y0, 0);
            assert forall|p: int| 0 <= p < NUM_PIXELS implies self@.px[p] == (px0[p] != sprite_hits(
                rows@,
                x0,
                y0,
                p,
            )) by {
                lemma_scan_all(px0, rows@, x0, y0, p);
            }
        }
        col
    }
}

} // verus!
