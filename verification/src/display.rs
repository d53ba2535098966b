//! The 64x32 monochrome framebuffer.
//!
//! The screen is a grid of boolean pixels plus a "needs redraw" flag.  The
//! interpreter core toggles pixels and raises the flag on the clear and draw
//! instructions; a renderer reads the pixel states and lowers the flag once
//! it has presented a frame.

use vstd::prelude::*;

verus! {

/// Width of the framebuffer in pixels.
pub const SCREEN_WIDTH: usize = 64;

/// Height of the framebuffer in pixels.
pub const SCREEN_HEIGHT: usize = 32;

/// Mathematical model of a [`Screen`]: the pixel grid in row-major order
/// (index `y * 64 + x`) and the redraw flag.
#[verifier::ext_equal]
pub ghost struct ScreenView {
    pub pixels: Seq<bool>,
    pub draw_flag: bool,
}

/// Row-major position of pixel `(x, y)` in [`ScreenView::pixels`].
pub open spec fn pixel_index(x: int, y: int) -> int {
    y * 64 + x
}

impl ScreenView {
    /// A screen holds exactly 64 * 32 = 2048 pixels.
    pub open spec fn wf(self) -> bool {
        self.pixels.len() == 2048
    }

    /// The state of pixel `(x, y)`.
    pub open spec fn pixel(self, x: int, y: int) -> bool {
        self.pixels[pixel_index(x, y)]
    }

    /// An all-dark grid.
    pub open spec fn blank() -> Seq<bool> {
        Seq::new(2048, |p: int| false)
    }
}

/// The framebuffer: 64x32 boolean pixels and a redraw flag.
pub struct Screen {
    pixels: Vec<bool>,
    draw_flag: bool,
}

impl View for Screen {
    type V = ScreenView;

    closed spec fn view(&self) -> ScreenView {
        ScreenView { pixels: self.pixels@, draw_flag: self.draw_flag }
    }
}

impl Screen {
    /// A blank screen whose first frame still needs to be presented.
    pub fn new() -> (s: Screen)
        ensures
            s@.wf(),
            s@.pixels == ScreenView::blank(),
            s@.draw_flag == true,
    {
        let mut pixels: Vec<bool> = Vec::new();
        while pixels.len() < 2048
            invariant
                pixels@.len() <= 2048,
                forall|p: int| 0 <= p < pixels@.len() ==> pixels@[p] == false,
            decreases 2048 - pixels@.len(),
        {
            pixels.push(false);
        }
        proof {
            assert(pixels@ =~= ScreenView::blank());
        }
        Screen { pixels, draw_flag: true }
    }

    /// Turn every pixel off and raise the redraw flag.
    pub fn clear(&mut self)
        requires
            old(self)@.wf(),
        ensures
            final(self)@.wf(),
            final(self)@.pixels == ScreenView::blank(),
            final(self)@.draw_flag == true,
    {
        let mut p: usize = 0;
        while p < 2048
            invariant
                self@.wf(),
                p <= 2048,
                forall|q: int| 0 <= q < p ==> self@.pixels[q] == false,
                self@.draw_flag == old(self)@.draw_flag,
            decreases 2048 - p,
        {
            self.pixels.set(p, false);
            p = p + 1;
        }
        self.draw_flag = true;
        proof {
            assert(self@.pixels =~= ScreenView::blank());
        }
    }

    /// Read pixel `(x, y)`.
    pub fn get_pixel_state(&self, x: usize, y: usize) -> (r: bool)
        requires
            self@.wf(),
            x < 64,
            y < 32,
        ensures
            r == self@.pixel(x as int, y as int),
    {
        self.pixels[y * 64 + x]
    }

    /// XOR `state` into pixel `(x, y)`; the flag is untouched.
    pub fn xor_pixel(&mut self, x: usize, y: usize, state: bool)
        requires
            old(self)@.wf(),
            x < 64,
            y < 32,
        ensures
            final(self)@.wf(),
            final(self)@.pixels == old(self)@.pixels.update(
                pixel_index(x as int, y as int),
                old(self)@.pixel(x as int, y as int) != state,
            ),
            final(self)@.draw_flag == old(self)@.draw_flag,
    {
        let idx = y * 64 + x;
        let cur = self.pixels[idx];
        self.pixels.set(idx, cur != state);
    }

    /// Set or lower the redraw flag; the pixels are untouched.
    pub fn set_draw_flag(&mut self, draw_flag: bool)
        ensures
            final(self)@.pixels == old(self)@.pixels,
            final(self)@.draw_flag == draw_flag,
    {
        self.draw_flag = draw_flag;
    }

    /// Whether the screen changed since the renderer last presented it.
    pub fn draw_flag(&self) -> (r: bool)
        ensures
            r == self@.draw_flag,
    {
        self.draw_flag
    }
}

} // verus!
