//! The pixel buffer a render writes into.
//!
//! A canvas is indifferent to what a pixel is: a render fills it with
//! whatever it computes per pixel, and only a canvas of quantised colours
//! can be written out as text.

use crate::color::RGB;
use vstd::prelude::*;

verus! {

/// A grid of `width` by `height` pixels, stored row by row.
#[derive(Debug)]
pub struct Canvas<T> {
    width: usize,
    height: usize,
    pixels: Vec<T>,
}

impl<T> View for Canvas<T> {
    type V = Seq<T>;

    /// The pixels, row by row from the top, each row from the left.
    closed spec fn view(&self) -> Seq<T> {
        self.pixels@
    }
}

/// Where the pixel in column `x` of row `y` is stored.
pub open spec fn pixel_index(width: usize, x: usize, y: usize) -> int {
    y * width + x
}

/// The cells of a grid are stored inside it.
pub proof fn lemma_pixel_index_in_grid(width: usize, height: usize, x: usize, y: usize)
    requires
        x < width,
        y < height,
    ensures
        0 <= pixel_index(width, x, y) < width * height,
        pixel_index(width, x, y) % (width as int) == x,
        pixel_index(width, x, y) / (width as int) == y,
{
    assert(y * width + x < width * height) by (nonlinear_arith)
        requires
            x < width,
            y < height,
    ;
    vstd::arithmetic::div_mod::lemma_fundamental_div_mod_converse(
        y * width + x,
        width as int,
        y as int,
        x as int,
    );
}

impl<T> Canvas<T> {
    /// The buffer holds one pixel for each cell of the grid.
    pub open spec fn wf(&self) -> bool {
        self@.len() == self.spec_width() * self.spec_height()
    }

    /// The number of columns.
    pub closed spec fn spec_width(&self) -> usize {
        self.width
    }

    /// The number of rows.
    pub closed spec fn spec_height(&self) -> usize {
        self.height
    }

    /// The pixel in column `x` of row `y`.
    pub open spec fn pixel(&self, x: usize, y: usize) -> T {
        self@[pixel_index(self.spec_width(), x, y)]
    }

    /// The number of columns.
    #[verifier::when_used_as_spec(spec_width)]
    pub fn width(&self) -> (width: usize)
        ensures
            width == self.spec_width(),
    {
        self.width
    }

    /// The number of rows.
    #[verifier::when_used_as_spec(spec_height)]
    pub fn height(&self) -> (height: usize)
        ensures
            height == self.spec_height(),
    {
        self.height
    }
}

impl<T: Copy> Canvas<T> {
    /// A canvas over pixels that are already laid out row by row.
    pub fn from_pixels(width: usize, height: usize, pixels: Vec<T>) -> (canvas: Self)
        requires
            pixels@.len() == width * height,
        ensures
            canvas.wf(),
            canvas.width() == width,
            canvas.height() == height,
            canvas@ == pixels@,
    {
        Self { width, height, pixels }
    }

    /// A canvas with every pixel set to `color`.
    pub fn new_with_color(width: usize, height: usize, color: T) -> (canvas: Self)
        requires
            width * height <= usize::MAX,
        ensures
            canvas.wf(),
            canvas.width() == width,
            canvas.height() == height,
            forall|i: int| 0 <= i < canvas@.len() ==> canvas@[i] == color,
    {
        let count: usize = width * height;
        let mut pixels: Vec<T> = Vec::new();
        let mut k: usize = 0;
        while k < count
            invariant
                k <= count,
                pixels@.len() == k,
                forall|i: int| 0 <= i < k ==> pixels@[i] == color,
            decreases count - k,
        {
            pixels.push(color);
            k += 1;
        }
        Self { width, height, pixels }
    }

    fn get_pixel_index(&self, x: usize, y: usize) -> (index: usize)
        requires
            pixel_index(self.width(), x, y) < self@.len(),
        ensures
            index == pixel_index(self.width(), x, y),
    {
        assert(self.pixels@.len() == self.pixels.len());
        assert(y * self.width <= y * self.width + x);
        y * self.width + x
    }

    /// The pixel in column `x` of row `y`.
    pub fn get(&self, x: usize, y: usize) -> (color: &T)
        requires
            pixel_index(self.width(), x, y) < self@.len(),
        ensures
            *color == self.pixel(x, y),
    {
        &self.pixels[self.get_pixel_index(x, y)]
    }

    /// Sets the pixel in column `x` of row `y`.
    pub fn set(&mut self, x: usize, y: usize, color: &T)
        requires
            pixel_index(old(self).width(), x, y) < old(self)@.len(),
        ensures
            final(self).wf() == old(self).wf(),
            final(self).width() == old(self).width(),
            final(self).height() == old(self).height(),
            final(self)@ == old(self)@.update(pixel_index(old(self).width(), x, y), *color),
    {
        let index = self.get_pixel_index(x, y);
        self.pixels.set(index, *color);
    }

    /// Sets a pixel given relative to the centre of the canvas: `x` columns
    /// to the right of the middle column and `y` rows above the middle row.
    pub fn set_center(&mut self, x: usize, y: usize, color: &T)
        requires
            x + old(self).width() / 2 <= usize::MAX,
            y <= old(self).height() / 2,
            pixel_index(
                old(self).width(),
                (x + old(self).width() / 2) as usize,
                (old(self).height() / 2 - y) as usize,
            ) < old(self)@.len(),
        ensures
            final(self).wf() == old(self).wf(),
            final(self).width() == old(self).width(),
            final(self).height() == old(self).height(),
            final(self)@ == old(self)@.update(
                pixel_index(
                    old(self).width(),
                    (x + old(self).width() / 2) as usize,
                    (old(self).height() / 2 - y) as usize,
                ),
                *color,
            ),
    {
        let index = self.get_pixel_index(x + self.width / 2, self.height / 2 - y);
        self.pixels.set(index, *color);
    }

    /// Calls `func` with the coordinates of every pixel, row by row from the
    /// top, each row from the left.
    pub fn for_each<F>(&self, func: F) where F: Fn(usize, usize)
        requires
            forall|x: usize, y: usize|
                x < self.width() && y < self.height() ==> func.requires((x, y)),
    {
        let mut y: usize = 0;
        while y < self.height
            invariant
                forall|x: usize, y: usize|
                    x < self.width() && y < self.height() ==> func.requires((x, y)),
            decreases self.height - y,
        {
            let mut x: usize = 0;
            while x < self.width
                invariant
                    y < self.height,
                    forall|x: usize, y: usize|
                        x < self.width() && y < self.height() ==> func.requires((x, y)),
                decreases self.width - x,
            {
                func(x, y);
                x += 1;
            }
            y += 1;
        }
    }
}

impl Canvas<RGB> {
    /// A black canvas.
    pub fn new(width: usize, height: usize) -> (canvas: Self)
        requires
            width * height <= usize::MAX,
        ensures
            canvas.wf(),
            canvas.width() == width,
            canvas.height() == height,
            forall|i: int| 0 <= i < canvas@.len() ==> canvas@[i] == (RGB { red: 0, green: 0, blue: 0 }),
    {
        Self::new_with_color(width, height, RGB::new(0, 0, 0))
    }
}

} // verus!
