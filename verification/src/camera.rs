//! The render loop: one colour per pixel, each computed on its own.

use crate::canvas::{lemma_pixel_index_in_grid, pixel_index, Canvas};
use vstd::prelude::*;

verus! {

/// How deep the ray through a pixel may be reflected and refracted.
pub const MAX_DEPTH: usize = 5;

/// Renders an image of `hsize` by `vsize` pixels: asks `color_at` for the
/// colour of each pixel once, row by row from the top and each row from the
/// left, and stores what it answers at that pixel.
///
/// No pixel depends on another: what ends up at `(x, y)` is what `color_at`
/// gave for `(x, y)`.
pub fn render<T: Copy, F: Fn(usize, usize) -> T>(hsize: usize, vsize: usize, color_at: F) -> (image:
    Canvas<T>)
    requires
        hsize * vsize <= usize::MAX,
        forall|x: usize, y: usize| x < hsize && y < vsize ==> color_at.requires((x, y)),
    ensures
        image.wf(),
        image.width() == hsize,
        image.height() == vsize,
        forall|x: usize, y: usize|
            x < hsize && y < vsize ==> color_at.ensures((x, y), #[trigger] image.pixel(x, y)),
{
    let mut pixels: Vec<T> = Vec::new();
    let mut y: usize = 0;
    while y < vsize
        invariant
            y <= vsize,
            hsize * vsize <= usize::MAX,
            forall|x: usize, y: usize| x < hsize && y < vsize ==> color_at.requires((x, y)),
            pixels@.len() == y * hsize,
            forall|i: int|
                0 <= i < pixels@.len() ==> color_at.ensures(
                    ((i % (hsize as int)) as usize, (i / (hsize as int)) as usize),
                    #[trigger] pixels@[i],
                ),
        decreases vsize - y,
    {
        let mut x: usize = 0;
        while x < hsize
            invariant
                y < vsize,
                x <= hsize,
                hsize * vsize <= usize::MAX,
                forall|x: usize, y: usize| x < hsize && y < vsize ==> color_at.requires((x, y)),
                pixels@.len() == y * hsize + x,
                forall|i: int|
                    0 <= i < pixels@.len() ==> color_at.ensures(
                        ((i % (hsize as int)) as usize, (i / (hsize as int)) as usize),
                        #[trigger] pixels@[i],
                    ),
            decreases hsize - x,
        {
            proof {
                lemma_pixel_index_in_grid(hsize, vsize, x, y);
            }
            let color = color_at(x, y);
            pixels.push(color);
            x += 1;
        }
        proof {
            assert(y * hsize + hsize == (y + 1) * hsize) by (nonlinear_arith);
        }
        y += 1;
    }
    proof {
        assert(y * hsize == hsize * vsize) by (nonlinear_arith)
            requires
                y == vsize,
        ;
    }
    let image = Canvas::from_pixels(hsize, vsize, pixels);
    proof {
        assert forall|x: usize, y: usize| x < hsize && y < vsize implies color_at.ensures(
            (x, y),
            #[trigger] image.pixel(x, y),
        ) by {
            lemma_pixel_index_in_grid(hsize, vsize, x, y);
            assert(image.pixel(x, y) == image@[pixel_index(hsize, x, y)]);
        }
    }
    image
}

} // verus!
