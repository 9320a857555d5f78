//! Preparing uploaded images for the renderer, whose texture coordinates
//! have their origin at the bottom left: most image sources store their top
//! row first, so the rows are flipped once on upload.

use vstd::prelude::*;
use vstd::arithmetic::div_mod::{
    lemma_fundamental_div_mod, lemma_fundamental_div_mod_converse, lemma_mod_pos_bound,
};

verus! {

/// An image of 8-bit RGBA pixels, stored row by row from the top.
#[derive(Clone, Debug, PartialEq, Eq)]
pub struct Rgba8Image {
    pub width: u32,
    pub height: u32,
    pub pixels: Vec<u8>,
}

/// The pixel buffer holds four bytes for each of `width * height` pixels.
pub open spec fn rgba8_ok(image: Rgba8Image) -> bool {
    image.pixels@.len() == 4 * image.width * image.height
}

/// The bytes of an image of `height` rows of `row` bytes with its rows in
/// reverse order.
pub open spec fn flipped_rows(pixels: Seq<u8>, row: int, height: int) -> Seq<u8> {
    Seq::new(pixels.len(), |i: int| pixels[(height - 1 - i / row) * row + i % row])
}

/// The image upside down: its last row first.
pub fn flip_image_y_rgba8(image: Rgba8Image) -> (r: Rgba8Image)
    requires
        rgba8_ok(image),
    ensures
        r.width == image.width,
        r.height == image.height,
        rgba8_ok(r),
        r.pixels@ == flipped_rows(image.pixels@, 4 * image.width, image.height as int),
{
    let ghost p = image.pixels@;
    let n = image.pixels.len();
    if image.width == 0 || image.height == 0 {
        assert(4 * image.width * image.height == 0) by (nonlinear_arith)
            requires
                image.width == 0 || image.height == 0,
        ;
        let empty: Vec<u8> = Vec::new();
        assert(empty@ =~= flipped_rows(p, 4 * image.width, image.height as int));
        return Rgba8Image { width: image.width, height: image.height, pixels: empty };
    }
    let w = image.width as usize;
    let h = image.height as usize;
    assert(4 * w <= 4 * w * h) by (nonlinear_arith)
        requires
            h >= 1,
    ;
    let row: usize = 4 * w;
    assert(n == row * h) by (nonlinear_arith)
        requires
            n == 4 * w * h,
            row == 4 * w,
    ;
    let ghost want = flipped_rows(p, row as int, h as int);
    let mut out: Vec<u8> = Vec::new();
    let mut y: usize = 0;
    while y < h
        invariant
            n == p.len(),
            n == row * h,
            row > 0,
            y <= h,
            want == flipped_rows(p, row as int, h as int),
            out@.len() == y * row,
            forall|k: int| 0 <= k < out@.len() ==> out@[k] == #[trigger] want[k],
            image.pixels@ == p,
        decreases h - y,
    {
        let src_row = h - 1 - y;
        assert(src_row * row + row <= n) by (nonlinear_arith)
            requires
                src_row < h,
                n == row * h,
        ;
        let start = src_row * row;
        let mut x: usize = 0;
        while x < row
            invariant
                n == p.len(),
                n == row * h,
                row > 0,
                y < h,
                src_row == h - 1 - y,
                start == src_row * row,
                start + row <= n,
                x <= row,
                want == flipped_rows(p, row as int, h as int),
                out@.len() == y * row + x,
                forall|k: int| 0 <= k < out@.len() ==> out@[k] == #[trigger] want[k],
                image.pixels@ == p,
            decreases row - x,
        {
            let ghost k: int = y * row + x;
            assert(y * row + x < n) by (nonlinear_arith)
                requires
                    y < h,
                    x < row,
                    n == row * h,
            ;
            proof {
                lemma_fundamental_div_mod_converse(k, row as int, y as int, x as int);
            }
            assert(want[k] == p[start + x]);
            out.push(image.pixels[start + x]);
            x = x + 1;
        }
        assert((y + 1) * row == y * row + row) by (nonlinear_arith);
        y = y + 1;
    }
    assert(out@.len() == 4 * image.width * image.height) by (nonlinear_arith)
        requires
            out@.len() == y * row,
            y == h,
            row == 4 * w,
            w == image.width,
            h == image.height,
    ;
    assert(out@ =~= want);
    Rgba8Image { width: image.width, height: image.height, pixels: out }
}


/// Flipping the rows twice gives back the same pixels.
pub proof fn lemma_flip_twice(pixels: Seq<u8>, row: int, height: int)
    requires
        row > 0,
        height >= 0,
        pixels.len() == row * height,
    ensures
        flipped_rows(flipped_rows(pixels, row, height), row, height) == pixels,
{
    let f = flipped_rows(pixels, row, height);
    let g = flipped_rows(f, row, height);
    assert forall|i: int| 0 <= i < pixels.len() implies g[i] == pixels[i] by {
        let y = i / row;
        let x = i % row;
        lemma_fundamental_div_mod(i, row);
        lemma_mod_pos_bound(i, row);
        assert(i == y * row + x) by (nonlinear_arith)
            requires
                i == row * y + x,
        ;
        assert(0 <= y < height) by (nonlinear_arith)
            requires
                0 <= i < row * height,
                y == i / row,
                row > 0,
        ;
        let j = (height - 1 - y) * row + x;
        assert(0 <= j < pixels.len()) by (nonlinear_arith)
            requires
                0 <= y < height,
                0 <= x < row,
                j == (height - 1 - y) * row + x,
                pixels.len() == row * height,
        ;
        lemma_fundamental_div_mod_converse(j, row, height - 1 - y, x);
    }
    assert(g =~= pixels);
}

} // verus!
