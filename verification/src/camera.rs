use vstd::prelude::*;

verus! {

/// The column and row of the `idx`-th pixel when an image `width` pixels
/// wide is walked row by row from the top-left corner.
pub fn pixel_position(idx: usize, width: usize) -> (pos: (u64, u64))
    requires
        width > 0,
    ensures
        pos.0 == idx % width,
        pos.1 == idx / width,
        pos.0 < width,
        pos.1 * width + pos.0 == idx,
{
    let j = idx / width;
    let i = idx % width;
    proof {
        vstd::arithmetic::div_mod::lemma_fundamental_div_mod(idx as int, width as int);
    }
    (i as u64, j as u64)
}

/// Law: walking the pixels of a `width` by `height` image in render order
/// visits each row of the image: the row of a pixel is below `height`
/// exactly when its index is below `width * height`.
pub proof fn lemma_pixel_row_in_image(idx: nat, width: nat, height: nat)
    requires
        width > 0,
    ensures
        (idx / width < height) <==> (idx < width * height),
{
    vstd::arithmetic::div_mod::lemma_fundamental_div_mod(idx as int, width as int);
    if idx / width < height {
        assert(idx < width * height) by (nonlinear_arith)
            requires
                idx == width * (idx / width) + idx % width,
                idx % width < width,
                idx / width < height,
                width > 0,
        ;
    } else {
        assert(idx >= width * height) by (nonlinear_arith)
            requires
                idx == width * (idx / width) + idx % width,
                idx % width >= 0,
                idx / width >= height,
                width > 0,
        ;
    }
}

} // verus!
