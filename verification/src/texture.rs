use vstd::prelude::*;

use crate::rtw_image::RtwImage;

verus! {

/// A texture that looks its colours up in an image.
pub struct ImageTexture {
    image: RtwImage,
}

impl Clone for ImageTexture {
    fn clone(&self) -> (copy: Self)
        ensures
            copy.spec_image().bytes() == self.spec_image().bytes(),
            copy.spec_image().spec_width() == self.spec_image().spec_width(),
            copy.spec_image().spec_height() == self.spec_image().spec_height(),
    {
        ImageTexture { image: self.image.clone() }
    }
}

impl ImageTexture {
    /// The image that the texture reads.
    pub closed spec fn spec_image(&self) -> RtwImage {
        self.image
    }

    /// The texture of the image file named `filename`, whose contents are
    /// `encoded`; a file that does not decode gives a texture without data.
    pub fn new(filename: &str, encoded: &[u8]) -> (tex: Self)
        ensures
            tex.spec_image().well_formed(),
            tex.spec_image().loaded_from(filename@, encoded@),
    {
        ImageTexture { image: RtwImage::new(filename, encoded) }
    }

    /// The image that the texture reads.
    pub fn image(&self) -> (img: &RtwImage)
        ensures
            *img == self.spec_image(),
    {
        &self.image
    }

    /// The texel in column `i`, row `j` of the image (clamped to the image),
    /// or `None` when the image has no rows, where the texture answers its
    /// debugging colour instead.
    pub fn texel(&self, i: u32, j: u32) -> (rgb: Option<[u8; 3]>)
        ensures
            self.spec_image().spec_height() == 0 ==> rgb is None,
            self.spec_image().spec_height() != 0 ==> (rgb matches Some(p) && p@
                == self.spec_image().pixel_spec(i, j)),
    {
        if self.image.height() == 0 {
            return None;
        }
        Some(self.image.pixel_data(i, j))
    }
}

/// Whether the checker cell with integer coordinates `(x, y, z)` takes the
/// even texture: the sum of the coordinates is even.
pub open spec fn checker_even(x: int, y: int, z: int) -> bool {
    (x + y + z) % 2 == 0
}

/// Whether the checker cell `(x, y, z)` takes the even texture. The parity
/// is taken of the exact sum, so no coordinate is out of range.
pub fn checker_is_even(x: i64, y: i64, z: i64) -> (even: bool)
    ensures
        even == checker_even(x as int, y as int, z as int),
{
    let px: i64 = x % 2;
    let py: i64 = y % 2;
    let pz: i64 = z % 2;
    proof {
        lemma_parity_of_sum(x as int, y as int, z as int, px as int, py as int, pz as int);
    }
    (px + py + pz) % 2 == 0
}

proof fn lemma_parity_of_sum(x: int, y: int, z: int, px: int, py: int, pz: int)
    requires
        -2 < px < 2,
        -2 < py < 2,
        -2 < pz < 2,
        (x - px) % 2 == 0,
        (y - py) % 2 == 0,
        (z - pz) % 2 == 0,
    ensures
        ((px + py + pz) % 2 == 0) == ((x + y + z) % 2 == 0),
{
    let s = px + py + pz;
    assert((x + y + z - s) % 2 == 0) by {
        vstd::arithmetic::div_mod::lemma_mod_adds(x - px, y - py, 2);
        vstd::arithmetic::div_mod::lemma_mod_adds((x - px) + (y - py), z - pz, 2);
    }
    vstd::arithmetic::div_mod::lemma_mod_adds(x + y + z - s, s, 2);
}

/// Law: the checker pattern alternates: stepping one cell along any axis
/// swaps the even and the odd texture.
pub proof fn lemma_checker_alternates(x: int, y: int, z: int)
    ensures
        checker_even(x + 1, y, z) == !checker_even(x, y, z),
        checker_even(x, y + 1, z) == !checker_even(x, y, z),
        checker_even(x, y, z + 1) == !checker_even(x, y, z),
{
}

} // verus!
