use vstd::prelude::*;

verus! {

/// What decoding the contents `encoded` of the image file named `filename`
/// gives: its pixels as tightly packed 8-bit RGB triples, row by row from
/// the top-left corner, with its width and height; `None` where the file
/// name's extension names no supported format or the bytes do not decode in
/// that format.
pub uninterp spec fn decoded_rgb8(filename: Seq<char>, encoded: Seq<u8>) -> Option<(Seq<u8>, u32, u32)>;

/// Decodes the contents of an image file (PNG, JPEG, ...) into packed RGB
/// bytes, in the format that the file name's extension names.
///
/// Trusted: calls `image::ImageFormat::from_path` (the format from the
/// extension, as `image::open` takes it), `image::load_from_memory_with_format`,
/// then `DynamicImage::into_rgb8`, `ImageBuffer::dimensions` and
/// `ImageBuffer::into_raw`. The result is named by `decoded_rgb8`. The
/// buffer length claim rests on the crate's source: the decoder allocates
/// `width * height * bytes_per_pixel` bytes (`decoder_to_vec`) and the RGB
/// conversion builds one pixel per source pixel (`cast_in_color_space`),
/// so an RGB buffer holds exactly three bytes per pixel.
#[verifier::external_body]
fn decode_rgb8(filename: &str, encoded: &[u8]) -> (res: Option<(Vec<u8>, u32, u32)>)
    ensures
        match res {
            Some((d, w, h)) => {
                &&& decoded_rgb8(filename@, encoded@) == Some((d@, w, h))
                &&& d@.len() == 3 * w * h
            },
            None => decoded_rgb8(filename@, encoded@) is None,
        },
{
    let format = match image::ImageFormat::from_path(filename) {
        Ok(format) => format,
        Err(_) => return None,
    };
    match image::load_from_memory_with_format(encoded, format) {
        Ok(img) => {
            let rgb = img.into_rgb8();
            let (w, h) = rgb.dimensions();
            Some((rgb.into_raw(), w, h))
        },
        Err(_) => None,
    }
}

/// An image held as packed 8-bit RGB triples, row-major from the top-left.
pub struct RtwImage {
    data: Vec<u8>,
    width: u32,
    height: u32,
}

impl Clone for RtwImage {
    fn clone(&self) -> (copy: Self)
        ensures
            copy.bytes() == self.bytes(),
            copy.spec_width() == self.spec_width(),
            copy.spec_height() == self.spec_height(),
    {
        proof {
            use_type_invariant(self);
        }
        RtwImage { data: self.data.clone(), width: self.width, height: self.height }
    }
}

impl RtwImage {
    /// The packed RGB bytes of the image.
    pub closed spec fn bytes(&self) -> Seq<u8> {
        self.data@
    }

    /// The width of the image in pixels.
    pub closed spec fn spec_width(&self) -> nat {
        self.width as nat
    }

    /// The height of the image in pixels.
    pub closed spec fn spec_height(&self) -> nat {
        self.height as nat
    }

    #[verifier::type_invariant]
    spec fn inv(self) -> bool {
        self.data@.len() == 3 * (self.width as nat) * (self.height as nat)
    }

    /// Three bytes per pixel, no more and no less.
    pub open spec fn well_formed(&self) -> bool {
        self.bytes().len() == 3 * self.spec_width() * self.spec_height()
    }

    /// The image that holds no pixel at all.
    pub open spec fn is_empty_image(&self) -> bool {
        &&& self.bytes().len() == 0
        &&& self.spec_width() == 0
        &&& self.spec_height() == 0
    }

    /// `self` is what loading the file named `filename`, whose contents are
    /// `encoded`, gives: the decoded pixels, or the empty image when the file
    /// does not decode.
    pub open spec fn loaded_from(&self, filename: Seq<char>, encoded: Seq<u8>) -> bool {
        match decoded_rgb8(filename, encoded) {
            Some((d, w, h)) => {
                &&& self.bytes() == d
                &&& self.spec_width() == w
                &&& self.spec_height() == h
            },
            None => self.is_empty_image(),
        }
    }

    /// The column that a requested column `x` reads: `x` clamped to the image.
    pub open spec fn clamped_column(&self, x: u32) -> int {
        if x < self.spec_width() { x as int } else { self.spec_width() - 1 }
    }

    /// The row that a requested row `y` reads: `y` clamped to the image.
    pub open spec fn clamped_row(&self, y: u32) -> int {
        if y < self.spec_height() { y as int } else { self.spec_height() - 1 }
    }

    /// The offset of the first byte of pixel `(x, y)` in the packed data.
    pub open spec fn pixel_offset(&self, x: int, y: int) -> int {
        3 * (y * self.spec_width() + x)
    }

    /// The RGB triple that a lookup of `(x, y)` gives: magenta on an image
    /// without data, else the pixel at the clamped coordinates.
    pub open spec fn pixel_spec(&self, x: u32, y: u32) -> Seq<u8> {
        if self.bytes().len() == 0 {
            seq![255u8, 0u8, 255u8]
        } else {
            let i = self.pixel_offset(self.clamped_column(x), self.clamped_row(y));
            seq![self.bytes()[i], self.bytes()[i + 1], self.bytes()[i + 2]]
        }
    }

    /// Builds the image from the outcome of a decode: the packed pixels with
    /// their width and height, or nothing, which gives the empty image.
    pub fn from_decoded(decoded: Option<(Vec<u8>, u32, u32)>) -> (img: Self)
        requires
            decoded matches Some((d, w, h)) ==> d@.len() == 3 * w * h,
        ensures
            img.well_formed(),
            match decoded {
                Some((d, w, h)) => {
                    &&& img.bytes() == d@
                    &&& img.spec_width() == w
                    &&& img.spec_height() == h
                },
                None => img.is_empty_image(),
            },
    {
        match decoded {
            Some((data, width, height)) => RtwImage { data, width, height },
            None => RtwImage { data: Vec::new(), width: 0, height: 0 },
        }
    }

    /// Loads the image file named `filename` from its contents `encoded`,
    /// in the format its extension names; a file that does not decode gives
    /// the empty image.
    pub fn new(filename: &str, encoded: &[u8]) -> (img: Self)
        ensures
            img.well_formed(),
            img.loaded_from(filename@, encoded@),
    {
        let decoded = decode_rgb8(filename, encoded);
        Self::from_decoded(decoded)
    }

    /// The width of the image in pixels.
    pub fn width(&self) -> (w: u32)
        ensures
            w == self.spec_width(),
    {
        self.width
    }

    /// The height of the image in pixels.
    pub fn height(&self) -> (h: u32)
        ensures
            h == self.spec_height(),
    {
        self.height
    }

    /// The RGB triple of pixel `(x, y)`. Coordinates past the right or
    /// bottom edge are clamped to the last column or row; an image without
    /// data answers magenta `[255, 0, 255]`.
    pub fn pixel_data(&self, x: u32, y: u32) -> (rgb: [u8; 3])
        ensures
            rgb@ == self.pixel_spec(x, y),
    {
        proof {
            use_type_invariant(self);
        }
        if self.data.len() == 0 {
            return [255, 0, 255];
        }
        proof {
            lemma_positive_dims(self.width as nat, self.height as nat);
        }
        let cx: u32 = if x < self.width { x } else { self.width - 1 };
        let cy: u32 = if y < self.height { y } else { self.height - 1 };
        proof {
            lemma_offset_in_bounds(cx as nat, cy as nat, self.width as nat, self.height as nat);
        }
        let row_start: usize = (cy as usize) * (self.width as usize);
        let index: usize = (row_start + cx as usize) * 3;
        [self.data[index], self.data[index + 1], self.data[index + 2]]
    }
}

proof fn lemma_positive_dims(w: nat, h: nat)
    requires
        3 * w * h > 0,
    ensures
        w > 0,
        h > 0,
{
    if w == 0 {
        assert(3 * w * h == 0) by (nonlinear_arith)
            requires
                w == 0,
        ;
    }
    if h == 0 {
        assert(3 * w * h == 0) by (nonlinear_arith)
            requires
                h == 0,
        ;
    }
}

proof fn lemma_offset_in_bounds(x: nat, y: nat, w: nat, h: nat)
    requires
        x < w,
        y < h,
    ensures
        y * w <= (h - 1) * w,
        y * w + x < w * h,
        3 * (y * w + x) + 2 < 3 * w * h,
{
    assert(y * w <= (h - 1) * w) by (nonlinear_arith)
        requires
            y <= h - 1,
    ;
    assert((h - 1) * w + w == w * h) by (nonlinear_arith);
    assert(3 * w * h == 3 * (w * h)) by (nonlinear_arith);
}

/// Law: a lookup past the right or bottom edge reads the edge pixel, the one
/// at the coordinates clamped into the image.
pub proof fn lemma_pixel_clamps_to_edge(img: RtwImage, x: u32, y: u32)
    requires
        img.spec_width() > 0,
        img.spec_height() > 0,
    ensures
        img.pixel_spec(x, y) == img.pixel_spec(
            img.clamped_column(x) as u32,
            img.clamped_row(y) as u32,
        ),
{
}

/// Law: inside the image, pixel `(x, y)` is the triple that starts at byte
/// `3 * (y * width + x)` of the packed data.
pub proof fn lemma_pixel_in_range(img: RtwImage, x: u32, y: u32)
    requires
        img.well_formed(),
        x < img.spec_width(),
        y < img.spec_height(),
    ensures
        img.pixel_spec(x, y) == img.bytes().subrange(
            3 * (y * img.spec_width() + x),
            3 * (y * img.spec_width() + x) + 3,
        ),
{
    lemma_offset_in_bounds(x as nat, y as nat, img.spec_width(), img.spec_height());
    let i = 3 * (y * img.spec_width() + x);
    assert(img.pixel_spec(x, y) =~= img.bytes().subrange(i, i + 3));
}

/// Law: a lookup past the right edge reads the last column, and a lookup
/// past the bottom edge reads the last row.
pub proof fn lemma_pixel_past_edges(img: RtwImage, x: u32, y: u32)
    requires
        img.well_formed(),
        img.spec_width() > 0,
        img.spec_height() > 0,
    ensures
        x >= img.spec_width() ==> img.pixel_spec(x, y) == img.pixel_spec(
            (img.spec_width() - 1) as u32,
            y,
        ),
        y >= img.spec_height() ==> img.pixel_spec(x, y) == img.pixel_spec(
            x,
            (img.spec_height() - 1) as u32,
        ),
{
}

/// Law: written out over the packed bytes, the lookup of `(x, y)` reads the
/// triple of column `min(x, width - 1)` and row `min(y, height - 1)`, which
/// starts at byte `3 * (row * width + column)`.
pub proof fn lemma_pixel_reads_clamped_bytes(img: RtwImage, x: u32, y: u32)
    requires
        img.well_formed(),
        img.spec_width() > 0,
        img.spec_height() > 0,
    ensures
        ({
            let w = img.spec_width() as int;
            let h = img.spec_height() as int;
            let col: int = if (x as int) < w { x as int } else { w - 1 };
            let row: int = if (y as int) < h { y as int } else { h - 1 };
            img.pixel_spec(x, y) == img.bytes().subrange(
                3 * (row * w + col),
                3 * (row * w + col) + 3,
            )
        }),
{
    let w = img.spec_width() as int;
    let h = img.spec_height() as int;
    let col: int = if (x as int) < w { x as int } else { w - 1 };
    let row: int = if (y as int) < h { y as int } else { h - 1 };
    lemma_offset_in_bounds(col as nat, row as nat, w as nat, h as nat);
    assert(img.pixel_spec(x, y) =~= img.bytes().subrange(
        3 * (row * w + col),
        3 * (row * w + col) + 3,
    ));
}

} // verus!
