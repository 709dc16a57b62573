//! Sprite sheets and the ink test.
//!
//! A sheet is a grid of square cells, one drawn variant per cell, numbered
//! row by row. A pixel is ink when it is dark and opaque enough.

use image::{DynamicImage, GenericImageView};
use vstd::prelude::*;

verus! {

/// `image::DynamicImage`, a decoded image of any pixel format. Nothing
/// inside it is visible to the proofs: what it holds is named by
/// [`image_has_floats`], [`image_width`], [`image_height`] and
/// [`image_pixels`].
#[verifier::external_type_specification]
#[verifier::external_body]
pub struct ExDynamicImage(DynamicImage);

/// Whether a decoded image keeps its samples as floating-point numbers: it
/// is the variant `ImageRgb32F` or `ImageRgba32F` of `DynamicImage`.
pub uninterp spec fn image_has_floats(img: DynamicImage) -> bool;

/// The width of a decoded image in pixels: what `DynamicImage::width` returns.
pub uninterp spec fn image_width(img: DynamicImage) -> nat;

/// The height of a decoded image in pixels: what `DynamicImage::height`
/// returns.
pub uninterp spec fn image_height(img: DynamicImage) -> nat;

/// The pixels of a decoded image by column and row, each as red, green, blue
/// and alpha in eight bits: what `GenericImageView::get_pixel` returns for
/// the places inside the image.
pub uninterp spec fn image_pixels(img: DynamicImage) -> Map<(int, int), (u8, u8, u8, u8)>;

/// Tells the floating-point variants of `DynamicImage` from the others.
/// Trusted: the answer is the one that [`image_has_floats`] names.
#[verifier::external_body]
pub(crate) fn has_floats(img: &DynamicImage) -> (b: bool)
    ensures
        b == image_has_floats(*img),
{
    matches!(img, DynamicImage::ImageRgb32F(_) | DynamicImage::ImageRgba32F(_))
}

/// Calls `DynamicImage::width`. Trusted: the result is the width that
/// [`image_width`] names.
#[verifier::external_body]
pub(crate) fn width_of(img: &DynamicImage) -> (w: u32)
    ensures
        w == image_width(*img),
{
    img.width()
}

/// Calls `DynamicImage::height`. Trusted: the result is the height that
/// [`image_height`] names.
#[verifier::external_body]
pub(crate) fn height_of(img: &DynamicImage) -> (h: u32)
    ensures
        h == image_height(*img),
{
    img.height()
}

/// Calls `GenericImageView::get_pixel` of a `DynamicImage`, which panics
/// outside the image, and on a floating-point sample that is not a number.
/// Both are left out: the place lies inside the image, and the image holds
/// integer samples. Trusted: the four channels are those that
/// [`image_pixels`] names for the place.
#[verifier::external_body]
pub(crate) fn pixel_of(img: &DynamicImage, x: u32, y: u32) -> (p: Rgba)
    requires
        !image_has_floats(*img),
        x < image_width(*img),
        y < image_height(*img),
    ensures
        (p.r, p.g, p.b, p.a) == image_pixels(*img)[(x as int, y as int)],
{
    let p = img.get_pixel(x, y);
    Rgba { r: p[0], g: p[1], b: p[2], a: p[3] }
}

/// The pixel of a decoded image in column `x` of row `y`.
pub open spec fn image_pixel(img: DynamicImage, x: int, y: int) -> Rgba {
    let p = image_pixels(img)[(x, y)];
    Rgba { r: p.0, g: p.1, b: p.2, a: p.3 }
}

/// A colour channel counts as dark when it is below this value.
pub const INK_CHANNEL_LIMIT: u8 = 128;

/// A pixel counts as opaque when its alpha is at least this value.
pub const INK_ALPHA_FLOOR: u8 = 192;

/// One pixel: red, green, blue and alpha.
#[derive(Clone, Copy, Debug, PartialEq, Eq, Structural)]
pub struct Rgba {
    pub r: u8,
    pub g: u8,
    pub b: u8,
    pub a: u8,
}

impl Rgba {
    /// The pixel sets a bit of the glyph: all three colour channels are below
    /// [`INK_CHANNEL_LIMIT`] and alpha is at least [`INK_ALPHA_FLOOR`].
    pub open spec fn spec_is_ink(self) -> bool {
        self.r < INK_CHANNEL_LIMIT && self.g < INK_CHANNEL_LIMIT && self.b < INK_CHANNEL_LIMIT
            && self.a >= INK_ALPHA_FLOOR
    }

    /// Decides whether the pixel is ink.
    #[verifier::when_used_as_spec(spec_is_ink)]
    pub fn is_ink(self) -> (b: bool)
        ensures
            b == self.spec_is_ink(),
    {
        self.r < INK_CHANNEL_LIMIT && self.g < INK_CHANNEL_LIMIT && self.b < INK_CHANNEL_LIMIT
            && self.a >= INK_ALPHA_FLOOR
    }
}

/// The pixel in column `x` of row `y` of an image `width` pixels wide whose
/// pixels lie row by row, four bytes each.
pub open spec fn pixel_in(bytes: Seq<u8>, width: int, x: int, y: int) -> Rgba {
    let at = (y * width + x) * 4;
    Rgba { r: bytes[at], g: bytes[at + 1], b: bytes[at + 2], a: bytes[at + 3] }
}

proof fn lemma_pixel_place(width: int, i: int, j: int, x: int, y: int)
    requires
        0 <= i < width,
        0 <= j,
        0 <= x <= width,
        j < y || (j == y && i < x),
    ensures
        0 <= (j * width + i) * 4,
        (j * width + i) * 4 + 4 <= (y * width + x) * 4,
{
    assert(0 <= j * width) by (nonlinear_arith)
        requires
            0 <= j,
            0 <= width,
    ;
    if j < y {
        assert(j * width + width <= y * width) by (nonlinear_arith)
            requires
                j + 1 <= y,
                0 <= width,
        ;
    }
}

/// A decoded sprite sheet: `width * height` pixels, row by row, four bytes
/// (red, green, blue, alpha) per pixel.
pub struct SpriteSheet {
    width: u32,
    height: u32,
    pixels: Vec<u8>,
}

impl SpriteSheet {
    #[verifier::type_invariant]
    spec fn holds_every_pixel(self) -> bool {
        self.pixels@.len() == self.width * self.height * 4
    }

    /// Width in pixels.
    pub closed spec fn spec_width(&self) -> u32 {
        self.width
    }

    /// Height in pixels.
    pub closed spec fn spec_height(&self) -> u32 {
        self.height
    }

    /// The pixel in column `x` of row `y`.
    pub closed spec fn spec_pixel(&self, x: int, y: int) -> Rgba {
        pixel_in(self.pixels@, self.width as int, x, y)
    }

    /// Takes the pixels of a decoded image. `None` unless `pixels` holds four
    /// bytes for each of the `width * height` pixels.
    pub fn new(width: u32, height: u32, pixels: Vec<u8>) -> (r: Option<SpriteSheet>)
        ensures
            r is Some <==> pixels@.len() == width * height * 4,
            r matches Some(sheet) ==> {
                &&& sheet.spec_width() == width
                &&& sheet.spec_height() == height
                &&& forall|x: int, y: int|
                    0 <= x < width && 0 <= y < height ==> #[trigger] sheet.spec_pixel(x, y)
                        == pixel_in(pixels@, width as int, x, y)
            },
    {
        assert(width * height * 4 <= 0x4_0000_0000_0000_0000) by (nonlinear_arith)
            requires
                0 <= width <= 0xFFFF_FFFF,
                0 <= height <= 0xFFFF_FFFF,
        ;
        let wanted: u128 = (width as u128) * (height as u128) * 4;
        if pixels.len() as u128 == wanted {
            Some(SpriteSheet { width, height, pixels })
        } else {
            None
        }
    }

    /// Copies the pixels out of a decoded image whose samples are integers.
    /// An image of floating-point samples is refused with `None`.
    pub fn from_image(img: &DynamicImage) -> (r: Option<SpriteSheet>)
        ensures
            r is Some <==> !image_has_floats(*img),
            r matches Some(sheet) ==> {
                &&& sheet.spec_width() == image_width(*img)
                &&& sheet.spec_height() == image_height(*img)
                &&& forall|x: int, y: int|
                    0 <= x < image_width(*img) && 0 <= y < image_height(*img)
                        ==> #[trigger] sheet.spec_pixel(x, y) == image_pixel(*img, x, y)
            },
    {
        if has_floats(img) {
            return None;
        }
        let width = width_of(img);
        let height = height_of(img);
        let mut pixels: Vec<u8> = Vec::new();
        let mut y: u32 = 0;
        while y < height
            invariant
                !image_has_floats(*img),
                width == image_width(*img),
                height == image_height(*img),
                y <= height,
                pixels@.len() == y * width * 4,
                forall|i: int, j: int|
                    0 <= i < width && 0 <= j < y ==> #[trigger] pixel_in(pixels@, width as int, i, j)
                        == image_pixel(*img, i, j),
            decreases height - y,
        {
            let mut x: u32 = 0;
            while x < width
                invariant
                    !image_has_floats(*img),
                    width == image_width(*img),
                    height == image_height(*img),
                    y < height,
                    x <= width,
                    pixels@.len() == (y * width + x) * 4,
                    forall|i: int, j: int|
                        0 <= i < width && 0 <= j < y ==> #[trigger] pixel_in(
                            pixels@,
                            width as int,
                            i,
                            j,
                        ) == image_pixel(*img, i, j),
                    forall|i: int|
                        0 <= i < x ==> #[trigger] pixel_in(pixels@, width as int, i, y as int)
                            == image_pixel(*img, i, y as int),
                decreases width - x,
            {
                let p = pixel_of(img, x, y);
                let ghost before = pixels@;
                pixels.push(p.r);
                pixels.push(p.g);
                pixels.push(p.b);
                pixels.push(p.a);
                proof {
                    let w = width as int;
                    assert forall|i: int, j: int| 0 <= i < w && 0 <= j < y implies #[trigger] pixel_in(
                        pixels@,
                        w,
                        i,
                        j,
                    ) == image_pixel(*img, i, j) by {
                        lemma_pixel_place(w, i, j, x as int, y as int);
                        assert(pixel_in(before, w, i, j) == image_pixel(*img, i, j));
                    }
                    assert forall|i: int| 0 <= i < x + 1 implies #[trigger] pixel_in(
                        pixels@,
                        w,
                        i,
                        y as int,
                    ) == image_pixel(*img, i, y as int) by {
                        if i < x {
                            lemma_pixel_place(w, i, y as int, x as int, y as int);
                            assert(pixel_in(before, w, i, y as int) == image_pixel(
                                *img,
                                i,
                                y as int,
                            ));
                        }
                    }
                }
                x = x + 1;
            }
            assert(y * width + width == (y + 1) * width) by (nonlinear_arith);
            y = y + 1;
        }
        assert(y * width * 4 == width * height * 4) by (nonlinear_arith)
            requires
                y == height,
        ;
        let sheet = SpriteSheet { width, height, pixels };
        assert forall|x: int, y: int|
            0 <= x < image_width(*img) && 0 <= y < image_height(*img) implies #[trigger] sheet.spec_pixel(
            x,
            y,
        ) == image_pixel(*img, x, y) by {
            assert(pixel_in(sheet.pixels@, width as int, x, y) == image_pixel(*img, x, y));
        }
        Some(sheet)
    }

    /// Width in pixels.
    #[verifier::when_used_as_spec(spec_width)]
    pub fn width(&self) -> (w: u32)
        ensures
            w == self.spec_width(),
    {
        self.width
    }

    /// Height in pixels.
    #[verifier::when_used_as_spec(spec_height)]
    pub fn height(&self) -> (h: u32)
        ensures
            h == self.spec_height(),
    {
        self.height
    }

    /// The sheet holds the whole cell `variant` of side `size`: cells are
    /// numbered row by row, as many to a row as fit the width.
    pub open spec fn spec_has_cell(&self, size: u32, variant: u32) -> bool {
        &&& size > 0
        &&& self.spec_width() / size > 0
        &&& (variant / (self.spec_width() / size) + 1) * size <= self.spec_height()
    }

    /// Decides whether the sheet holds the whole cell `variant` of side `size`.
    #[verifier::when_used_as_spec(spec_has_cell)]
    pub fn has_cell(&self, size: u32, variant: u32) -> (b: bool)
        ensures
            b == self.spec_has_cell(size, variant),
    {
        if size == 0 {
            return false;
        }
        let columns = self.width / size;
        if columns == 0 {
            return false;
        }
        let row = variant / columns;
        assert((row + 1) * size <= 0x1_0000_0000 * 0xFFFF_FFFF) by (nonlinear_arith)
            requires
                0 <= row < 0x1_0000_0000,
                0 <= size < 0x1_0000_0000,
        ;
        (row as u64 + 1) * (size as u64) <= self.height as u64
    }

    /// Reads the pixel in column `x` of row `y`.
    pub fn get_pixel(&self, x: u32, y: u32) -> (p: Rgba)
        requires
            x < self.spec_width(),
            y < self.spec_height(),
        ensures
            p == self.spec_pixel(x as int, y as int),
    {
        proof {
            use_type_invariant(self);
            let w = self.width as int;
            let h = self.height as int;
            assert(0 <= y * w && (y * w + x) * 4 + 3 < w * h * 4) by (nonlinear_arith)
                requires
                    0 <= x < w,
                    0 <= y < h,
            ;
            assert(w * h * 4 == self.pixels.len());
        }
        let at: usize = (y as usize * self.width as usize + x as usize) * 4;
        Rgba {
            r: self.pixels[at],
            g: self.pixels[at + 1],
            b: self.pixels[at + 2],
            a: self.pixels[at + 3],
        }
    }
}

} // verus!
