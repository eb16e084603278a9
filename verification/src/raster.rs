use crate::pixel::Pixel;
use image::DynamicImage;
use image::GenericImage;
use image::GenericImageView;
use vstd::prelude::*;

verus! {

/// `image::DynamicImage`, an image whose pixel format is chosen at run time.
/// Nothing inside it is visible to the verifier: what an image holds is
/// spoken of through `image_width`, `image_height`, `image_pixels` and
/// `image_is_rgb8`.
#[verifier::external_type_specification]
#[verifier::external_body]
pub struct ExDynamicImage(image::DynamicImage);

/// The number of pixel columns of an image.
pub uninterp spec fn image_width(image: DynamicImage) -> u32;

/// The number of pixel rows of an image.
pub uninterp spec fn image_height(image: DynamicImage) -> u32;

/// The pixels of an image, by column and row: what `get_pixel` reads.
pub uninterp spec fn image_pixels(image: DynamicImage) -> Map<(int, int), Pixel>;

/// Whether an image stores three colour bytes for each pixel and no alpha.
pub uninterp spec fn image_is_rgb8(image: DynamicImage) -> bool;

/// The coordinates that lie inside an image of the given size.
pub open spec fn in_bounds(width: int, height: int, at: (int, int)) -> bool {
    0 <= at.0 < width && 0 <= at.1 < height
}

/// An image of the given size in which every pixel is opaque black.
pub open spec fn blank(width: int, height: int) -> Map<(int, int), Pixel> {
    Map::new(
        |at: (int, int)| in_bounds(width, height, at),
        |at: (int, int)| Pixel { red: 0, green: 0, blue: 0, alpha: 255 },
    )
}

/// What an image holds after `part`, an image of `part_width` columns and
/// `part_height` rows, is laid over `base` with its top left corner at
/// column `x` and row `y`, and alpha is not stored.
pub open spec fn pasted(
    base: Map<(int, int), Pixel>,
    part: Map<(int, int), Pixel>,
    part_width: int,
    part_height: int,
    x: int,
    y: int,
) -> Map<(int, int), Pixel> {
    Map::new(
        |at: (int, int)|
            base.dom().contains(at) || in_bounds(part_width, part_height, (at.0 - x, at.1 - y)),
        |at: (int, int)|
            if in_bounds(part_width, part_height, (at.0 - x, at.1 - y)) {
                part[(at.0 - x, at.1 - y)].opaque()
            } else {
                base[at]
            },
    )
}

/// Whether an image of three bytes per pixel can be held in one vector: the
/// bytes of a row can be counted in `usize`, and all its bytes in `isize`.
pub open spec fn rgb8_fits_memory(width: int, height: int) -> bool {
    3 * width <= usize::MAX && 3 * width * height <= isize::MAX
}

/// Tests whether an image of three bytes per pixel can be held in one vector.
pub fn can_hold_rgb8(width: u32, height: u32) -> (fits: bool)
    ensures
        fits == rgb8_fits_memory(width as int, height as int),
{
    let row: u128 = 3 * (width as u128);
    assert(row * height <= 0x3_0000_0000 * 0x1_0000_0000) by (nonlinear_arith)
        requires
            row <= 0x3_0000_0000,
            height <= 0x1_0000_0000,
    ;
    let all: u128 = row * (height as u128);
    row <= usize::MAX as u128 && all <= isize::MAX as u128
}

/// `DynamicImage::new_rgb8`: a new image of three colour bytes per pixel,
/// every byte zero, so that every pixel reads as opaque black. The call
/// panics when the byte count overflows `usize` or is more than a vector can
/// hold, which the precondition rules out.
#[verifier::external_body]
pub(crate) fn new_rgb8(width: u32, height: u32) -> (image: DynamicImage)
    requires
        rgb8_fits_memory(width as int, height as int),
    ensures
        image_is_rgb8(image),
        image_width(image) == width,
        image_height(image) == height,
        image_pixels(image) == blank(width as int, height as int),
{
    DynamicImage::new_rgb8(width, height)
}

/// `GenericImageView::dimensions` of a `DynamicImage`: its width and height.
#[verifier::external_body]
pub(crate) fn dimensions(image: &DynamicImage) -> (size: (u32, u32))
    ensures
        size.0 == image_width(*image),
        size.1 == image_height(*image),
{
    image.dimensions()
}

/// `GenericImageView::get_pixel` of a `DynamicImage`: the pixel at a column
/// and row inside the image. The call panics outside the image.
#[verifier::external_body]
pub(crate) fn get_pixel(image: &DynamicImage, x: u32, y: u32) -> (pixel: Pixel)
    requires
        x < image_width(*image),
        y < image_height(*image),
    ensures
        pixel == image_pixels(*image)[(x as int, y as int)],
{
    let rgba = image.get_pixel(x, y);
    Pixel { red: rgba.data[0], green: rgba.data[1], blue: rgba.data[2], alpha: rgba.data[3] }
}

/// `GenericImage::put_pixel` of a `DynamicImage` that stores three colour
/// bytes per pixel: the colour is stored at the column and row, the alpha
/// byte is dropped, and the pixel reads back opaque. Nothing else changes.
/// The call panics outside the image.
#[verifier::external_body]
pub(crate) fn put_pixel(image: &mut DynamicImage, x: u32, y: u32, pixel: Pixel)
    requires
        image_is_rgb8(*old(image)),
        x < image_width(*old(image)),
        y < image_height(*old(image)),
    ensures
        image_is_rgb8(*final(image)),
        image_width(*final(image)) == image_width(*old(image)),
        image_height(*final(image)) == image_height(*old(image)),
        image_pixels(*final(image)) == image_pixels(*old(image)).insert(
            (x as int, y as int),
            pixel.opaque(),
        ),
{
    image.put_pixel(
        x,
        y,
        image::Rgba { data: [pixel.red, pixel.green, pixel.blue, pixel.alpha] },
    )
}

/// `GenericImage::copy_from` of a `DynamicImage` that stores three colour
/// bytes per pixel: when `source`, placed with its top left corner at column
/// `x` and row `y`, lies inside `image`, every pixel of it is stored there as
/// `put_pixel` stores it and the call returns `true`; otherwise nothing
/// changes and it returns `false`. The call adds the offsets to the size of
/// `source` in `u32`, so the precondition keeps the sums in range.
#[verifier::external_body]
pub(crate) fn copy_from(image: &mut DynamicImage, source: &DynamicImage, x: u32, y: u32) -> (copied:
    bool)
    requires
        image_is_rgb8(*old(image)),
        image_width(*source) + x <= u32::MAX,
        image_height(*source) + y <= u32::MAX,
    ensures
        copied == (image_width(*source) + x <= image_width(*old(image)) && image_height(*source)
            + y <= image_height(*old(image))),
        image_is_rgb8(*final(image)),
        image_width(*final(image)) == image_width(*old(image)),
        image_height(*final(image)) == image_height(*old(image)),
        copied ==> image_pixels(*final(image)) == pasted(
            image_pixels(*old(image)),
            image_pixels(*source),
            image_width(*source) as int,
            image_height(*source) as int,
            x as int,
            y as int,
        ),
        !copied ==> image_pixels(*final(image)) == image_pixels(*old(image)),
{
    image.copy_from(source, x, y)
}

} // verus!
