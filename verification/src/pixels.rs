//! The pixel surface: `image::DynamicImage`, seen through a few names and
//! wrappers whose contracts are taken on trust, and the copy of one image
//! into another, which is proved from them.

use vstd::prelude::*;
use image::DynamicImage;
use image::GenericImage;
use image::GenericImageView;

verus! {

/// `image::DynamicImage` is opaque here; everything known of a value goes
/// through the names below.
#[verifier::external_type_specification]
#[verifier::external_body]
pub struct ExDynamicImage(image::DynamicImage);

/// The pixels of an image as `get_pixel` reports them: the RGBA value at each
/// coordinate `(x, y)` inside the image.
pub uninterp spec fn image_pixels(img: DynamicImage) -> Map<(int, int), (u8, u8, u8, u8)>;

/// The width that `dimensions` reports.
pub uninterp spec fn image_width(img: DynamicImage) -> nat;

/// The height that `dimensions` reports.
pub uninterp spec fn image_height(img: DynamicImage) -> nat;

/// Whether the image stores 8-bit RGBA pixels, so that a pixel written is
/// read back unchanged.
pub uninterp spec fn image_is_rgba8(img: DynamicImage) -> bool;

/// The pixel of `img` at `(x, y)`.
pub open spec fn pixel_at(img: DynamicImage, x: int, y: int) -> (u8, u8, u8, u8) {
    image_pixels(img)[(x, y)]
}

/// Whether `4 * w * h` bytes can be addressed.
pub open spec fn surface_fits_memory(w: u32, h: u32) -> bool {
    4 * w * h <= usize::MAX
}

/// Calls `DynamicImage::new_rgba8`. Trusted: the result has the given
/// dimensions, stores RGBA8 and is zero everywhere. The call panics when the
/// buffer length overflows `usize`, which the precondition excludes.
#[verifier::external_body]
pub(crate) fn new_rgba8(w: u32, h: u32) -> (img: DynamicImage)
    requires
        surface_fits_memory(w, h),
    ensures
        image_width(img) == w,
        image_height(img) == h,
        image_is_rgba8(img),
        forall|x: int, y: int|
            0 <= x < w && 0 <= y < h ==> #[trigger] image_pixels(img)[(x, y)] == (
                0u8,
                0u8,
                0u8,
                0u8,
            ),
{
    DynamicImage::new_rgba8(w, h)
}

/// Calls `GenericImageView::dimensions` on a `DynamicImage`. Trusted: the pair
/// is the image's width and height.
#[verifier::external_body]
pub(crate) fn dimensions(img: &DynamicImage) -> (d: (u32, u32))
    ensures
        d.0 == image_width(*img),
        d.1 == image_height(*img),
{
    img.dimensions()
}

/// Calls `GenericImageView::get_pixel` on a `DynamicImage`. Trusted: the
/// result is the RGBA value at `(x, y)`. The call panics outside the image,
/// which the precondition excludes.
#[verifier::external_body]
pub(crate) fn get_pixel(img: &DynamicImage, x: u32, y: u32) -> (p: (u8, u8, u8, u8))
    requires
        x < image_width(*img),
        y < image_height(*img),
    ensures
        p == image_pixels(*img)[(x as int, y as int)],
{
    let c = img.get_pixel(x, y).0;
    (c[0], c[1], c[2], c[3])
}

/// Calls `GenericImage::put_pixel` on a `DynamicImage`. Trusted: dimensions
/// and storage stay, and every pixel but the one at `(x, y)` keeps its value;
/// where the image stores RGBA8, the pixel at `(x, y)` becomes `p` (other
/// storage converts the colour first, of which nothing is claimed). The call
/// panics outside the image, which the precondition excludes.
#[verifier::external_body]
pub(crate) fn put_pixel(img: &mut DynamicImage, x: u32, y: u32, p: (u8, u8, u8, u8))
    requires
        x < image_width(*old(img)),
        y < image_height(*old(img)),
    ensures
        image_is_rgba8(*old(img)) ==> image_pixels(*final(img)) == image_pixels(*old(img)).insert(
            (x as int, y as int),
            p,
        ),
        forall|qx: int, qy: int|
            qx != x || qy != y ==> #[trigger] image_pixels(*final(img))[(qx, qy)] == image_pixels(
                *old(img),
            )[(qx, qy)],
        image_width(*final(img)) == image_width(*old(img)),
        image_height(*final(img)) == image_height(*old(img)),
        image_is_rgba8(*final(img)) == image_is_rgba8(*old(img)),
{
    img.put_pixel(x, y, image::Rgba([p.0, p.1, p.2, p.3]))
}

/// The PNG file that `DynamicImage::write_to` makes of an image; `None` where
/// the encoder reports an error.
pub uninterp spec fn png_encoding(img: DynamicImage) -> Option<Seq<u8>>;

/// Calls `DynamicImage::write_to` with the PNG format on an empty buffer.
/// Trusted: the bytes are the encoding named above, `None` exactly where the
/// call reports an error; the encoder reports one for an image without
/// columns or without lines.
#[verifier::external_body]
pub(crate) fn write_png(img: &DynamicImage) -> (r: Option<Vec<u8>>)
    ensures
        match r {
            Some(bytes) => png_encoding(*img) == Some(bytes@),
            None => png_encoding(*img) is None,
        },
        image_width(*img) == 0 || image_height(*img) == 0 ==> r is None,
{
    let mut bytes: Vec<u8> = Vec::new();
    match img.write_to(&mut bytes, image::ImageFormat::PNG) {
        Ok(()) => Some(bytes),
        Err(_) => None,
    }
}

/// Whether `after` is the RGBA8 image `before` with `source` copied over the
/// rectangle whose top-left corner is `(x0, y0)`: same dimensions and storage,
/// source pixels inside the rectangle, the old pixels everywhere else.
pub open spec fn is_blit_of(
    after: DynamicImage,
    before: DynamicImage,
    source: DynamicImage,
    x0: int,
    y0: int,
) -> bool {
    &&& image_width(after) == image_width(before)
    &&& image_height(after) == image_height(before)
    &&& image_is_rgba8(after)
    &&& forall|x: int, y: int|
        0 <= x < image_width(before) && 0 <= y < image_height(before) ==> #[trigger] pixel_at(
            after,
            x,
            y,
        ) == if x0 <= x < x0 + image_width(source) && y0 <= y < y0 + image_height(source) {
            pixel_at(source, x - x0, y - y0)
        } else {
            pixel_at(before, x, y)
        }
}

/// Whether `(x, y)` lies in the rectangle of `source` placed at `(x0, y0)`.
pub open spec fn in_rectangle(source: DynamicImage, x0: int, y0: int, x: int, y: int) -> bool {
    x0 <= x < x0 + image_width(source) && y0 <= y < y0 + image_height(source)
}

/// Copies every pixel of `source` into `dest` at offset `(start_x, start_y)`,
/// one to one. Whatever the destination stores, it keeps its dimensions, its
/// storage and every pixel outside the rectangle; inside the rectangle a
/// destination that does not store RGBA8 takes the colours as its storage
/// converts them.
pub fn blit(dest: &mut DynamicImage, source: &DynamicImage, start_x: u32, start_y: u32)
    requires
        start_x + image_width(*source) <= image_width(*old(dest)),
        start_y + image_height(*source) <= image_height(*old(dest)),
    ensures
        image_width(*final(dest)) == image_width(*old(dest)),
        image_height(*final(dest)) == image_height(*old(dest)),
        image_is_rgba8(*final(dest)) == image_is_rgba8(*old(dest)),
        forall|x: int, y: int|
            !in_rectangle(*source, start_x as int, start_y as int, x, y) ==> #[trigger] pixel_at(
                *final(dest),
                x,
                y,
            ) == pixel_at(*old(dest), x, y),
        image_is_rgba8(*old(dest)) ==> is_blit_of(
            *final(dest),
            *old(dest),
            *source,
            start_x as int,
            start_y as int,
        ),
{
    let (w, h) = dimensions(source);
    let (dest_w, dest_h) = dimensions(dest);
    let ghost before = *dest;
    let mut y: u32 = 0;
    while y < h
        invariant
            y <= h,
            w == image_width(*source),
            h == image_height(*source),
            dest_w == image_width(before),
            dest_h == image_height(before),
            start_x + w <= dest_w,
            start_y + h <= dest_h,
            image_width(*dest) == image_width(before),
            image_height(*dest) == image_height(before),
            image_is_rgba8(*dest) == image_is_rgba8(before),
            forall|px: int, py: int|
                !in_rectangle(*source, start_x as int, start_y as int, px, py)
                    ==> #[trigger] pixel_at(*dest, px, py) == pixel_at(before, px, py),
            image_is_rgba8(before) ==> forall|px: int, py: int| #[trigger]
                pixel_at(*dest, px, py) == if start_x <= px < start_x + w && start_y <= py
                    < start_y + y {
                    pixel_at(*source, px - start_x, py - start_y)
                } else {
                    pixel_at(before, px, py)
                },
        decreases h - y,
    {
        let mut x: u32 = 0;
        while x < w
            invariant
                x <= w,
                y < h,
                w == image_width(*source),
                h == image_height(*source),
                dest_w == image_width(before),
                dest_h == image_height(before),
                start_x + w <= dest_w,
                start_y + h <= dest_h,
                image_width(*dest) == image_width(before),
                image_height(*dest) == image_height(before),
                image_is_rgba8(*dest) == image_is_rgba8(before),
                forall|px: int, py: int|
                    !in_rectangle(*source, start_x as int, start_y as int, px, py)
                        ==> #[trigger] pixel_at(*dest, px, py) == pixel_at(before, px, py),
                image_is_rgba8(before) ==> forall|px: int, py: int| #[trigger]
                    pixel_at(*dest, px, py) == if start_x <= px < start_x + w && (start_y <= py
                        < start_y + y || (py == start_y + y && px < start_x + x)) {
                        pixel_at(*source, px - start_x, py - start_y)
                    } else {
                        pixel_at(before, px, py)
                    },
            decreases w - x,
        {
            let dx: u32 = start_x + x;
            let dy: u32 = start_y + y;
            let pixel = get_pixel(source, x, y);
            let ghost prev = *dest;
            put_pixel(dest, dx, dy, pixel);
            proof {
                assert forall|px: int, py: int|
                    !in_rectangle(
                        *source,
                        start_x as int,
                        start_y as int,
                        px,
                        py,
                    ) implies #[trigger] pixel_at(*dest, px, py) == pixel_at(before, px, py) by {
                    assert(px != dx || py != dy);
                    assert(image_pixels(*dest)[(px, py)] == image_pixels(prev)[(px, py)]);
                    assert(pixel_at(prev, px, py) == pixel_at(before, px, py));
                }
                if image_is_rgba8(before) {
                    assert forall|px: int, py: int| #[trigger]
                        pixel_at(*dest, px, py) == if px == dx && py == dy {
                            pixel
                        } else {
                            pixel_at(prev, px, py)
                        } by {
                        if px == dx && py == dy {
                        } else {
                            assert((px, py) != (dx as int, dy as int));
                        }
                    }
                }
            }
            x = x + 1;
        }
        y = y + 1;
    }
}

} // verus!
